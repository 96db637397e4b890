//! A map that remembers the order of insertion.
use vstd::prelude::*;

verus! {

/// Values in the order they were inserted, each with the key it was inserted
/// under; a key stands for the value inserted under it last.
pub struct OrderedMap<Value> {
    data: Vec<Value>,
    keys: Vec<String>,
}

/// The position of the value that `key` stands for: the last insertion under
/// it, or -1.
pub open spec fn last_index(keys: Seq<Seq<char>>, key: Seq<char>) -> int
    decreases keys.len(),
{
    if keys.len() == 0 {
        -1
    } else if keys.last() == key {
        keys.len() - 1
    } else {
        last_index(keys.drop_last(), key)
    }
}

pub proof fn lemma_last_index(keys: Seq<Seq<char>>, key: Seq<char>)
    ensures
        -1 <= last_index(keys, key) < keys.len(),
        last_index(keys, key) >= 0 ==> keys[last_index(keys, key)] == key,
        forall|j: int| last_index(keys, key) < j < keys.len() ==> keys[j] != key,
    decreases keys.len(),
{
    if keys.len() > 0 {
        lemma_last_index(keys.drop_last(), key);
        assert forall|j: int| 0 <= j < keys.len() - 1 implies #[trigger] keys[j] == keys.drop_last()[j] by {}
    }
}

impl<Value> OrderedMap<Value> {
    /// The keys, one per value, in order of insertion.
    pub closed spec fn keys(&self) -> Seq<Seq<char>> {
        self.keys.deep_view()
    }

    /// The values in order of insertion.
    pub closed spec fn values(&self) -> Seq<Value> {
        self.data@
    }

    /// The value that `key` stands for.
    pub open spec fn lookup(&self, key: Seq<char>) -> Option<Value> {
        let i = last_index(self.keys(), key);
        if i >= 0 {
            Some(self.values()[i])
        } else {
            None
        }
    }

    /// There is one key per value.
    pub open spec fn wf(&self) -> bool {
        self.keys().len() == self.values().len()
    }

    pub fn new() -> (r: Self)
        ensures
            r.wf(),
            r.keys() == Seq::<Seq<char>>::empty(),
            r.values() == Seq::<Value>::empty(),
            built_from(r, Seq::empty()),
    {
        let r = OrderedMap { data: Vec::new(), keys: Vec::new() };
        assert(r.keys() =~= Seq::<(Seq<char>, Value)>::empty().map_values(|p: (Seq<char>, Value)| p.0));
        assert(r.values() =~= Seq::<(Seq<char>, Value)>::empty().map_values(|p: (Seq<char>, Value)| p.1));
        r
    }

    /// Appends `value`; `key` stands for it from now on.
    pub fn insert(&mut self, key: String, value: Value)
        requires
            old(self).wf(),
        ensures
            final(self).wf(),
            final(self).keys() == old(self).keys().push(key@),
            final(self).values() == old(self).values().push(value),
    {
        self.data.push(value);
        self.keys.push(key);
        assert(self.keys.deep_view() =~= old(self).keys.deep_view().push(self.keys@.last()@));
    }

    /// The value inserted under `key` last.
    pub fn get(&self, key: &String) -> (r: Option<&Value>)
        requires
            self.wf(),
        ensures
            match self.lookup(key@) {
                Some(v) => r == Some(&v),
                None => r is None,
            },
    {
        let mut j: usize = self.keys.len();
        assert(self.keys().take(j as int) == self.keys());
        while j > 0
            invariant
                j <= self.keys@.len(),
                self.wf(),
                last_index(self.keys(), key@) == last_index(self.keys().take(j as int), key@),
            decreases j,
        {
            assert(self.keys().take(j as int).drop_last() == self.keys().take(j - 1));
            if self.keys[j - 1] == *key {
                return Some(&self.data[j - 1]);
            }
            j = j - 1;
        }
        None
    }

    /// All values in order of insertion.
    pub fn get_all(&self) -> (r: &[Value])
        ensures
            r@ == self.values(),
    {
        self.data.as_slice()
    }

    /// The value at position `index` of the insertion order.
    pub fn get_at(&self, index: usize) -> (r: Option<&Value>)
        ensures
            index < self.values().len() ==> r == Some(&self.values()[index as int]),
            index >= self.values().len() ==> r is None,
    {
        if index < self.data.len() {
            Some(&self.data[index])
        } else {
            None
        }
    }
}

impl<Value> Default for OrderedMap<Value> {
    fn default() -> (r: Self)
        ensures
            r.wf(),
            r.keys() == Seq::<Seq<char>>::empty(),
            r.values() == Seq::<Value>::empty(),
    {
        Self::new()
    }
}

/// The map holds the pairs inserted into a new map, in order: what
/// [OrderedMap::new] gives for no pairs, and [OrderedMap::insert] keeps for one
/// more (see [insert_records_pair]).
pub open spec fn built_from<Value>(m: OrderedMap<Value>, pairs: Seq<(Seq<char>, Value)>) -> bool {
    &&& m.keys() == pairs.map_values(|p: (Seq<char>, Value)| p.0)
    &&& m.values() == pairs.map_values(|p: (Seq<char>, Value)| p.1)
}

/// An insertion adds its pair after the others.
pub proof fn insert_records_pair<Value>(
    before: OrderedMap<Value>,
    after: OrderedMap<Value>,
    pairs: Seq<(Seq<char>, Value)>,
    key: Seq<char>,
    value: Value,
)
    requires
        built_from(before, pairs),
        after.keys() == before.keys().push(key),
        after.values() == before.values().push(value),
    ensures
        built_from(after, pairs.push((key, value))),
{
    assert(after.keys() =~= pairs.push((key, value)).map_values(|p: (Seq<char>, Value)| p.0));
    assert(after.values() =~= pairs.push((key, value)).map_values(|p: (Seq<char>, Value)| p.1));
}

/// After a new map got the pairs `pairs` inserted in turn, a key stands for
/// the value of the last pair with that key, and for nothing when no pair
/// has it (what [OrderedMap::get] gives back).
pub proof fn get_after_inserts<Value>(m: OrderedMap<Value>, pairs: Seq<(Seq<char>, Value)>, key: Seq<char>)
    requires
        built_from(m, pairs),
    ensures
        m.lookup(key) is None <==> forall|j: int| 0 <= j < pairs.len() ==> #[trigger] pairs[j].0 != key,
        m.lookup(key) matches Some(v) ==> exists|j: int|
            0 <= j < pairs.len() && #[trigger] pairs[j] == (key, v) && forall|l: int|
                j < l < pairs.len() ==> #[trigger] pairs[l].0 != key,
{
    lookup_is_last_insert(m, key);
    assert(m.keys().len() == pairs.len());
    assert forall|j: int| 0 <= j < pairs.len() implies #[trigger] m.keys()[j] == pairs[j].0 && m.values()[j]
        == pairs[j].1 by {}
    if let Some(v) = m.lookup(key) {
        let j = choose|j: int|
            0 <= j < m.keys().len() && #[trigger] m.keys()[j] == key && v == m.values()[j] && forall|l: int|
                j < l < m.keys().len() ==> #[trigger] m.keys()[l] != key;
        assert(pairs[j] == (key, v));
        assert forall|l: int| j < l < pairs.len() implies #[trigger] pairs[l].0 != key by {
            assert(m.keys()[l] == pairs[l].0);
        }
    }
    if forall|j: int| 0 <= j < pairs.len() ==> #[trigger] pairs[j].0 != key {
        assert forall|j: int| 0 <= j < m.keys().len() implies #[trigger] m.keys()[j] != key by {
            assert(m.keys()[j] == pairs[j].0);
        }
    }
    if forall|j: int| 0 <= j < m.keys().len() ==> #[trigger] m.keys()[j] != key {
        assert forall|j: int| 0 <= j < pairs.len() implies #[trigger] pairs[j].0 != key by {
            assert(m.keys()[j] == pairs[j].0);
        }
    }
}

/// Whatever inserts built the map (its keys and values are those inserted,
/// in order): a key stands for the value inserted under it last, and for
/// nothing when it was never inserted.
pub proof fn lookup_is_last_insert<Value>(m: OrderedMap<Value>, key: Seq<char>)
    requires
        m.wf(),
    ensures
        m.lookup(key) is None <==> forall|j: int| 0 <= j < m.keys().len() ==> #[trigger] m.keys()[j] != key,
        m.lookup(key) matches Some(v) ==> exists|j: int|
            0 <= j < m.keys().len() && #[trigger] m.keys()[j] == key && v == m.values()[j] && forall|l: int|
                j < l < m.keys().len() ==> #[trigger] m.keys()[l] != key,
{
    lemma_last_index(m.keys(), key);
    let i = last_index(m.keys(), key);
    if i >= 0 {
        assert(m.keys()[i] == key);
    }
}

/// After an insertion the key stands for the inserted value, and every other
/// key stands for what it stood for before.
pub proof fn insert_then_lookup<Value>(
    before: OrderedMap<Value>,
    after: OrderedMap<Value>,
    key: Seq<char>,
    value: Value,
    other: Seq<char>,
)
    requires
        before.wf(),
        after.keys() == before.keys().push(key),
        after.values() == before.values().push(value),
        other != key,
    ensures
        after.lookup(key) == Some(value),
        after.lookup(other) == before.lookup(other),
{
    insert_then_get(before.keys(), before.values(), key, value, other);
    lemma_last_index(before.keys(), other);
}

/// A key stands for the value inserted under it last, and an insertion
/// leaves what other keys stand for and the earlier values untouched.
pub proof fn insert_then_get<Value>(
    keys: Seq<Seq<char>>,
    values: Seq<Value>,
    key: Seq<char>,
    value: Value,
    other: Seq<char>,
)
    requires
        keys.len() == values.len(),
        other != key,
    ensures
        last_index(keys.push(key), key) == keys.len(),
        values.push(value)[last_index(keys.push(key), key)] == value,
        last_index(keys.push(key), other) == last_index(keys, other),
        forall|i: int| 0 <= i < values.len() ==> values.push(value)[i] == values[i],
{
    assert(keys.push(key).drop_last() == keys);
}

} // verus!

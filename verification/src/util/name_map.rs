//! A map keyed by name.
use vstd::prelude::*;

verus! {

/// Entries keyed by name, each name once, in order of first insertion;
/// inserting under a present name replaces that entry's value.
pub struct NameMap<V> {
    entries: Vec<(String, V)>,
}

/// The entries with their names as text.
pub open spec fn named<V>(s: Seq<(String, V)>) -> Seq<(Seq<char>, V)> {
    s.map_values(|e: (String, V)| (e.0@, e.1))
}

/// Where `name` stands in the entries, or -1.
pub open spec fn position<V>(s: Seq<(Seq<char>, V)>, name: Seq<char>) -> int
    decreases s.len(),
{
    if s.len() == 0 {
        -1
    } else if s.last().0 == name {
        s.len() - 1
    } else {
        position(s.drop_last(), name)
    }
}

pub proof fn lemma_position<V>(s: Seq<(Seq<char>, V)>, name: Seq<char>)
    ensures
        -1 <= position(s, name) < s.len(),
        position(s, name) >= 0 ==> s[position(s, name)].0 == name,
        position(s, name) < 0 ==> forall|j: int| 0 <= j < s.len() ==> #[trigger] s[j].0 != name,
    decreases s.len(),
{
    if s.len() > 0 {
        lemma_position(s.drop_last(), name);
        assert forall|j: int| 0 <= j < s.len() - 1 implies #[trigger] s[j] == s.drop_last()[j] by {}
    }
}

/// Insertion: the entry of a present name gets the value in place, a new
/// name goes to the end.
pub open spec fn insert_named<V>(s: Seq<(Seq<char>, V)>, name: Seq<char>, v: V) -> Seq<
    (Seq<char>, V),
> {
    let i = position(s, name);
    if i >= 0 {
        s.update(i, (name, v))
    } else {
        s.push((name, v))
    }
}

/// No name occurs twice.
pub open spec fn unique_names<V>(s: Seq<(Seq<char>, V)>) -> bool {
    forall|i: int, j: int| 0 <= i < j < s.len() ==> s[i].0 != s[j].0
}

/// Where `name` stands among the entries.
fn find_entry<V>(entries: &Vec<(String, V)>, name: &str) -> (r: Option<usize>)
    ensures
        match r {
            Some(i) => i as int == position(named(entries@), name@) && i < entries@.len(),
            None => position(named(entries@), name@) == -1,
        },
{
    let target = name.to_owned();
    let mut j: usize = entries.len();
    assert(named(entries@).take(j as int) == named(entries@));
    while j > 0
        invariant
            j <= entries@.len(),
            target@ == name@,
            position(named(entries@), name@) == position(named(entries@).take(j as int), name@),
        decreases j,
    {
        assert(named(entries@).take(j as int).drop_last() == named(entries@).take(j - 1));
        if entries[j - 1].0 == target {
            return Some(j - 1);
        }
        j = j - 1;
    }
    None
}

/// Stores `value` under `name` in a list of named entries.
pub fn insert_entry<V>(entries: &mut Vec<(String, V)>, name: String, value: V)
    ensures
        named(final(entries)@) == insert_named(named(old(entries)@), name@, value),
{
    let ghost nv = name@;
    match find_entry(entries, name.as_str()) {
        Some(i) => {
            entries.set(i, (name, value));
        },
        None => {
            entries.push((name, value));
        },
    }
    assert(named(entries@) =~= insert_named(named(old(entries)@), nv, value));
}

/// The value stored under `name` in a list of named entries.
pub fn get_entry<'a, V>(entries: &'a Vec<(String, V)>, name: &str) -> (r: Option<&'a V>)
    ensures
        match named_lookup(named(entries@), name@) {
            Some(v) => r == Some(&v),
            None => r is None,
        },
{
    match find_entry(entries, name) {
        Some(i) => Some(&entries[i].1),
        None => None,
    }
}

/// The value stored under `name`.
pub open spec fn named_lookup<V>(s: Seq<(Seq<char>, V)>, name: Seq<char>) -> Option<V> {
    let i = position(s, name);
    if i >= 0 {
        Some(s[i].1)
    } else {
        None
    }
}

impl<V> NameMap<V> {
    /// The entries, in order of first insertion.
    pub closed spec fn entries(&self) -> Seq<(Seq<char>, V)> {
        named(self.entries@)
    }

    /// The value stored under `name`.
    pub open spec fn lookup(&self, name: Seq<char>) -> Option<V> {
        named_lookup(self.entries(), name)
    }

    pub fn new() -> (r: Self)
        ensures
            r.entries() == Seq::<(Seq<char>, V)>::empty(),
    {
        let r = NameMap { entries: Vec::new() };
        assert(r.entries() =~= Seq::<(Seq<char>, V)>::empty());
        r
    }

    /// Stores `value` under `name`.
    pub fn insert(&mut self, name: String, value: V)
        ensures
            final(self).entries() == insert_named(old(self).entries(), name@, value),
    {
        insert_entry(&mut self.entries, name, value);
    }

    /// The value stored under `name`.
    pub fn get(&self, name: &str) -> (r: Option<&V>)
        ensures
            match self.lookup(name@) {
                Some(v) => r == Some(&v),
                None => r is None,
            },
    {
        get_entry(&self.entries, name)
    }

    /// The values, in order of first insertion of their names.
    pub fn values(&self) -> (r: Vec<&V>)
        ensures
            r@.len() == self.entries().len(),
            forall|i: int| 0 <= i < r@.len() ==> *r@[i] == self.entries()[i].1,
    {
        let mut r: Vec<&V> = Vec::new();
        let mut i: usize = 0;
        while i < self.entries.len()
            invariant
                i <= self.entries@.len(),
                r@.len() == i,
                forall|j: int| 0 <= j < i ==> *r@[j] == self.entries()[j].1,
            decreases self.entries@.len() - i,
        {
            r.push(&self.entries[i].1);
            i = i + 1;
        }
        r
    }
}

/// Inserting keeps names unique, and a name then stands for the value just
/// inserted while other names keep theirs.
pub proof fn insert_named_law<V>(s: Seq<(Seq<char>, V)>, name: Seq<char>, v: V, other: Seq<char>)
    requires
        unique_names(s),
        other != name,
    ensures
        unique_names(insert_named(s, name, v)),
        position(insert_named(s, name, v), name) >= 0,
        insert_named(s, name, v)[position(insert_named(s, name, v), name)].1 == v,
        position(insert_named(s, name, v), other) >= 0 <==> position(s, other) >= 0,
        position(s, other) >= 0 ==> insert_named(s, name, v)[position(
            insert_named(s, name, v),
            other,
        )].1 == s[position(s, other)].1,
{
    lemma_position(s, name);
    lemma_position(s, other);
    let t = insert_named(s, name, v);
    lemma_position(t, name);
    lemma_position(t, other);
    if position(s, name) >= 0 {
        assert(t[position(s, name)].0 == name);
    } else {
        assert(t[s.len() as int].0 == name);
    }
    if position(s, other) >= 0 {
        assert(t[position(s, other)].0 == other);
    }
    if position(t, other) >= 0 {
        let k = position(t, other);
        assert(t[k].0 == other);
        if k < s.len() {
            assert(s[k].0 == other);
        }
    }
}

} // verus!

//! `@namespace.function --key value ...` calls of other tasks.
use vstd::prelude::*;
use vstd::string::*;

use crate::text::{chars_of, split, split_chars, string_from, trim, trim_chars};

verus! {

/// A call of a task, written `@namespace.function --key value ...`.
/// `params` holds each key once, in the order of its first occurrence.
#[derive(Debug, PartialEq)]
pub struct FunctionCall {
    namespace: String,
    function: String,
    params: Vec<(String, String)>,
}

/// The value a [FunctionCall] stands for.
pub struct FunctionCallView {
    pub namespace: Seq<char>,
    pub function: Seq<char>,
    pub params: Seq<(Seq<char>, Seq<char>)>,
}

impl View for FunctionCall {
    type V = FunctionCallView;

    closed spec fn view(&self) -> FunctionCallView {
        FunctionCallView {
            namespace: self.namespace@,
            function: self.function@,
            params: self.params.deep_view(),
        }
    }
}

/// Where key `k` stands in the association list (its last occurrence), or -1.
pub open spec fn key_index(acc: Seq<(Seq<char>, Seq<char>)>, k: Seq<char>) -> int
    decreases acc.len(),
{
    if acc.len() == 0 {
        -1
    } else if acc.last().0 == k {
        acc.len() - 1
    } else {
        key_index(acc.drop_last(), k)
    }
}

/// Map insertion on an association list: an existing key gets the new value
/// in place, a new key goes to the end.
pub open spec fn assoc_insert(
    acc: Seq<(Seq<char>, Seq<char>)>,
    k: Seq<char>,
    v: Seq<char>,
) -> Seq<(Seq<char>, Seq<char>)> {
    let i = key_index(acc, k);
    if i >= 0 {
        acc.update(i, (k, v))
    } else {
        acc.push((k, v))
    }
}

/// The association list seen as a map.
pub open spec fn assoc_map(acc: Seq<(Seq<char>, Seq<char>)>) -> Map<Seq<char>, Seq<char>>
    decreases acc.len(),
{
    if acc.len() == 0 {
        Map::empty()
    } else {
        assoc_map(acc.drop_last()).insert(acc.last().0, acc.last().1)
    }
}

pub open spec fn msg_bad_passing() -> Seq<char> {
    "invalid param passing. help: @namespace.task --param1 value1 --param2 value2 ..."@
}

pub open spec fn msg_bad_name(key: Seq<char>) -> Seq<char> {
    "invalid param name '"@ + key + "' (param name should start with '--' )"@
}

pub open spec fn msg_two_dots() -> Seq<char> {
    "syntax error( two dots found in @namespace.functionName)"@
}

pub open spec fn msg_no_namespace() -> Seq<char> {
    "syntax error(namespace is missing)"@
}

pub open spec fn msg_no_function() -> Seq<char> {
    "syntax error(function name is missing)"@
}

/// The word starts with `--`.
pub open spec fn dashed(w: Seq<char>) -> bool {
    w.len() >= 2 && w[0] == '-' && w[1] == '-'
}

/// The `--key value` pairs read from `words`, inserted into `acc`; the first
/// key without the `--` prefix is an error.
pub open spec fn parse_params(
    words: Seq<Seq<char>>,
    acc: Seq<(Seq<char>, Seq<char>)>,
) -> Result<Seq<(Seq<char>, Seq<char>)>, Seq<char>>
    decreases words.len(),
{
    if words.len() < 2 {
        Ok(acc)
    } else if !dashed(words[0]) {
        Err(msg_bad_name(words[0]))
    } else {
        parse_params(words.skip(2), assoc_insert(acc, words[0].skip(2), words[1]))
    }
}

/// `(namespace, function)` named by the first word after `@`: a word without
/// a dot names a function of the `this` namespace.
pub open spec fn call_target(id: Seq<char>) -> Result<(Seq<char>, Seq<char>), Seq<char>> {
    let parts = split(id, '.');
    if parts.len() > 2 {
        Err(msg_two_dots())
    } else {
        let ns = if parts.len() == 1 { "this"@ } else { parts[0] };
        let f = if parts.len() == 1 { parts[0] } else { parts[1] };
        if ns.len() == 0 {
            Err(msg_no_namespace())
        } else if f.len() == 0 {
            Err(msg_no_function())
        } else {
            Ok((ns, f))
        }
    }
}

/// The call written by `t`, text that starts with `@` (or another one-byte
/// character) and has no surrounding white space.
pub open spec fn parse_call(t: Seq<char>) -> Result<FunctionCallView, Seq<char>> {
    let words = split(t.drop_first(), ' ');
    let rest = words.skip(1);
    match call_target(words[0]) {
        Err(e) => Err(e),
        Ok(target) => if rest.len() % 2 != 0 {
            Err(msg_bad_passing())
        } else {
            match parse_params(rest, Seq::empty()) {
                Err(e) => Err(e),
                Ok(params) => Ok(
                    FunctionCallView { namespace: target.0, function: target.1, params },
                ),
            }
        },
    }
}

/// The first character is written with one byte in UTF-8.
pub open spec fn one_byte_first(t: Seq<char>) -> bool {
    t.len() > 0 && (t[0] as u32) < 0x80
}

/// A string whose view is the given characters.
fn owned(v: &Vec<char>) -> (s: String)
    ensures
        s@ == v@,
{
    string_from(v.as_slice())
}

fn find_key(acc: &Vec<(String, String)>, k: &Vec<char>) -> (r: Option<usize>)
    ensures
        match r {
            Some(i) => i as int == key_index(acc.deep_view(), k@),
            None => key_index(acc.deep_view(), k@) == -1,
        },
{
    let mut j: usize = acc.len();
    let ks = owned(k);
    assert(acc.deep_view().take(acc.len() as int) == acc.deep_view());
    while j > 0
        invariant
            j <= acc.len(),
            ks@ == k@,
            key_index(acc.deep_view(), k@) == key_index(acc.deep_view().take(j as int), k@),
        decreases j,
    {
        let ghost pre = acc.deep_view().take(j as int);
        assert(pre.drop_last() == acc.deep_view().take(j - 1));
        if acc[j - 1].0 == ks {
            return Some(j - 1);
        }
        j = j - 1;
    }
    None
}

/// Inserts `(k, v)` as a map would: in place where `k` is present.
fn insert_param(acc: &mut Vec<(String, String)>, k: String, v: String)
    ensures
        final(acc).deep_view() == assoc_insert(old(acc).deep_view(), k@, v@),
{
    let ghost kv = k@;
    let ghost vv = v@;
    proof {
        lemma_key_index_range(acc.deep_view(), k@);
    }
    match find_key(acc, &chars_of(k.as_str())) {
        Some(i) => {
            acc.set(i, (k, v));
        },
        None => {
            acc.push((k, v));
        },
    }
    assert(acc.deep_view() =~= assoc_insert(old(acc).deep_view(), kv, vv));
}

fn error(s: &str) -> (r: String)
    ensures
        r@ == s@,
{
    String::from_str(s)
}

impl FunctionCall {
    pub fn new(namespace: String, function: String, params: Vec<(String, String)>) -> (r: Self)
        ensures
            r@.namespace == namespace@,
            r@.function == function@,
            r@.params == params.deep_view(),
    {
        FunctionCall { namespace, function, params }
    }

    pub fn namespace(&self) -> (r: &str)
        ensures
            r@ == self@.namespace,
    {
        self.namespace.as_str()
    }

    pub fn function(&self) -> (r: &str)
        ensures
            r@ == self@.function,
    {
        self.function.as_str()
    }

    /// The `--key value` arguments, each key once.
    pub fn params(&self) -> (r: &Vec<(String, String)>)
        ensures
            r.deep_view() == self@.params,
    {
        &self.params
    }

    /// Parses `@namespace.function --key value ...`.
    pub fn try_from(value: &str) -> (r: Result<Self, String>)
        requires
            one_byte_first(trim(value@)),
        ensures
            match (r, parse_call(trim(value@))) {
                (Ok(c), Ok(v)) => c@ == v,
                (Err(e), Err(m)) => e@ == m,
                _ => false,
            },
    {
        let t = trim_chars(chars_of(value).as_slice());
        Self::from_trimmed(&t)
    }

    /// Parses trimmed text that starts with a one-byte character.
    pub(crate) fn from_trimmed(t: &Vec<char>) -> (r: Result<Self, String>)
        requires
            one_byte_first(t@),
        ensures
            match (r, parse_call(t@)) {
                (Ok(c), Ok(v)) => c@ == v,
                (Err(e), Err(m)) => e@ == m,
                _ => false,
            },
    {
        let mut body: Vec<char> = Vec::new();
        let mut k: usize = 1;
        while k < t.len()
            invariant
                1 <= k <= t.len(),
                body@ == t@.subrange(1, k as int),
            decreases t.len() - k,
        {
            body.push(t[k]);
            k = k + 1;
        }
        assert(body@ == t@.drop_first());
        let words = split_chars(body.as_slice(), ' ');
        assert(words.deep_view().len() > 0) by {
            lemma_split_nonempty(body@, ' ');
        }
        let parts = split_chars(words[0].as_slice(), '.');
        assert(parts.deep_view().len() > 0) by {
            lemma_split_nonempty(words[0]@, '.');
        }
        assert(words.deep_view()[0] == words[0]@);
        assert(parts.deep_view() == split(words.deep_view()[0], '.'));
        assert(parts.len() >= 1 ==> parts.deep_view()[0] == parts[0]@);
        assert(parts.len() >= 2 ==> parts.deep_view()[1] == parts[1]@);
        if parts.len() > 2 {
            return Err(error("syntax error( two dots found in @namespace.functionName)"));
        }
        let namespace = if parts.len() == 1 {
            String::from_str("this")
        } else {
            owned(&parts[0])
        };
        let function = if parts.len() == 1 {
            owned(&parts[0])
        } else {
            owned(&parts[1])
        };
        if namespace.as_str().is_empty() {
            return Err(error("syntax error(namespace is missing)"));
        }
        if function.as_str().is_empty() {
            return Err(error("syntax error(function name is missing)"));
        }
        let ghost rest = words.deep_view().skip(1);
        if (words.len() - 1) % 2 != 0 {
            return Err(
                error(
                    "invalid param passing. help: @namespace.task --param1 value1 --param2 value2 ...",
                ),
            );
        }
        let mut params: Vec<(String, String)> = Vec::new();
        let mut i: usize = 1;
        assert(params.deep_view() =~= Seq::<(Seq<char>, Seq<char>)>::empty());
        while words.len() - i > 1
            invariant
                1 <= i <= words.len(),
                (i - 1) % 2 == 0,
                (words.len() - 1) % 2 == 0,
                rest == words.deep_view().skip(1),
                parse_call(t@) == (match parse_params(rest, Seq::empty()) {
                    Err(e) => Err(e),
                    Ok(p) => Ok(
                        FunctionCallView { namespace: namespace@, function: function@, params: p },
                    ),
                }),
                parse_params(rest, Seq::empty()) == parse_params(
                    words.deep_view().skip(i as int),
                    params.deep_view(),
                ),
            decreases words.len() - i,
        {
            let key = &words[i];
            let ghost ws = words.deep_view().skip(i as int);
            assert(ws[0] == key@);
            assert(ws[1] == words[i + 1]@);
            if !(key.len() >= 2 && key[0] == '-' && key[1] == '-') {
                let mut e = String::from_str("invalid param name '");
                e.append(owned(key).as_str());
                e.append("' (param name should start with '--' )");
                return Err(e);
            }
            let mut name: Vec<char> = Vec::new();
            let mut c: usize = 2;
            while c < key.len()
                invariant
                    2 <= c <= key.len(),
                    name@ == key@.subrange(2, c as int),
                decreases key.len() - c,
            {
                name.push(key[c]);
                c = c + 1;
            }
            assert(name@ == key@.skip(2));
            assert(ws.skip(2) == words.deep_view().skip(i + 2));
            insert_param(&mut params, owned(&name), owned(&words[i + 1]));
            i = i + 2;
        }
        assert(words.deep_view().skip(i as int).len() < 2);
        Ok(FunctionCall { namespace, function, params })
    }
}

proof fn lemma_key_index_range(acc: Seq<(Seq<char>, Seq<char>)>, k: Seq<char>)
    ensures
        -1 <= key_index(acc, k) < acc.len(),
        key_index(acc, k) >= 0 ==> acc[key_index(acc, k)].0 == k,
        key_index(acc, k) < 0 ==> forall|j: int| 0 <= j < acc.len() ==> #[trigger] acc[j].0 != k,
    decreases acc.len(),
{
    if acc.len() > 0 {
        lemma_key_index_range(acc.drop_last(), k);
        assert forall|j: int| 0 <= j < acc.len() - 1 implies #[trigger] acc[j] == acc.drop_last()[j] by {}
    }
}

/// No key occurs twice.
pub open spec fn distinct_keys(acc: Seq<(Seq<char>, Seq<char>)>) -> bool {
    forall|i: int, j: int| 0 <= i < j < acc.len() ==> acc[i].0 != acc[j].0
}

proof fn lemma_assoc_insert_distinct(acc: Seq<(Seq<char>, Seq<char>)>, k: Seq<char>, v: Seq<char>)
    requires
        distinct_keys(acc),
    ensures
        distinct_keys(assoc_insert(acc, k, v)),
{
    lemma_key_index_range(acc, k);
    let t = assoc_insert(acc, k, v);
    assert forall|i: int, j: int| 0 <= i < j < t.len() implies t[i].0 != t[j].0 by {
        if key_index(acc, k) >= 0 {
            assert(t[i].0 == acc[i].0 && t[j].0 == acc[j].0);
        } else if j == acc.len() {
            assert(acc[i].0 != k);
        } else {
            assert(t[i] == acc[i] && t[j] == acc[j]);
        }
    }
}

proof fn lemma_parse_params_distinct(words: Seq<Seq<char>>, acc: Seq<(Seq<char>, Seq<char>)>)
    requires
        distinct_keys(acc),
    ensures
        parse_params(words, acc) matches Ok(p) ==> distinct_keys(p),
    decreases words.len(),
{
    if words.len() >= 2 && dashed(words[0]) {
        lemma_assoc_insert_distinct(acc, words[0].skip(2), words[1]);
        lemma_parse_params_distinct(words.skip(2), assoc_insert(acc, words[0].skip(2), words[1]));
    }
}

/// The parameters of a call form a map: no key occurs twice.
pub proof fn call_params_are_distinct(t: Seq<char>)
    ensures
        parse_call(t) matches Ok(c) ==> distinct_keys(c.params),
{
    let words = split(t.drop_first(), ' ');
    lemma_parse_params_distinct(words.skip(1), Seq::empty());
}

pub proof fn lemma_split_nonempty(s: Seq<char>, sep: char)
    ensures
        split(s, sep).len() > 0,
    decreases s.len(),
{
    if s.len() > 0 {
        lemma_split_nonempty(s.drop_last(), sep);
    }
}

} // verus!

verus! {

/// The `--key value` words of the parameters, each preceded by a space.
pub open spec fn params_text(ps: Seq<(Seq<char>, Seq<char>)>) -> Seq<char>
    decreases ps.len(),
{
    if ps.len() == 0 {
        Seq::empty()
    } else {
        params_text(ps.drop_last()) + " --"@ + ps.last().0 + " "@ + ps.last().1
    }
}

/// A call written back as `@namespace.function --key value ...`.
pub open spec fn call_text(c: FunctionCallView) -> Seq<char> {
    "@"@ + c.namespace + "."@ + c.function + params_text(c.params)
}

impl FunctionCall {
    /// The call written as `@namespace.function --key value ...`.
    pub fn to_command_string(&self) -> (r: String)
        ensures
            r@ == call_text(self@),
    {
        let mut s = String::from_str("@");
        s.append(self.namespace.as_str());
        s.append(".");
        s.append(self.function.as_str());
        let ghost head = s@;
        let mut i: usize = 0;
        while i < self.params.len()
            invariant
                i <= self.params@.len(),
                head == "@"@ + self.namespace@ + "."@ + self.function@,
                s@ == head + params_text(self.params.deep_view().take(i as int)),
            decreases self.params@.len() - i,
        {
            let ghost before = s@;
            s.append(" --");
            s.append(self.params[i].0.as_str());
            s.append(" ");
            s.append(self.params[i].1.as_str());
            assert(self.params.deep_view().take(i + 1).drop_last() == self.params.deep_view().take(i as int));
            assert(s@ =~= head + params_text(self.params.deep_view().take(i + 1)));
            i = i + 1;
        }
        assert(self.params.deep_view().take(self.params@.len() as int) == self.params.deep_view());
        s
    }
}

} // verus!

verus! {

/// No character of `w` is `c`.
pub open spec fn free_of(w: Seq<char>, c: char) -> bool {
    forall|i: int| 0 <= i < w.len() ==> w[i] != c
}

/// No key or value holds a space.
pub open spec fn spaceless_params(ps: Seq<(Seq<char>, Seq<char>)>) -> bool {
    forall|i: int| 0 <= i < ps.len() ==> free_of(#[trigger] ps[i].0, ' ') && free_of(ps[i].1, ' ')
}

/// The `--key value` words of the parameters, in order.
pub open spec fn param_words(ps: Seq<(Seq<char>, Seq<char>)>) -> Seq<Seq<char>>
    decreases ps.len(),
{
    if ps.len() == 0 {
        Seq::empty()
    } else {
        param_words(ps.drop_last()) + seq![seq!['-', '-'] + ps.last().0, ps.last().1]
    }
}

proof fn lemma_split_single(w: Seq<char>, sep: char)
    requires
        free_of(w, sep),
    ensures
        split(w, sep) == seq![w],
    decreases w.len(),
{
    if w.len() > 0 {
        lemma_split_single(w.drop_last(), sep);
        assert(w[w.len() - 1] != sep);
        assert(w.drop_last().push(w.last()) == w);
        assert(split(w, sep) =~= seq![w]);
    } else {
        assert(w =~= Seq::<char>::empty());
    }
}

proof fn lemma_split_concat(a: Seq<char>, b: Seq<char>, sep: char)
    ensures
        split(a + seq![sep] + b, sep) == split(a, sep) + split(b, sep),
    decreases b.len(),
{
    if b.len() == 0 {
        assert(a + seq![sep] + b == (a + seq![sep]));
        assert((a + seq![sep]).drop_last() == a);
    } else {
        let b2 = b.drop_last();
        lemma_split_concat(a, b2, sep);
        lemma_split_nonempty(b2, sep);
        let s = a + seq![sep] + b;
        assert(s.drop_last() == a + seq![sep] + b2);
        assert(s.last() == b.last());
        let p = split(a, sep) + split(b2, sep);
        if b.last() != sep {
            assert(p.update(p.len() - 1, p.last().push(b.last())) =~= split(a, sep) + split(
                b2,
                sep,
            ).update(split(b2, sep).len() - 1, split(b2, sep).last().push(b.last())));
        } else {
            assert(p.push(Seq::<char>::empty()) =~= split(a, sep) + split(b2, sep).push(
                Seq::<char>::empty(),
            ));
        }
    }
}

proof fn lemma_split_pieces_free(s: Seq<char>, sep: char, d: char)
    ensures
        forall|j: int| 0 <= j < split(s, sep).len() ==> free_of(#[trigger] split(s, sep)[j], sep),
        free_of(s, d) ==> forall|j: int| 0 <= j < split(s, sep).len() ==> free_of(#[trigger] split(s, sep)[j], d),
    decreases s.len(),
{
    if s.len() > 0 {
        lemma_split_pieces_free(s.drop_last(), sep, d);
        lemma_split_nonempty(s.drop_last(), sep);
        let p = split(s.drop_last(), sep);
        if s.last() != sep {
            let q = p.update(p.len() - 1, p.last().push(s.last()));
            assert forall|j: int| 0 <= j < q.len() implies free_of(#[trigger] q[j], sep) && (free_of(s, d) ==> free_of(q[j], d)) by {
                if j < p.len() - 1 {
                    assert(q[j] == p[j]);
                } else {
                    assert(q[j] == p.last().push(s.last()));
                    if free_of(s, d) {
                        assert(s[s.len() - 1] != d);
                        assert(free_of(s.drop_last(), d));
                    }
                }
                if free_of(s, d) {
                    assert(free_of(s.drop_last(), d));
                }
            }
        } else {
            let q = p.push(Seq::<char>::empty());
            assert forall|j: int| 0 <= j < q.len() implies free_of(#[trigger] q[j], sep) && (free_of(s, d) ==> free_of(q[j], d)) by {
                if j < p.len() {
                    assert(q[j] == p[j]);
                }
                if free_of(s, d) {
                    assert(free_of(s.drop_last(), d));
                }
            }
        }
    }
}

proof fn lemma_param_words_len(ps: Seq<(Seq<char>, Seq<char>)>)
    ensures
        param_words(ps).len() == 2 * ps.len(),
    decreases ps.len(),
{
    if ps.len() > 0 {
        lemma_param_words_len(ps.drop_last());
    }
}

proof fn lemma_parse_params_append(
    w: Seq<Seq<char>>,
    x: Seq<char>,
    y: Seq<char>,
    acc: Seq<(Seq<char>, Seq<char>)>,
)
    requires
        w.len() % 2 == 0,
    ensures
        parse_params(w + seq![x, y], acc) == match parse_params(w, acc) {
            Err(e) => Err(e),
            Ok(p) => if dashed(x) {
                Ok(assoc_insert(p, x.skip(2), y))
            } else {
                Err(msg_bad_name(x))
            },
        },
    decreases w.len(),
{
    let v = w + seq![x, y];
    if w.len() == 0 {
        assert(v == seq![x, y]);
        assert(v[0] == x && v[1] == y);
        assert(v.skip(2) == Seq::<Seq<char>>::empty());
        if dashed(x) {
            let acc2 = assoc_insert(acc, x.skip(2), y);
            assert(parse_params(Seq::<Seq<char>>::empty(), acc2) == Ok::<Seq<(Seq<char>, Seq<char>)>, Seq<char>>(acc2));
        }
    } else {
        assert(v[0] == w[0]);
        assert(v[1] == w[1]);
        assert(v.skip(2) == w.skip(2) + seq![x, y]);
        if dashed(w[0]) {
            lemma_parse_params_append(w.skip(2), x, y, assoc_insert(acc, w[0].skip(2), w[1]));
        }
    }
}

proof fn lemma_parse_param_words(ps: Seq<(Seq<char>, Seq<char>)>)
    requires
        distinct_keys(ps),
    ensures
        parse_params(param_words(ps), Seq::empty()) == Ok::<Seq<(Seq<char>, Seq<char>)>, Seq<char>>(ps),
    decreases ps.len(),
{
    if ps.len() > 0 {
        let p2 = ps.drop_last();
        let k = ps.last().0;
        let v = ps.last().1;
        assert(distinct_keys(p2));
        lemma_parse_param_words(p2);
        lemma_param_words_len(p2);
        let x = seq!['-', '-'] + k;
        assert(param_words(ps) == param_words(p2) + seq![x, v]);
        lemma_parse_params_append(param_words(p2), x, v, Seq::empty());
        assert(dashed(x));
        assert(x.skip(2) == k);
        lemma_key_index_range(p2, k);
        if key_index(p2, k) >= 0 {
            assert(ps[key_index(p2, k)].0 == ps[ps.len() - 1].0);
        }
        assert(key_index(p2, k) == -1);
        assert(assoc_insert(p2, k, v) == p2.push((k, v)));
        assert(p2.push((k, v)) == ps);
    } else {
        assert(param_words(ps) == Seq::<Seq<char>>::empty());
        assert(ps =~= Seq::<(Seq<char>, Seq<char>)>::empty());
    }
}

proof fn lemma_parse_params_spaceless(words: Seq<Seq<char>>, acc: Seq<(Seq<char>, Seq<char>)>)
    requires
        forall|j: int| 0 <= j < words.len() ==> free_of(#[trigger] words[j], ' '),
        spaceless_params(acc),
    ensures
        parse_params(words, acc) matches Ok(p) ==> spaceless_params(p),
    decreases words.len(),
{
    if words.len() >= 2 && dashed(words[0]) {
        let acc2 = assoc_insert(acc, words[0].skip(2), words[1]);
        lemma_key_index_range(acc, words[0].skip(2));
        assert(free_of(words[0], ' ') && free_of(words[1], ' '));
        assert forall|i: int| 0 <= i < acc2.len() implies free_of(#[trigger] acc2[i].0, ' ') && free_of(acc2[i].1, ' ') by {
            if acc2[i] != acc[i] || i == acc.len() {
                assert(acc2[i] == (words[0].skip(2), words[1]));
            }
        }
        assert forall|j: int| 0 <= j < words.skip(2).len() implies free_of(#[trigger] words.skip(2)[j], ' ') by {
            assert(words.skip(2)[j] == words[j + 2]);
        }
        lemma_parse_params_spaceless(words.skip(2), acc2);
    }
}

proof fn lemma_call_words(h: Seq<char>, ps: Seq<(Seq<char>, Seq<char>)>)
    requires
        free_of(h, ' '),
        spaceless_params(ps),
    ensures
        split(h + params_text(ps), ' ') == seq![h] + param_words(ps),
    decreases ps.len(),
{
    reveal_strlit(" --");
    reveal_strlit(" ");
    if ps.len() == 0 {
        assert(h + params_text(ps) == h);
        lemma_split_single(h, ' ');
    } else {
        let p2 = ps.drop_last();
        let k = ps.last().0;
        let v = ps.last().1;
        assert(spaceless_params(p2)) by {
            assert forall|i: int| 0 <= i < p2.len() implies free_of(#[trigger] p2[i].0, ' ') && free_of(p2[i].1, ' ') by {
                assert(p2[i] == ps[i]);
            }
        }
        assert(free_of(ps[ps.len() - 1].0, ' ') && free_of(ps[ps.len() - 1].1, ' '));
        lemma_call_words(h, p2);
        let x = h + params_text(p2);
        let y = seq!['-', '-'] + k + seq![' '] + v;
        assert(h + params_text(ps) == x + seq![' '] + y);
        lemma_split_concat(x, y, ' ');
        lemma_split_concat(seq!['-', '-'] + k, v, ' ');
        lemma_split_single(seq!['-', '-'] + k, ' ');
        lemma_split_single(v, ' ');
        assert(split(h + params_text(ps), ' ') =~= seq![h] + param_words(ps));
    }
}

/// Writing a call back as text and reading that text again gives the same
/// call: for every call that parsing gives, parsing its written form gives
/// it back.
pub proof fn written_call_reads_back(t: Seq<char>)
    ensures
        parse_call(t) matches Ok(c) ==> parse_call(call_text(c)) == Ok::<FunctionCallView, Seq<char>>(c),
{
    reveal_strlit("@");
    reveal_strlit(".");
    reveal_strlit("this");
    if parse_call(t) is Ok {
        let c = parse_call(t)->Ok_0;
        let words = split(t.drop_first(), ' ');
        lemma_split_nonempty(t.drop_first(), ' ');
        // the words, and so the pieces of the first one, hold no space
        lemma_split_pieces_free(t.drop_first(), ' ', ' ');
        let w0 = words[0];
        assert(free_of(w0, ' '));
        lemma_split_pieces_free(w0, '.', ' ');
        lemma_split_nonempty(w0, '.');
        let parts = split(w0, '.');
        assert(free_of(c.namespace, '.') && free_of(c.namespace, ' ')) by {
            if parts.len() == 1 {
                assert(c.namespace == "this"@);
            } else {
                assert(c.namespace == parts[0]);
            }
        }
        assert(free_of(c.function, '.') && free_of(c.function, ' ')) by {
            if parts.len() == 1 {
                assert(c.function == parts[0]);
            } else {
                assert(c.function == parts[1]);
            }
        }
        assert forall|j: int| 0 <= j < words.skip(1).len() implies free_of(#[trigger] words.skip(1)[j], ' ') by {
            assert(words.skip(1)[j] == words[j + 1]);
        }
        lemma_parse_params_spaceless(words.skip(1), Seq::empty());
        lemma_parse_params_distinct(words.skip(1), Seq::empty());
        // the written form
        let h = c.namespace + seq!['.'] + c.function;
        assert forall|i: int| 0 <= i < h.len() implies h[i] != ' ' by {
            if i < c.namespace.len() {
                assert(h[i] == c.namespace[i]);
            } else if i > c.namespace.len() {
                assert(h[i] == c.function[i - c.namespace.len() - 1]);
            }
        }
        let u = call_text(c);
        assert(u.drop_first() == h + params_text(c.params));
        lemma_call_words(h, c.params);
        let ws = seq![h] + param_words(c.params);
        assert(ws[0] == h);
        assert(ws.skip(1) == param_words(c.params));
        lemma_split_concat(c.namespace, c.function, '.');
        lemma_split_single(c.namespace, '.');
        lemma_split_single(c.function, '.');
        assert(split(h, '.') =~= seq![c.namespace, c.function]);
        lemma_param_words_len(c.params);
        lemma_parse_param_words(c.params);
    }
}

} // verus!

//! Character-level text helpers shared by the parsers.
use vstd::prelude::*;

verus! {

/// The Unicode `White_Space` property, which `char::is_whitespace` and
/// `str::trim` use.
pub open spec fn is_ws(c: char) -> bool {
    let u = c as u32;
    ||| (0x09 <= u && u <= 0x0d)
    ||| u == 0x20
    ||| u == 0x85
    ||| u == 0xa0
    ||| u == 0x1680
    ||| (0x2000 <= u && u <= 0x200a)
    ||| u == 0x2028
    ||| u == 0x2029
    ||| u == 0x202f
    ||| u == 0x205f
    ||| u == 0x3000
}

/// The text without its leading white space.
pub open spec fn trim_start(s: Seq<char>) -> Seq<char>
    decreases s.len(),
{
    if s.len() > 0 && is_ws(s[0]) {
        trim_start(s.drop_first())
    } else {
        s
    }
}

/// The text without its trailing white space.
pub open spec fn trim_end(s: Seq<char>) -> Seq<char>
    decreases s.len(),
{
    if s.len() > 0 && is_ws(s.last()) {
        trim_end(s.drop_last())
    } else {
        s
    }
}

/// The text without leading and trailing white space (`str::trim`).
pub open spec fn trim(s: Seq<char>) -> Seq<char> {
    trim_end(trim_start(s))
}

/// The pieces of `s` between occurrences of `sep` (`str::split` with a
/// `char` pattern): there is always one piece more than separators.
pub open spec fn split(s: Seq<char>, sep: char) -> Seq<Seq<char>>
    decreases s.len(),
{
    if s.len() == 0 {
        seq![Seq::<char>::empty()]
    } else {
        let p = split(s.drop_last(), sep);
        if s.last() == sep {
            p.push(Seq::<char>::empty())
        } else {
            p.update(p.len() - 1, p.last().push(s.last()))
        }
    }
}

/// Appends one character to a string.
#[verifier::external_body]
pub fn string_push(s: &mut String, c: char)
    ensures
        final(s)@ == old(s)@.push(c),
{
    s.push(c);
}

/// Every character is ASCII.
pub open spec fn is_ascii_text(s: Seq<char>) -> bool {
    forall|i: int| 0 <= i < s.len() ==> (#[trigger] s[i] as u32) < 128
}

/// The lowercase of an ASCII character: `A` to `Z` become `a` to `z`.
pub open spec fn ascii_to_lower(c: char) -> char {
    if 'A' <= c && c <= 'Z' {
        ((c as u32) + 32) as char
    } else {
        c
    }
}

/// The uppercase of an ASCII character: `a` to `z` become `A` to `Z`.
pub open spec fn ascii_to_upper(c: char) -> char {
    if 'a' <= c && c <= 'z' {
        ((c as u32) - 32) as char
    } else {
        c
    }
}

/// Lowercases a string (`str::to_lowercase`, Unicode rules).
pub uninterp spec fn lowercase(s: Seq<char>) -> Seq<char>;

/// `str::to_lowercase`: the result is named by `lowercase`; an ASCII text
/// is lowercased letter by letter (`A` to `Z` become `a` to `z`, all else
/// stays), as the Unicode case mapping does for ASCII.
#[verifier::external_body]
pub fn to_lowercase(s: &str) -> (r: String)
    ensures
        r@ == lowercase(s@),
        is_ascii_text(s@) ==> r@ == s@.map_values(|c: char| ascii_to_lower(c)),
{
    s.to_lowercase()
}

/// Uppercases a string (`str::to_uppercase`, Unicode rules).
pub uninterp spec fn uppercase(s: Seq<char>) -> Seq<char>;

/// `str::to_uppercase`: the result is named by `uppercase`; an ASCII text
/// is uppercased letter by letter (`a` to `z` become `A` to `Z`, all else
/// stays), as the Unicode case mapping does for ASCII.
#[verifier::external_body]
pub fn to_uppercase(s: &str) -> (r: String)
    ensures
        r@ == uppercase(s@),
        is_ascii_text(s@) ==> r@ == s@.map_values(|c: char| ascii_to_upper(c)),
{
    s.to_uppercase()
}

/// The characters of a string.
pub fn chars_of(s: &str) -> (v: Vec<char>)
    ensures
        v@ == s@,
{
    let mut v: Vec<char> = Vec::new();
    for c in it: s.chars()
        invariant
            v@ == it.seq().take(it.index() as int),
            it.seq() == s@,
    {
        v.push(c);
    }
    v
}

/// The string made of the given characters.
pub fn string_from(v: &[char]) -> (s: String)
    ensures
        s@ == v@,
{
    let mut s = String::new();
    let mut i: usize = 0;
    while i < v.len()
        invariant
            i <= v.len(),
            s@ == v@.take(i as int),
        decreases v.len() - i,
    {
        string_push(&mut s, v[i]);
        assert(v@.take(i + 1) == v@.take(i as int).push(v@[i as int]));
        i = i + 1;
    }
    assert(v@.take(v.len() as int) == v@);
    s
}

/// `char::is_whitespace`.
pub fn is_whitespace(c: char) -> (b: bool)
    ensures
        b == is_ws(c),
{
    let u = c as u32;
    (0x09 <= u && u <= 0x0d) || u == 0x20 || u == 0x85 || u == 0xa0 || u == 0x1680 || (0x2000
        <= u && u <= 0x200a) || u == 0x2028 || u == 0x2029 || u == 0x202f || u == 0x205f || u
        == 0x3000
}

} // verus!

verus! {

proof fn lemma_trim_start_skip(s: Seq<char>, i: int)
    requires
        0 <= i <= s.len(),
        forall|j: int| 0 <= j < i ==> is_ws(#[trigger] s[j]),
    ensures
        trim_start(s) == trim_start(s.skip(i)),
    decreases i,
{
    if i > 0 {
        assert(s.skip(1) == s.drop_first());
        lemma_trim_start_skip(s.drop_first(), i - 1);
        assert(s.drop_first().skip(i - 1) == s.skip(i));
    } else {
        assert(s.skip(0) == s);
    }
}

proof fn lemma_trim_end_take(s: Seq<char>, i: int)
    requires
        0 <= i <= s.len(),
        forall|j: int| i <= j < s.len() ==> is_ws(#[trigger] s[j]),
    ensures
        trim_end(s) == trim_end(s.take(i)),
    decreases s.len() - i,
{
    if i < s.len() {
        lemma_trim_end_take(s.drop_last(), i);
        assert(s.drop_last().take(i) == s.take(i));
    } else {
        assert(s.take(i) == s);
    }
}

proof fn lemma_trim_start_first(s: Seq<char>)
    ensures
        trim_start(s).len() == 0 || !is_ws(trim_start(s)[0]),
    decreases s.len(),
{
    if s.len() > 0 && is_ws(s[0]) {
        lemma_trim_start_first(s.drop_first());
    }
}

proof fn lemma_trim_end_prefix(s: Seq<char>)
    ensures
        trim_end(s).len() <= s.len(),
        trim_end(s) == s.take(trim_end(s).len() as int),
        trim_end(s).len() == 0 || !is_ws(trim_end(s).last()),
    decreases s.len(),
{
    if s.len() > 0 && is_ws(s.last()) {
        lemma_trim_end_prefix(s.drop_last());
        let t = trim_end(s.drop_last());
        assert(s.drop_last().take(t.len() as int) == s.take(t.len() as int));
    } else {
        assert(s.take(s.len() as int) == s);
    }
}

/// Trimming twice is trimming once.
pub proof fn trim_idempotent(s: Seq<char>)
    ensures
        trim(trim(s)) == trim(s),
{
    let u = trim_start(s);
    lemma_trim_start_first(s);
    lemma_trim_end_prefix(u);
    let t = trim_end(u);
    if t.len() > 0 {
        assert(t[0] == u[0]);
    }
    assert(trim_start(t) == t);
    assert(trim_end(t) == t);
}

/// The characters of `v` without leading and trailing white space.
pub fn trim_chars(v: &[char]) -> (r: Vec<char>)
    ensures
        r@ == trim(v@),
{
    let n = v.len();
    let mut start: usize = 0;
    while start < n && is_whitespace(v[start])
        invariant
            start <= n,
            n == v@.len(),
            forall|j: int| 0 <= j < start ==> is_ws(#[trigger] v@[j]),
        decreases n - start,
    {
        start = start + 1;
    }
    proof {
        lemma_trim_start_skip(v@, start as int);
    }
    let ghost t = v@.skip(start as int);
    assert(trim_start(t) == t);
    let mut end: usize = n;
    while end > start && is_whitespace(v[end - 1])
        invariant
            start <= end <= n,
            n == v@.len(),
            t == v@.skip(start as int),
            forall|j: int| end - start <= j < t.len() ==> is_ws(#[trigger] t[j]),
        decreases end,
    {
        end = end - 1;
    }
    proof {
        lemma_trim_end_take(t, (end - start) as int);
        let u = t.take((end - start) as int);
        if u.len() > 0 {
            assert(u.last() == v@[end - 1]);
        }
        assert(trim_end(u) == u);
    }
    let mut r: Vec<char> = Vec::new();
    let mut k: usize = start;
    while k < end
        invariant
            start <= k <= end <= n,
            n == v@.len(),
            r@ == v@.subrange(start as int, k as int),
        decreases end - k,
    {
        r.push(v[k]);
        k = k + 1;
    }
    assert(r@ == t.take((end - start) as int));
    r
}

/// The pieces of `v` between occurrences of `sep`.
pub fn split_chars(v: &[char], sep: char) -> (r: Vec<Vec<char>>)
    ensures
        r.deep_view() == split(v@, sep),
{
    let mut pieces: Vec<Vec<char>> = Vec::new();
    let mut cur: Vec<char> = Vec::new();
    let mut i: usize = 0;
    while i < v.len()
        invariant
            i <= v.len(),
            split(v@.take(i as int), sep).len() == pieces@.len() + 1,
            forall|j: int|
                0 <= j < pieces@.len() ==> #[trigger] pieces@[j]@ == split(
                    v@.take(i as int),
                    sep,
                )[j],
            cur@ == split(v@.take(i as int), sep).last(),
        decreases v.len() - i,
    {
        let ghost before = split(v@.take(i as int), sep);
        assert(v@.take(i + 1).drop_last() == v@.take(i as int));
        if v[i] == sep {
            pieces.push(cur);
            cur = Vec::new();
        } else {
            cur.push(v[i]);
        }
        i = i + 1;
    }
    assert(v@.take(v.len() as int) == v@);
    pieces.push(cur);
    proof {
        let s = split(v@, sep);
        assert(pieces.deep_view().len() == s.len());
        assert forall|j: int| 0 <= j < s.len() implies pieces.deep_view()[j] == s[j] by {}
        assert(pieces.deep_view() == s);
    }
    pieces
}

} // verus!

verus! {

/// The text of an optional string.
pub open spec fn opt_view(o: Option<String>) -> Option<Seq<char>> {
    match o {
        Some(s) => Some(s@),
        None => None,
    }
}

/// The text of an optional string slice.
pub open spec fn opt_str_view(o: Option<&str>) -> Option<Seq<char>> {
    match o {
        Some(s) => Some(s@),
        None => None,
    }
}

/// The texts of an optional list of strings.
pub open spec fn opt_views(o: Option<Vec<String>>) -> Option<Seq<Seq<char>>> {
    match o {
        Some(v) => Some(v.deep_view()),
        None => None,
    }
}

/// A copy of a list of strings.
pub fn clone_strings(v: &Vec<String>) -> (r: Vec<String>)
    ensures
        r.deep_view() == v.deep_view(),
{
    let mut r: Vec<String> = Vec::new();
    let mut i: usize = 0;
    while i < v.len()
        invariant
            i <= v.len(),
            r.deep_view() == v.deep_view().take(i as int),
        decreases v.len() - i,
    {
        let ghost prev = r.deep_view();
        let c = v[i].clone();
        assert(c@ == v[i as int]@);
        r.push(c);
        assert(r.deep_view() =~= prev.push(v[i as int]@));
        assert(v.deep_view().take(i + 1) =~= v.deep_view().take(i as int).push(v[i as int]@));
        i = i + 1;
    }
    assert(v.deep_view().take(v.len() as int) == v.deep_view());
    r
}

/// A copy of an optional string.
pub fn clone_opt_string(o: &Option<String>) -> (r: Option<String>)
    ensures
        opt_view(r) == opt_view(*o),
{
    match o {
        Some(s) => Some(s.clone()),
        None => None,
    }
}

/// A copy of an optional list of strings.
pub fn clone_opt_strings(o: &Option<Vec<String>>) -> (r: Option<Vec<String>>)
    ensures
        opt_views(r) == opt_views(*o),
{
    match o {
        Some(v) => Some(clone_strings(v)),
        None => None,
    }
}

/// The string slice of an optional string.
pub fn opt_str(o: &Option<String>) -> (r: Option<&str>)
    ensures
        match (r, opt_view(*o)) {
            (Some(s), Some(t)) => s@ == t,
            (None, None) => true,
            _ => false,
        },
{
    match o {
        Some(s) => Some(s.as_str()),
        None => None,
    }
}

} // verus!

verus! {

/// The decimal digits of `n`, most significant first, without leading zeros
/// ("0" for zero).
pub open spec fn decimal_text(n: nat) -> Seq<char>
    decreases n,
{
    if n < 10 {
        seq![(('0' as u32) + n) as char]
    } else {
        decimal_text(n / 10).push((('0' as u32) + (n % 10)) as char)
    }
}

fn digit_char(d: u128) -> (c: char)
    requires
        d < 10,
    ensures
        c == (('0' as u32) + d) as char,
{
    ((d as u8) + 48) as char
}

/// The decimal digits of `n`.
pub fn decimal_string(n: u128) -> (s: String)
    ensures
        s@ == decimal_text(n as nat),
    decreases n,
{
    if n < 10 {
        let mut s = String::new();
        string_push(&mut s, digit_char(n));
        assert(s@ =~= decimal_text(n as nat));
        s
    } else {
        let mut s = decimal_string(n / 10);
        string_push(&mut s, digit_char(n % 10));
        s
    }
}

} // verus!

verus! {

/// The value that `str::parse` reads for an unsigned type whose largest
/// value is `max`: an optional `+` and at least one decimal digit, with a
/// value of at most `max`.
pub open spec fn unsigned_value(s: Seq<char>, max: nat) -> Option<nat> {
    let d = if s.len() > 0 && s[0] == '+' {
        s.drop_first()
    } else {
        s
    };
    if d.len() > 0 && crate::model::param_validator::all_digits(d) && 0
        <= crate::model::param_validator::decimal(d) <= max {
        Some(crate::model::param_validator::decimal(d) as nat)
    } else {
        None
    }
}

/// What `str::parse::<usize>` reads.
pub open spec fn usize_value(s: Seq<char>) -> Option<nat> {
    unsigned_value(s, usize::MAX as nat)
}

proof fn lemma_decimal_nonneg(d: Seq<char>)
    requires
        crate::model::param_validator::all_digits(d),
    ensures
        crate::model::param_validator::decimal(d) >= 0,
    decreases d.len(),
{
    if d.len() > 0 {
        assert(crate::model::param_validator::all_digits(d.drop_last())) by {
            assert forall|i: int| 0 <= i < d.len() - 1 implies crate::model::param_validator::is_digit(
                #[trigger] d.drop_last()[i],
            ) by {
                assert(d.drop_last()[i] == d[i]);
            }
        }
        lemma_decimal_nonneg(d.drop_last());
        assert(crate::model::param_validator::is_digit(d.last()));
    }
}

/// `str::parse` for an unsigned type whose largest value is `max`, keeping
/// only whether it succeeded and the value.
pub fn parse_unsigned(s: &str, max: u64) -> (r: Option<u64>)
    ensures
        match unsigned_value(s@, max as nat) {
            Some(v) => r == Some(v as u64),
            None => r is None,
        },
{
    let v = chars_of(s);
    let start: usize = if v.len() > 0 && v[0] == '+' {
        1
    } else {
        0
    };
    let ghost d = if s@.len() > 0 && s@[0] == '+' {
        s@.drop_first()
    } else {
        s@
    };
    assert(d == v@.skip(start as int));
    if start == v.len() {
        return None;
    }
    let mut acc: u64 = 0;
    let mut i: usize = start;
    while i < v.len()
        invariant
            start <= i <= v.len(),
            v@ == s@,
            d == (if s@.len() > 0 && s@[0] == '+' {
                s@.drop_first()
            } else {
                s@
            }),
            d == v@.skip(start as int),
            acc <= max,
            crate::model::param_validator::all_digits(v@.subrange(start as int, i as int)),
            acc as int == crate::model::param_validator::decimal(v@.subrange(start as int, i as int)),
        decreases v.len() - i,
    {
        let c = v[i];
        assert(v@.subrange(start as int, i + 1).drop_last() == v@.subrange(start as int, i as int));
        if !('0' <= c && c <= '9') {
            assert(!crate::model::param_validator::is_digit(d[i - start]));
            return None;
        }
        let digit = (c as u32 - '0' as u32) as u64;
        if max < digit || acc > (max - digit) / 10 {
            proof {
                assert(acc * 10 + digit > max) by (nonlinear_arith)
                    requires
                        max < digit || acc > (max - digit) / 10,
                        digit <= 9,
                ;
                assert(d.take(i + 1 - start) == v@.subrange(start as int, i + 1));
                if crate::model::param_validator::all_digits(d) {
                    lemma_decimal_prefix_grows(d, i + 1 - start);
                }
            }
            return None;
        }
        assert(acc * 10 + digit <= max) by (nonlinear_arith)
            requires
                acc <= (max - digit) / 10,
                digit <= 9,
                digit <= max,
        ;
        acc = acc * 10 + digit;
        i = i + 1;
    }
    assert(v@.subrange(start as int, v.len() as int) == d);
    Some(acc)
}

/// `str::parse::<usize>`, keeping only whether it succeeded and the value.
pub fn parse_usize(s: &str) -> (r: Option<usize>)
    ensures
        match usize_value(s@) {
            Some(v) => r == Some(v as usize),
            None => r is None,
        },
{
    match parse_unsigned(s, usize::MAX as u64) {
        Some(v) => Some(v as usize),
        None => None,
    }
}

/// What `str::parse::<u64>` reads.
pub open spec fn u64_value(s: Seq<char>) -> Option<nat> {
    unsigned_value(s, u64::MAX as nat)
}

/// `str::parse::<u64>`, keeping only whether it succeeded and the value.
pub fn parse_u64(s: &str) -> (r: Option<u64>)
    ensures
        match u64_value(s@) {
            Some(v) => r == Some(v as u64),
            None => r is None,
        },
{
    parse_unsigned(s, u64::MAX)
}

/// A longer string of digits is worth at least as much as its prefix.
proof fn lemma_decimal_prefix_grows(d: Seq<char>, k: int)
    requires
        0 <= k <= d.len(),
        crate::model::param_validator::all_digits(d),
    ensures
        crate::model::param_validator::decimal(d.take(k)) <= crate::model::param_validator::decimal(d),
    decreases d.len() - k,
{
    if k < d.len() {
        lemma_decimal_prefix_grows(d, k + 1);
        assert(d.take(k + 1).drop_last() == d.take(k));
        assert(crate::model::param_validator::all_digits(d.take(k))) by {
            assert forall|i: int| 0 <= i < k implies crate::model::param_validator::is_digit(
                #[trigger] d.take(k)[i],
            ) by {
                assert(d.take(k)[i] == d[i]);
            }
        }
        lemma_decimal_nonneg(d.take(k));
        assert(crate::model::param_validator::is_digit(d[k]));
    } else {
        assert(d.take(k) == d);
    }
}

} // verus!

verus! {

/// The result is an error with message `m`.
/// Whether a result succeeded, or the text of its error.
pub open spec fn outcome_of<T>(r: Result<T, String>) -> Result<(), Seq<char>> {
    match r {
        Ok(_) => Ok(()),
        Err(e) => Err(e@),
    }
}

pub open spec fn is_err_with<T>(r: Result<T, String>, m: Seq<char>) -> bool {
    match r {
        Err(e) => e@ == m,
        Ok(_) => false,
    }
}

} // verus!

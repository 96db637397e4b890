//! Validation rules of task parameters (environment variables).
use vstd::prelude::*;
use vstd::string::*;

use crate::text::{chars_of, split, split_chars, string_from, trim, trim_chars};

verus! {

/// How the value of a parameter is checked.
#[derive(Debug, PartialEq, Clone)]
pub enum ParamValidator {
    /// Integer or float.
    Number,
    Integer,
    /// `true` or `false`.
    Bool,
    /// One of the listed values.
    Variants(Vec<String>),
}

/// The value a [ParamValidator] stands for.
pub enum ParamValidatorView {
    Number,
    Integer,
    Bool,
    Variants(Seq<Seq<char>>),
}

impl View for ParamValidator {
    type V = ParamValidatorView;

    open spec fn view(&self) -> ParamValidatorView {
        match self {
            ParamValidator::Number => ParamValidatorView::Number,
            ParamValidator::Integer => ParamValidatorView::Integer,
            ParamValidator::Bool => ParamValidatorView::Bool,
            ParamValidator::Variants(v) => ParamValidatorView::Variants(v.deep_view()),
        }
    }
}

pub open spec fn is_digit(c: char) -> bool {
    '0' <= c && c <= '9'
}

pub open spec fn all_digits(s: Seq<char>) -> bool {
    forall|i: int| 0 <= i < s.len() ==> is_digit(#[trigger] s[i])
}

pub open spec fn is_sign(c: char) -> bool {
    c == '+' || c == '-'
}

/// `s` without one leading `+` or `-`.
pub open spec fn unsigned_part(s: Seq<char>) -> Seq<char> {
    if s.len() > 0 && is_sign(s[0]) {
        s.drop_first()
    } else {
        s
    }
}

/// ASCII lowercase of one character.
pub open spec fn lower(c: char) -> char {
    if 'A' <= c && c <= 'Z' {
        ((c as u32) + 32) as char
    } else {
        c
    }
}

/// `s` equals the lowercase word `w` in any ASCII case.
pub open spec fn eq_nocase(s: Seq<char>, w: Seq<char>) -> bool {
    s.len() == w.len() && forall|i: int| 0 <= i < s.len() ==> lower(#[trigger] s[i]) == w[i]
}

/// Where the first `e` or `E` stands in `t` (its length when there is none).
pub open spec fn exp_start(t: Seq<char>) -> int
    decreases t.len(),
{
    if t.len() == 0 {
        0
    } else if exp_start(t.drop_last()) < t.len() - 1 {
        exp_start(t.drop_last())
    } else if lower(t.last()) == 'e' {
        t.len() - 1
    } else {
        t.len() as int
    }
}

/// Where the first `.` stands in `m`, or -1.
pub open spec fn dot_index(m: Seq<char>) -> int
    decreases m.len(),
{
    if m.len() == 0 {
        -1
    } else if dot_index(m.drop_last()) >= 0 {
        dot_index(m.drop_last())
    } else if m.last() == '.' {
        m.len() - 1
    } else {
        -1
    }
}

/// `Digit+ | Digit+ '.' Digit* | Digit* '.' Digit+`.
pub open spec fn is_mantissa(m: Seq<char>) -> bool {
    let d = dot_index(m);
    if d < 0 {
        m.len() > 0 && all_digits(m)
    } else {
        m.len() >= 2 && all_digits(m.take(d)) && all_digits(m.skip(d + 1))
    }
}

/// Empty, or `e` (either case), an optional sign and at least one digit.
pub open spec fn is_exponent(x: Seq<char>) -> bool {
    x.len() == 0 || (x.len() >= 2 && lower(x[0]) == 'e' && unsigned_part(x.drop_first()).len() > 0
        && all_digits(unsigned_part(x.drop_first())))
}

/// The grammar that `f64::from_str` accepts (case-insensitively):
/// `Sign? ( 'inf' | 'infinity' | 'nan' | Number )` with
/// `Number ::= Mantissa Exp?`.
pub open spec fn is_float_text(s: Seq<char>) -> bool {
    let t = unsigned_part(s);
    ||| eq_nocase(t, seq!['i', 'n', 'f'])
    ||| eq_nocase(t, seq!['i', 'n', 'f', 'i', 'n', 'i', 't', 'y'])
    ||| eq_nocase(t, seq!['n', 'a', 'n'])
    ||| (is_mantissa(t.take(exp_start(t))) && is_exponent(t.skip(exp_start(t))))
}

/// What `str::parse::<i64>` reports for text that is not an `i64`.
pub uninterp spec fn i64_parse_error(s: Seq<char>) -> Seq<char>;

/// The decimal value of a string of digits.
pub open spec fn decimal(d: Seq<char>) -> int
    decreases d.len(),
{
    if d.len() == 0 {
        0
    } else {
        decimal(d.drop_last()) * 10 + (d.last() as int - '0' as int)
    }
}

/// Text that `i64::from_str` accepts: an optional sign and at least one
/// decimal digit, whose value fits in an `i64`.
pub open spec fn is_i64_text(s: Seq<char>) -> bool {
    let d = unsigned_part(s);
    let v = if s.len() > 0 && s[0] == '-' {
        -decimal(d)
    } else {
        decimal(d)
    };
    d.len() > 0 && all_digits(d) && i64::MIN <= v && v <= i64::MAX
}

/// `str::parse::<i64>` with the error shown as text: `Ok` exactly for an
/// optional sign followed by decimal digits whose value fits in an `i64`.
#[verifier::external_body]
fn parse_i64(s: &str) -> (r: Result<(), String>)
    ensures
        r is Ok <==> is_i64_text(s@),
        r matches Err(e) ==> e@ == i64_parse_error(s@),
{
    match s.parse::<i64>() {
        Ok(_) => Ok(()),
        Err(e) => Err(e.to_string()),
    }
}

/// The `{:?}` rendering of a list of strings.
pub uninterp spec fn debug_strings(v: Seq<Seq<char>>) -> Seq<char>;

/// `format!("{:?}", v)` of a list of strings.
#[verifier::external_body]
fn debug_list(v: &Vec<String>) -> (r: String)
    ensures
        r@ == debug_strings(v.deep_view()),
{
    format!("{:?}", v)
}

/// What [ParamValidator::validate] answers for `value`.
pub open spec fn validation(p: ParamValidatorView, value: Seq<char>) -> Result<(), Seq<char>> {
    match p {
        ParamValidatorView::Integer => if is_i64_text(value) {
            Ok(())
        } else {
            Err(i64_parse_error(value))
        },
        ParamValidatorView::Number => if is_float_text(value) {
            Ok(())
        } else if value.len() == 0 {
            Err("cannot parse float from empty string"@)
        } else {
            Err("invalid float literal"@)
        },
        ParamValidatorView::Bool => if value == "true"@ || value == "false"@ {
            Ok(())
        } else {
            Err(msg_not_bool())
        },
        ParamValidatorView::Variants(v) => if v.contains(value) {
            Ok(())
        } else {
            Err(value + " not in options"@ + debug_strings(v))
        },
    }
}

/// The message for a value that is no `bool`.
pub open spec fn msg_not_bool() -> Seq<char> {
    "provided string was not `true` or `false`"@
}

/// The list that follows a `variants` or `enum` keyword: `(a|b|...)` with
/// white space around it; `err` where it is not in brackets.
pub open spec fn listed_variants(rest: Seq<char>, err: Seq<char>) -> Result<ParamValidatorView, Seq<char>> {
    let x = trim(rest);
    if x.len() >= 2 && x[0] == '(' && x.last() == ')' {
        Ok(ParamValidatorView::Variants(variant_list(split(x.subrange(1, x.len() - 1), '|'))))
    } else {
        Err(err)
    }
}

/// The validator that a `validator:` entry of a bakefile names: `integer`
/// (`int`), `number` (`num`, `float`), `bool`, or a list of values written
/// `variants(a|b|...)` or `enum(a|b|...)`.
pub open spec fn parse_validator(s: Seq<char>) -> Result<ParamValidatorView, Seq<char>> {
    if s == "integer"@ || s == "int"@ {
        Ok(ParamValidatorView::Integer)
    } else if s == "number"@ || s == "num"@ || s == "float"@ {
        Ok(ParamValidatorView::Number)
    } else if s == "bool"@ {
        Ok(ParamValidatorView::Bool)
    } else if "variants"@.is_prefix_of(s) {
        listed_variants(s.skip(8), "invalid validation::variants"@)
    } else if "enum"@.is_prefix_of(s) {
        listed_variants(s.skip(4), "invalid validation::enum"@)
    } else {
        Err("invalid validation"@)
    }
}

/// The trimmed, non-empty pieces, in order.
pub open spec fn variant_list(pieces: Seq<Seq<char>>) -> Seq<Seq<char>>
    decreases pieces.len(),
{
    if pieces.len() == 0 {
        Seq::empty()
    } else if trim(pieces.last()).len() == 0 {
        variant_list(pieces.drop_last())
    } else {
        variant_list(pieces.drop_last()).push(trim(pieces.last()))
    }
}

fn digits_only(v: &Vec<char>, from: usize, to: usize) -> (r: bool)
    requires
        from <= to <= v.len(),
    ensures
        r == all_digits(v@.subrange(from as int, to as int)),
{
    let mut i = from;
    while i < to
        invariant
            from <= i <= to <= v.len(),
            forall|j: int| from <= j < i ==> is_digit(#[trigger] v@[j]),
        decreases to - i,
    {
        if !('0' <= v[i] && v[i] <= '9') {
            assert(!is_digit(v@.subrange(from as int, to as int)[i - from]));
            return false;
        }
        i = i + 1;
    }
    assert forall|j: int| 0 <= j < to - from implies is_digit(
        #[trigger] v@.subrange(from as int, to as int)[j],
    ) by {
        assert(v@.subrange(from as int, to as int)[j] == v@[from + j]);
    }
    true
}

fn lower_char(c: char) -> (r: char)
    ensures
        r == lower(c),
{
    if 'A' <= c && c <= 'Z' {
        (((c as u32) + 32) as u8) as char
    } else {
        c
    }
}

fn equals_nocase(v: &Vec<char>, from: usize, w: &Vec<char>) -> (r: bool)
    requires
        from <= v.len(),
    ensures
        r == eq_nocase(v@.skip(from as int), w@),
{
    if v.len() - from != w.len() {
        return false;
    }
    let mut i: usize = 0;
    while i < w.len()
        invariant
            i <= w.len(),
            v.len() - from == w.len(),
            from <= v.len(),
            forall|j: int| 0 <= j < i ==> lower(#[trigger] v@.skip(from as int)[j]) == w@[j],
        decreases w.len() - i,
    {
        if lower_char(v[from + i]) != w[i] {
            assert(lower(v@.skip(from as int)[i as int]) != w@[i as int]);
            return false;
        }
        i = i + 1;
    }
    true
}

proof fn lemma_exp_start(t: Seq<char>)
    ensures
        0 <= exp_start(t) <= t.len(),
        exp_start(t) < t.len() ==> lower(t[exp_start(t)]) == 'e',
        forall|j: int| 0 <= j < exp_start(t) ==> lower(#[trigger] t[j]) != 'e',
    decreases t.len(),
{
    if t.len() > 0 {
        lemma_exp_start(t.drop_last());
        assert forall|j: int| 0 <= j < t.len() - 1 implies #[trigger] t[j] == t.drop_last()[j] by {}
    }
}

proof fn lemma_dot_index(m: Seq<char>)
    ensures
        -1 <= dot_index(m) < m.len(),
        dot_index(m) >= 0 ==> m[dot_index(m)] == '.',
        forall|j: int| 0 <= j < m.len() && (dot_index(m) < 0 || j < dot_index(m)) ==> #[trigger] m[j] != '.',
    decreases m.len(),
{
    if m.len() > 0 {
        lemma_dot_index(m.drop_last());
        assert forall|j: int| 0 <= j < m.len() - 1 implies #[trigger] m[j] == m.drop_last()[j] by {}
    }
}

fn exp_index(v: &Vec<char>, from: usize) -> (e: usize)
    requires
        from <= v.len(),
    ensures
        from <= e <= v.len(),
        e - from == exp_start(v@.skip(from as int)),
{
    let ghost t = v@.skip(from as int);
    let mut e: usize = from;
    while e < v.len() && lower_char(v[e]) != 'e'
        invariant
            from <= e <= v.len(),
            t == v@.skip(from as int),
            forall|j: int| from <= j < e ==> lower(#[trigger] v@[j]) != 'e',
        decreases v.len() - e,
    {
        e = e + 1;
    }
    proof {
        lemma_exp_start(t);
        if exp_start(t) < e - from {
            assert(lower(v@[from + exp_start(t)]) != 'e');
        }
        if e - from < exp_start(t) {
            assert(lower(t[e - from]) != 'e');
        }
    }
    e
}

fn mantissa_ok(v: &Vec<char>, from: usize, to: usize) -> (r: bool)
    requires
        from <= to <= v.len(),
    ensures
        r == is_mantissa(v@.subrange(from as int, to as int)),
{
    let ghost m = v@.subrange(from as int, to as int);
    let mut d: usize = from;
    while d < to && v[d] != '.'
        invariant
            from <= d <= to <= v.len(),
            forall|j: int| from <= j < d ==> #[trigger] v@[j] != '.',
        decreases to - d,
    {
        d = d + 1;
    }
    proof {
        lemma_dot_index(m);
        if dot_index(m) >= 0 && dot_index(m) < d - from {
            assert(v@[from + dot_index(m)] == '.');
        }
        if d < to && (dot_index(m) < 0 || d - from < dot_index(m)) {
            assert(m[d - from] == '.');
        }
    }
    if d == to {
        assert(dot_index(m) < 0);
        to > from && digits_only(v, from, to)
    } else {
        assert(dot_index(m) == d - from);
        assert(m.take(d - from) == v@.subrange(from as int, d as int));
        assert(m.skip(d - from + 1) == v@.subrange(d + 1, to as int));
        to - from >= 2 && digits_only(v, from, d) && digits_only(v, d + 1, to)
    }
}

fn exponent_ok(v: &Vec<char>, e: usize) -> (r: bool)
    requires
        e <= v.len(),
    ensures
        r == is_exponent(v@.skip(e as int)),
{
    let ghost x = v@.skip(e as int);
    if e == v.len() {
        true
    } else if v.len() - e >= 2 && lower_char(v[e]) == 'e' {
        let s2: usize = if v[e + 1] == '+' || v[e + 1] == '-' {
            e + 2
        } else {
            e + 1
        };
        assert(unsigned_part(x.drop_first()) == v@.skip(s2 as int));
        assert(v@.skip(s2 as int) == v@.subrange(s2 as int, v.len() as int));
        s2 < v.len() && digits_only(v, s2, v.len())
    } else {
        false
    }
}

/// Text that `f64::from_str` accepts.
fn float_text(v: &Vec<char>) -> (r: bool)
    ensures
        r == is_float_text(v@),
{
    let start: usize = if v.len() > 0 && (v[0] == '+' || v[0] == '-') {
        1
    } else {
        0
    };
    let ghost t = unsigned_part(v@);
    assert(t == v@.skip(start as int));
    if equals_nocase(v, start, &vec!['i', 'n', 'f']) || equals_nocase(
        v,
        start,
        &vec!['i', 'n', 'f', 'i', 'n', 'i', 't', 'y'],
    ) || equals_nocase(v, start, &vec!['n', 'a', 'n']) {
        return true;
    }
    let e = exp_index(v, start);
    assert(t.take(exp_start(t)) == v@.subrange(start as int, e as int));
    assert(t.skip(exp_start(t)) == v@.skip(e as int));
    mantissa_ok(v, start, e) && exponent_ok(v, e)
}

fn variants_from(x: &Vec<char>) -> (r: Vec<String>)
    requires
        x.len() >= 2,
    ensures
        r.deep_view() == variant_list(split(x@.subrange(1, x.len() - 1), '|')),
{
    let mut inner: Vec<char> = Vec::new();
    let mut k: usize = 1;
    while k < x.len() - 1
        invariant
            1 <= k <= x.len() - 1,
            inner@ == x@.subrange(1, k as int),
        decreases x.len() - 1 - k,
    {
        inner.push(x[k]);
        k = k + 1;
    }
    let pieces = split_chars(inner.as_slice(), '|');
    let ghost ps = pieces.deep_view();
    let mut r: Vec<String> = Vec::new();
    let mut i: usize = 0;
    while i < pieces.len()
        invariant
            i <= pieces.len(),
            ps == pieces.deep_view(),
            r.deep_view() == variant_list(ps.take(i as int)),
        decreases pieces.len() - i,
    {
        assert(ps.take(i + 1).drop_last() == ps.take(i as int));
        assert(ps[i as int] == pieces[i as int]@);
        let t = trim_chars(pieces[i].as_slice());
        if t.len() > 0 {
            r.push(string_from(t.as_slice()));
            assert(r.deep_view() =~= variant_list(ps.take(i + 1)));
        }
        i = i + 1;
    }
    assert(ps.take(ps.len() as int) == ps);
    r
}

fn list_contains(v: &Vec<String>, value: &str) -> (r: bool)
    ensures
        r == v.deep_view().contains(value@),
{
    let target = value.to_owned();
    let mut i: usize = 0;
    while i < v.len()
        invariant
            i <= v.len(),
            target@ == value@,
            forall|j: int| 0 <= j < i ==> v.deep_view()[j] != value@,
        decreases v.len() - i,
    {
        if v[i] == target {
            assert(v.deep_view()[i as int] == value@);
            return true;
        }
        i = i + 1;
    }
    false
}

impl ParamValidator {
    /// Checks `value` against the rule.
    pub fn validate(&self, value: &str) -> (r: Result<(), String>)
        ensures
            match (r, validation(self@, value@)) {
                (Ok(()), Ok(())) => true,
                (Err(e), Err(m)) => e@ == m,
                _ => false,
            },
    {
        match self {
            ParamValidator::Integer => parse_i64(value),
            ParamValidator::Number => {
                let v = chars_of(value);
                if float_text(&v) {
                    Ok(())
                } else if v.len() == 0 {
                    Err(String::from_str("cannot parse float from empty string"))
                } else {
                    Err(String::from_str("invalid float literal"))
                }
            },
            ParamValidator::Bool => {
                proof {
                    reveal_strlit("true");
                    reveal_strlit("false");
                }
                let v = chars_of(value);
                let t = vec!['t', 'r', 'u', 'e'];
                let f = vec!['f', 'a', 'l', 's', 'e'];
                assert("true"@ =~= t@);
                assert("false"@ =~= f@);
                if chars_equal(&v, &t) || chars_equal(&v, &f) {
                    Ok(())
                } else {
                    Err(String::from_str("provided string was not `true` or `false`"))
                }
            },
            ParamValidator::Variants(variants) => {
                if list_contains(variants, value) {
                    Ok(())
                } else {
                    let mut e = value.to_owned();
                    e.append(" not in options");
                    e.append(debug_list(variants).as_str());
                    Err(e)
                }
            },
        }
    }

    /// Reads a `validator:` entry: `integer`/`int`, `number`/`num`/`float`,
    /// `bool`, or `variants(a|b|...)`/`enum(a|b|...)`.
    pub fn try_from(value: &str) -> (r: Result<ParamValidator, String>)
        ensures
            match (r, parse_validator(value@)) {
                (Ok(p), Ok(q)) => p@ == q,
                (Err(e), Err(m)) => e@ == m,
                _ => false,
            },
    {
        let v = chars_of(value);
        proof {
            reveal_strlit("integer");
            reveal_strlit("int");
            reveal_strlit("number");
            reveal_strlit("num");
            reveal_strlit("float");
            reveal_strlit("bool");
            reveal_strlit("variants");
            reveal_strlit("enum");
        }
        let w_integer = vec!['i', 'n', 't', 'e', 'g', 'e', 'r'];
        let w_int = vec!['i', 'n', 't'];
        let w_number = vec!['n', 'u', 'm', 'b', 'e', 'r'];
        let w_num = vec!['n', 'u', 'm'];
        let w_float = vec!['f', 'l', 'o', 'a', 't'];
        let w_bool = vec!['b', 'o', 'o', 'l'];
        assert("integer"@ =~= w_integer@);
        assert("int"@ =~= w_int@);
        assert("number"@ =~= w_number@);
        assert("num"@ =~= w_num@);
        assert("float"@ =~= w_float@);
        assert("bool"@ =~= w_bool@);
        if chars_equal(&v, &w_integer) || chars_equal(&v, &w_int) {
            return Ok(ParamValidator::Integer);
        }
        if chars_equal(&v, &w_number) || chars_equal(&v, &w_num) || chars_equal(&v, &w_float) {
            return Ok(ParamValidator::Number);
        }
        if chars_equal(&v, &w_bool) {
            return Ok(ParamValidator::Bool);
        }
        let w_variants = vec!['v', 'a', 'r', 'i', 'a', 'n', 't', 's'];
        assert("variants"@ =~= w_variants@);
        if v.len() >= 8 && chars_equal(&piece(&v, 0, 8), &w_variants) {
            assert("variants"@.is_prefix_of(v@)) by {
                assert(v@.subrange(0, 8) =~= "variants"@);
            }
            return variant_list_after(&v, 8, String::from_str("invalid validation::variants"));
        }
        assert(!("variants"@.is_prefix_of(v@))) by {
            if v@.len() >= 8 {
                assert(v@.subrange(0, 8) != w_variants@);
            }
        }
        let w_enum = vec!['e', 'n', 'u', 'm'];
        assert("enum"@ =~= w_enum@);
        if v.len() >= 4 && chars_equal(&piece(&v, 0, 4), &w_enum) {
            assert("enum"@.is_prefix_of(v@)) by {
                assert(v@.subrange(0, 4) =~= "enum"@);
            }
            return variant_list_after(&v, 4, String::from_str("invalid validation::enum"));
        }
        assert(!("enum"@.is_prefix_of(v@))) by {
            if v@.len() >= 4 {
                assert(v@.subrange(0, 4) != w_enum@);
            }
        }
        Err(String::from_str("invalid validation"))
    }
}

/// The list of values written after a keyword ending at `from`.
fn variant_list_after(v: &Vec<char>, from: usize, err: String) -> (r: Result<ParamValidator, String>)
    requires
        from <= v.len(),
    ensures
        match (r, listed_variants(v@.skip(from as int), err@)) {
            (Ok(p), Ok(q)) => p@ == q,
            (Err(e), Err(m)) => e@ == m,
            _ => false,
        },
{
    let rest = piece(v, from, v.len());
    assert(rest@ == v@.skip(from as int));
    let x = trim_chars(rest.as_slice());
    if x.len() >= 2 && x[0] == '(' && x[x.len() - 1] == ')' {
        Ok(ParamValidator::Variants(variants_from(&x)))
    } else {
        Err(err)
    }
}

fn piece(v: &Vec<char>, from: usize, to: usize) -> (r: Vec<char>)
    requires
        from <= to <= v.len(),
    ensures
        r@ == v@.subrange(from as int, to as int),
{
    let mut r: Vec<char> = Vec::new();
    let mut k: usize = from;
    while k < to
        invariant
            from <= k <= to <= v.len(),
            r@ == v@.subrange(from as int, k as int),
        decreases to - k,
    {
        r.push(v[k]);
        k = k + 1;
    }
    r
}

fn chars_equal(a: &Vec<char>, b: &Vec<char>) -> (r: bool)
    ensures
        r == (a@ == b@),
{
    if a.len() != b.len() {
        return false;
    }
    let mut i: usize = 0;
    while i < a.len()
        invariant
            i <= a.len(),
            a.len() == b.len(),
            forall|j: int| 0 <= j < i ==> a@[j] == b@[j],
        decreases a.len() - i,
    {
        if a[i] != b[i] {
            return false;
        }
        i = i + 1;
    }
    assert(a@ =~= b@);
    true
}

} // verus!

verus! {

/// Text that holds no `e`, in either case, has no exponent part.
proof fn lemma_no_exponent(t: Seq<char>)
    requires
        forall|j: int| 0 <= j < t.len() ==> lower(#[trigger] t[j]) != 'e',
    ensures
        exp_start(t) == t.len(),
        t.take(exp_start(t)) == t,
        is_exponent(t.skip(exp_start(t))),
{
    lemma_exp_start(t);
    assert(t.take(t.len() as int) == t);
    assert(t.skip(t.len() as int).len() == 0);
}

/// Every integer written in decimal digits, with or without a sign, however
/// long, passes the `number` rule.
pub proof fn decimal_integers_are_numbers(s: Seq<char>)
    requires
        unsigned_part(s).len() > 0,
        all_digits(unsigned_part(s)),
    ensures
        validation(ParamValidatorView::Number, s) == Ok::<(), Seq<char>>(()),
{
    let t = unsigned_part(s);
    assert forall|j: int| 0 <= j < t.len() implies lower(#[trigger] t[j]) != 'e' by {
        assert(is_digit(t[j]));
    }
    lemma_no_exponent(t);
    lemma_dot_index(t);
    if dot_index(t) >= 0 {
        assert(is_digit(t[dot_index(t)]));
    }
    assert(is_mantissa(t.take(exp_start(t))));
}

/// Digits, a point and digits (at least one digit in all) pass the `number`
/// rule.
pub proof fn decimal_fractions_are_numbers(a: Seq<char>, b: Seq<char>)
    requires
        all_digits(a),
        all_digits(b),
        a.len() + b.len() > 0,
    ensures
        validation(ParamValidatorView::Number, a + seq!['.'] + b) == Ok::<(), Seq<char>>(()),
{
    let t = a + seq!['.'] + b;
    assert(t[a.len() as int] == '.');
    if a.len() > 0 {
        assert(is_digit(a[0]));
        assert(t[0] == a[0]);
    }
    assert(unsigned_part(t) == t);
    assert forall|j: int| 0 <= j < t.len() implies lower(#[trigger] t[j]) != 'e' by {
        if j < a.len() {
            assert(t[j] == a[j]);
            assert(is_digit(a[j]));
        } else if j > a.len() {
            assert(t[j] == b[j - a.len() - 1]);
            assert(is_digit(b[j - a.len() - 1]));
        }
    }
    lemma_no_exponent(t);
    lemma_dot_index(t);
    let d = dot_index(t);
    if d >= 0 && d < a.len() {
        assert(t[d] == a[d]);
        assert(is_digit(a[d]));
    }
    if d < 0 || d > a.len() {
        assert(t[a.len() as int] != '.');
    }
    assert(d == a.len());
    assert(t.take(d) =~= a);
    assert(t.skip(d + 1) =~= b);
    assert(is_mantissa(t.take(exp_start(t))));
}

/// Digits, an `e` and digits (each part at least one digit) pass the
/// `number` rule.
pub proof fn scientific_integers_are_numbers(a: Seq<char>, b: Seq<char>)
    requires
        all_digits(a),
        all_digits(b),
        a.len() > 0,
        b.len() > 0,
    ensures
        validation(ParamValidatorView::Number, a + seq!['e'] + b) == Ok::<(), Seq<char>>(()),
{
    let t = a + seq!['e'] + b;
    assert(is_digit(a[0]));
    assert(t[0] == a[0]);
    assert(unsigned_part(t) == t);
    assert(t[a.len() as int] == 'e');
    lemma_exp_start(t);
    let x = exp_start(t);
    if x < a.len() {
        assert(t[x] == a[x]);
        assert(is_digit(a[x]));
    }
    if x > a.len() {
        assert(lower(t[a.len() as int]) != 'e');
    }
    assert(x == a.len());
    assert(t.take(x) =~= a);
    let m = t.take(x);
    lemma_dot_index(m);
    if dot_index(m) >= 0 {
        assert(is_digit(a[dot_index(m)]));
    }
    let rest = t.skip(x);
    assert(rest.drop_first() =~= b);
    assert(is_digit(b[0]));
    assert(unsigned_part(rest.drop_first()) == b);
    assert(is_exponent(rest));
}

/// The empty text is not a number.
pub proof fn empty_text_is_no_number()
    ensures
        validation(ParamValidatorView::Number, Seq::<char>::empty()) == Err::<(), Seq<char>>(
            "cannot parse float from empty string"@,
        ),
{
    let t = unsigned_part(Seq::<char>::empty());
    assert(t.len() == 0);
    lemma_exp_start(t);
    lemma_dot_index(t.take(exp_start(t)));
    assert(!is_mantissa(t.take(exp_start(t))));
}

} // verus!


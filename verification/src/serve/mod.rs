//! Pure parts of `bake serve`: request decoding, HTTP basic auth and the
//! pages of the web app.
use vstd::prelude::*;
use vstd::string::*;
use vstd::utf8::{decode_utf8, encode_utf8, encode_utf8_decode_utf8, valid_utf8};

pub mod request;
pub mod mcp;
pub mod pages;
pub mod route;

verus! {

/// `u8::is_ascii_whitespace`: space, tab, line feed, form feed, carriage return.
pub open spec fn is_ascii_ws(b: u8) -> bool {
    b == 0x20 || b == 0x09 || b == 0x0a || b == 0x0c || b == 0x0d
}

/// The bytes without ASCII white space.
pub open spec fn strip_ascii_ws(b: Seq<u8>) -> Seq<u8>
    decreases b.len(),
{
    if b.len() == 0 {
        b
    } else if is_ascii_ws(b.last()) {
        strip_ascii_ws(b.drop_last())
    } else {
        strip_ascii_ws(b.drop_last()).push(b.last())
    }
}

/// The value of a character of the standard base64 alphabet.
pub open spec fn b64_value(b: u8) -> Option<int> {
    if 0x41 <= b && b <= 0x5a {
        Some(b - 0x41)
    } else if 0x61 <= b && b <= 0x7a {
        Some(b - 0x61 + 26)
    } else if 0x30 <= b && b <= 0x39 {
        Some(b - 0x30 + 52)
    } else if b == 0x2b {
        Some(62)
    } else if b == 0x2f {
        Some(63)
    } else {
        None
    }
}

/// How many characters of a four-character group come before the first `=`.
pub open spec fn data_len(c: Seq<u8>) -> int {
    if c[0] == 0x3d {
        0
    } else if c[1] == 0x3d {
        1
    } else if c[2] == 0x3d {
        2
    } else if c[3] == 0x3d {
        3
    } else {
        4
    }
}

/// The sextet at position `i` of a group (0 where it is not a base64 character).
pub open spec fn sextet(c: Seq<u8>, i: int) -> int {
    match b64_value(c[i]) {
        Some(v) => v,
        None => 0,
    }
}

/// The bytes that one four-character group stands for: two, three or four
/// base64 characters followed by `=` padding up to four.
pub open spec fn b64_group(c: Seq<u8>) -> Option<Seq<u8>> {
    let n = data_len(c);
    if n < 2 || exists|i: int| 0 <= i < n && b64_value(#[trigger] c[i]) is None || exists|i: int|
        n <= i < 4 && #[trigger] c[i] != 0x3d {
        None
    } else {
        let v0 = sextet(c, 0);
        let v1 = sextet(c, 1);
        let v2 = sextet(c, 2);
        let v3 = sextet(c, 3);
        let b0 = (v0 * 4 + v1 / 16) as u8;
        let b1 = ((v1 % 16) * 16 + v2 / 4) as u8;
        let b2 = ((v2 % 4) * 64 + v3) as u8;
        if n == 2 {
            Some(seq![b0])
        } else if n == 3 {
            Some(seq![b0, b1])
        } else {
            Some(seq![b0, b1, b2])
        }
    }
}

/// The bytes that a sequence of four-character groups stands for.
pub open spec fn b64_groups(b: Seq<u8>) -> Option<Seq<u8>>
    decreases b.len(),
{
    if b.len() < 4 {
        Some(Seq::empty())
    } else {
        match (b64_groups(b.take(b.len() - 4)), b64_group(b.skip(b.len() - 4))) {
            (Some(x), Some(y)) => Some(x + y),
            _ => None,
        }
    }
}

/// Standard base64 with `=` padding; ASCII white space anywhere is ignored.
pub open spec fn base64(input: Seq<u8>) -> Option<Seq<u8>> {
    let f = strip_ascii_ws(input);
    if f.len() % 4 != 0 {
        None
    } else {
        b64_groups(f)
    }
}

fn is_ascii_whitespace(b: u8) -> (r: bool)
    ensures
        r == is_ascii_ws(b),
{
    b == 0x20 || b == 0x09 || b == 0x0a || b == 0x0c || b == 0x0d
}

fn b64_val(b: u8) -> (r: Option<u8>)
    ensures
        match r {
            Some(v) => b64_value(b) == Some(v as int) && v < 64,
            None => b64_value(b) is None,
        },
{
    if 0x41 <= b && b <= 0x5a {
        Some(b - 0x41)
    } else if 0x61 <= b && b <= 0x7a {
        Some(b - 0x61 + 26)
    } else if 0x30 <= b && b <= 0x39 {
        Some(b - 0x30 + 52)
    } else if b == 0x2b {
        Some(62)
    } else if b == 0x2f {
        Some(63)
    } else {
        None
    }
}

fn decode_group(c: &Vec<u8>, k: usize, out: &mut Vec<u8>) -> (ok: bool)
    requires
        k + 4 <= c.len(),
    ensures
        match b64_group(c@.subrange(k as int, k + 4)) {
            Some(y) => ok && final(out)@ == old(out)@ + y,
            None => !ok,
        },
{
    let ghost g = c@.subrange(k as int, k + 4);
    let mut vals: [u8; 4] = [0, 0, 0, 0];
    let mut n: usize = 0;
    while n < 4 && c[k + n] != 0x3d
        invariant
            n <= 4,
            k + 4 <= c.len(),
            g == c@.subrange(k as int, k + 4),
            forall|j: int| 0 <= j < n ==> g[j] != 0x3d,
            forall|j: int| 0 <= j < n ==> b64_value(g[j]) == Some(vals@[j] as int),
            forall|j: int| 0 <= j < 4 ==> vals@[j] < 64,
            forall|j: int| n <= j < 4 ==> vals@[j] == 0,
        decreases 4 - n,
    {
        match b64_val(c[k + n]) {
            Some(v) => {
                vals[n] = v;
            },
            None => {
                assert(b64_value(g[n as int]) is None);
                return false;
            },
        }
        n = n + 1;
    }
    assert(n == data_len(g));
    let mut m: usize = n;
    while m < 4
        invariant
            n <= m <= 4,
            n == data_len(g),
            k + 4 <= c.len(),
            g == c@.subrange(k as int, k + 4),
            forall|j: int| n <= j < m ==> g[j] == 0x3d,
        decreases 4 - m,
    {
        if c[k + m] != 0x3d {
            assert(g[m as int] != 0x3d);
            return false;
        }
        m = m + 1;
    }
    if n < 2 {
        return false;
    }
    assert(forall|j: int| 0 <= j < 4 ==> sextet(g, j) == vals@[j]);
    let v0 = vals[0] as u32;
    let v1 = vals[1] as u32;
    let v2 = vals[2] as u32;
    let v3 = vals[3] as u32;
    let b0 = (v0 * 4 + v1 / 16) as u8;
    let b1 = ((v1 % 16) * 16 + v2 / 4) as u8;
    let b2 = ((v2 % 4) * 64 + v3) as u8;
    out.push(b0);
    if n >= 3 {
        out.push(b1);
    }
    if n == 4 {
        out.push(b2);
    }
    true
}

/// Decodes standard base64 (`=` padded); ASCII white space is skipped.
#[verifier::spinoff_prover]
#[verifier::rlimit(40)]
pub fn base64_decode(input: &str) -> (r: Option<Vec<u8>>)
    ensures
        match r {
            Some(v) => base64(input.spec_bytes()) == Some(v@),
            None => base64(input.spec_bytes()) is None,
        },
{
    let bytes = input.as_bytes();
    let mut f: Vec<u8> = Vec::new();
    let mut i: usize = 0;
    while i < bytes.len()
        invariant
            i <= bytes@.len(),
            bytes@ == input.spec_bytes(),
            f@ == strip_ascii_ws(bytes@.take(i as int)),
        decreases bytes.len() - i,
    {
        assert(bytes@.take(i + 1).drop_last() == bytes@.take(i as int));
        if !is_ascii_whitespace(bytes[i]) {
            f.push(bytes[i]);
        }
        i = i + 1;
    }
    assert(bytes@.take(bytes@.len() as int) == bytes@);
    if f.len() % 4 != 0 {
        return None;
    }
    let mut out: Vec<u8> = Vec::new();
    let mut k: usize = 0;
    while k < f.len()
        invariant
            k <= f.len(),
            k % 4 == 0,
            f.len() % 4 == 0,
            f@ == strip_ascii_ws(input.spec_bytes()),
            b64_groups(f@.take(k as int)) == Some(out@),
        decreases f.len() - k,
    {
        let ghost pre = f@.take(k + 4);
        assert(pre.take(pre.len() - 4) == f@.take(k as int));
        assert(pre.skip(pre.len() - 4) == f@.subrange(k as int, k + 4));
        if !decode_group(&f, k, &mut out) {
            assert(b64_groups(f@.take(k + 4)) is None);
            proof {
                lemma_b64_groups_none_extends(f@, k + 4);
            }
            assert(f@.take(f@.len() as int) == f@);
            return None;
        }
        k = k + 4;
    }
    assert(f@.take(f@.len() as int) == f@);
    Some(out)
}

proof fn lemma_b64_groups_none_extends(f: Seq<u8>, k: int)
    requires
        0 <= k <= f.len(),
        k % 4 == 0,
        f.len() % 4 == 0,
        b64_groups(f.take(k)) is None,
    ensures
        b64_groups(f) is None,
    decreases f.len() - k,
{
    if k < f.len() {
        let pre = f.take(k + 4);
        assert(pre.take(pre.len() - 4) == f.take(k));
        lemma_b64_groups_none_extends(f, k + 4);
    } else {
        assert(f.take(k) == f);
    }
}

/// Compares two strings without stopping at the first difference.
pub fn constant_time_eq(a: &str, b: &str) -> (r: bool)
    ensures
        r == (a@ == b@),
{
    let x = a.as_bytes();
    let y = b.as_bytes();
    let lx = x.len();
    let ly = y.len();
    let mut diff: usize = lx ^ ly;
    let n = if lx < ly {
        lx
    } else {
        ly
    };
    assert(diff == 0 <==> lx == ly) by (bit_vector)
        requires
            diff == lx ^ ly,
    ;
    let mut i: usize = 0;
    while i < n
        invariant
            i <= n,
            n <= x@.len(),
            n <= y@.len(),
            n == x@.len() || n == y@.len(),
            (diff == 0) <==> (x@.len() == y@.len() && forall|j: int|
                0 <= j < i ==> x@[j] == y@[j]),
        decreases n - i,
    {
        let xi = x[i];
        let yi = y[i];
        let d = (xi ^ yi) as usize;
        let old_diff = diff;
        assert(d == 0 <==> xi == yi) by (bit_vector)
            requires
                d == (xi ^ yi) as usize,
        ;
        diff = diff | d;
        assert(diff == 0 <==> (old_diff == 0 && d == 0)) by (bit_vector)
            requires
                diff == old_diff | d,
        ;
        i = i + 1;
    }
    proof {
        if diff == 0 {
            assert(x@ =~= y@);
        }
        encode_utf8_decode_utf8(a@);
        encode_utf8_decode_utf8(b@);
    }
    diff == 0
}

} // verus!

verus! {

/// What `String::from_utf8_lossy` makes of some bytes.
pub uninterp spec fn utf8_lossy(b: Seq<u8>) -> Seq<char>;

/// The text that lossy decoding gives: valid UTF-8 decodes as it is, other
/// bytes as `String::from_utf8_lossy` makes of them.
pub open spec fn lossy_text(b: Seq<u8>) -> Seq<char> {
    if valid_utf8(b) {
        decode_utf8(b)
    } else {
        utf8_lossy(b)
    }
}

/// Every byte is ASCII.
pub open spec fn is_ascii_bytes(b: Seq<u8>) -> bool {
    forall|i: int| 0 <= i < b.len() ==> #[trigger] b[i] < 128
}

/// The characters of ASCII bytes, one per byte.
pub open spec fn ascii_chars(b: Seq<u8>) -> Seq<char> {
    b.map_values(|x: u8| x as char)
}

/// ASCII bytes are valid UTF-8, and they decode to one character per byte.
pub proof fn ascii_text_decodes_as_is(b: Seq<u8>)
    requires
        is_ascii_bytes(b),
    ensures
        valid_utf8(b),
        decode_utf8(b) == ascii_chars(b),
        lossy_text(b) == ascii_chars(b),
{
    let chars = ascii_chars(b);
    assert forall|i: int| 0 <= i < chars.len() implies '\0' <= #[trigger] chars[i] <= '\u{7f}' by {
        let x = b[i];
        assert(x < 128);
        assert((x as char) as u32 == x as u32);
    }
    vstd::utf8::is_ascii_chars_encode_utf8(chars);
    assert forall|i: int| 0 <= i < b.len() implies vstd::utf8::encode_utf8(chars)[i] == b[i] by {
        let x = b[i];
        assert(chars[i] == x as char);
        assert((x as char) as u8 == x);
    }
    assert(vstd::utf8::encode_utf8(chars) =~= b);
    vstd::utf8::encode_utf8_valid_utf8(chars);
    encode_utf8_decode_utf8(chars);
}

/// `String::from_utf8_lossy`: invalid sequences become U+FFFD; valid UTF-8
/// is decoded as it is.
#[verifier::external_body]
pub(crate) fn string_from_utf8_lossy(v: &[u8]) -> (r: String)
    ensures
        r@ == utf8_lossy(v@),
        valid_utf8(v@) ==> r@ == decode_utf8(v@),
{
    String::from_utf8_lossy(v).into_owned()
}

/// The value of an ASCII hex digit (either case).
pub open spec fn hex_digit(b: u8) -> Option<int> {
    if 0x30 <= b && b <= 0x39 {
        Some(b - 0x30)
    } else if 0x61 <= b && b <= 0x66 {
        Some(b - 0x61 + 10)
    } else if 0x41 <= b && b <= 0x46 {
        Some(b - 0x41 + 10)
    } else {
        None
    }
}

/// `u8::from_str_radix(_, 16)` on the two-byte text `x y`: two hex digits,
/// or `+` and one hex digit.
pub open spec fn hex_pair(x: u8, y: u8) -> Option<u8> {
    if x == 0x2b {
        match hex_digit(y) {
            Some(v) => Some(v as u8),
            None => None,
        }
    } else {
        match (hex_digit(x), hex_digit(y)) {
            (Some(a), Some(b)) => Some((a * 16 + b) as u8),
            _ => None,
        }
    }
}

/// A byte that continues a multi-byte UTF-8 character.
pub open spec fn is_continuation(b: u8) -> bool {
    0x80 <= b && b < 0xc0
}

pub open spec fn prepend(x: u8, rest: Option<Seq<u8>>) -> Option<Seq<u8>> {
    match rest {
        Some(r) => Some(seq![x] + r),
        None => None,
    }
}

/// Percent-decoding of `b` from position `i`: `%` and two hex digits stand for
/// a byte, a `%` that does not start such a triple stays, and `+` stands for a
/// space when `plus` holds. `None` where the three bytes after a `%` would cut a
/// character in two, which the decoder does not take.
pub open spec fn pct_from(b: Seq<u8>, plus: bool, i: int) -> Option<Seq<u8>>
    decreases b.len() - i,
{
    if i < 0 || i >= b.len() {
        Some(Seq::empty())
    } else if b[i] == 0x25 && i + 2 < b.len() {
        if i + 3 < b.len() && is_continuation(b[i + 3]) {
            None
        } else {
            match hex_pair(b[i + 1], b[i + 2]) {
                Some(v) => prepend(v, pct_from(b, plus, i + 3)),
                None => prepend(0x25, pct_from(b, plus, i + 1)),
            }
        }
    } else if b[i] == 0x2b && plus {
        prepend(0x20, pct_from(b, plus, i + 1))
    } else {
        prepend(b[i], pct_from(b, plus, i + 1))
    }
}

/// The decoded bytes of `s` (see [pct_from]).
pub open spec fn pct_bytes(s: Seq<char>, plus: bool) -> Option<Seq<u8>> {
    pct_from(encode_utf8(s), plus, 0)
}

/// The text that `percent_decode` gives back for `s`.
pub open spec fn pct_text(s: Seq<char>, plus: bool) -> Seq<char> {
    lossy_text(pct_bytes(s, plus).unwrap())
}

fn hex_val(b: u8) -> (r: Option<u8>)
    ensures
        match r {
            Some(v) => hex_digit(b) == Some(v as int) && v < 16,
            None => hex_digit(b) is None,
        },
{
    if 0x30 <= b && b <= 0x39 {
        Some(b - 0x30)
    } else if 0x61 <= b && b <= 0x66 {
        Some(b - 0x61 + 10)
    } else if 0x41 <= b && b <= 0x46 {
        Some(b - 0x41 + 10)
    } else {
        None
    }
}

fn hex_pair_exec(x: u8, y: u8) -> (r: Option<u8>)
    ensures
        r == hex_pair(x, y),
{
    if x == 0x2b {
        match hex_val(y) {
            Some(v) => Some(v),
            None => None,
        }
    } else {
        match (hex_val(x), hex_val(y)) {
            (Some(a), Some(b)) => Some(a * 16 + b),
            _ => None,
        }
    }
}

/// The percent-decoded bytes of `input`, or `None` where the decoder would
/// have to cut a character in two.
fn pct_decode_bytes(input: &str, plus_as_space: bool) -> (r: Option<Vec<u8>>)
    ensures
        match r {
            Some(v) => pct_bytes(input@, plus_as_space) == Some(v@),
            None => pct_bytes(input@, plus_as_space) is None,
        },
{
    let b = input.as_bytes();
    let ghost bs = b@;
    assert(bs == encode_utf8(input@));
    let n = b.len();
    let mut out: Vec<u8> = Vec::new();
    let mut i: usize = 0;
    while i < n
        invariant
            i <= n,
            n == bs.len(),
            b@ == bs,
            bs == encode_utf8(input@),
            pct_from(bs, plus_as_space, 0) == match pct_from(bs, plus_as_space, i as int) {
                Some(r) => Some(out@ + r),
                None => None,
            },
        decreases n - i,
    {
        let c = b[i];
        if c == 0x25 && n - i > 2 {
            if n - i > 3 && b[i + 3] >= 0x80 && b[i + 3] < 0xc0 {
                return None;
            }
            match hex_pair_exec(b[i + 1], b[i + 2]) {
                Some(v) => {
                    proof {
                        assert(out@ + (seq![v] + pct_from(bs, plus_as_space, i + 3).unwrap()) == out@.push(v) + pct_from(bs, plus_as_space, i + 3).unwrap());
                    }
                    out.push(v);
                    i = i + 3;
                },
                None => {
                    proof {
                        if pct_from(bs, plus_as_space, i + 1) is Some {
                            assert(out@ + (seq![0x25u8] + pct_from(bs, plus_as_space, i + 1).unwrap()) == out@.push(0x25u8) + pct_from(bs, plus_as_space, i + 1).unwrap());
                        }
                    }
                    out.push(0x25);
                    i = i + 1;
                },
            }
        } else {
            let d = if c == 0x2b && plus_as_space {
                0x20
            } else {
                c
            };
            proof {
                if pct_from(bs, plus_as_space, i + 1) is Some {
                    assert(out@ + (seq![d] + pct_from(bs, plus_as_space, i + 1).unwrap()) == out@.push(d) + pct_from(bs, plus_as_space, i + 1).unwrap());
                }
            }
            out.push(d);
            i = i + 1;
        }
    }
    assert(out@ + Seq::<u8>::empty() == out@);
    Some(out)
}

/// The decoder takes `input` (no `%` triple cuts a character in two).
pub fn percent_decodable(input: &str, plus_as_space: bool) -> (r: bool)
    ensures
        r == pct_bytes(input@, plus_as_space) is Some,
{
    pct_decode_bytes(input, plus_as_space).is_some()
}

/// Decodes `%XX` escapes (and `+` as space when asked) of a URL component;
/// bytes that are not UTF-8 become U+FFFD.
pub fn percent_decode(input: &str, plus_as_space: bool) -> (r: String)
    requires
        pct_bytes(input@, plus_as_space) is Some,
    ensures
        r@ == pct_text(input@, plus_as_space),
{
    match pct_decode_bytes(input, plus_as_space) {
        Some(v) => string_from_utf8_lossy(v.as_slice()),
        None => String::new(),
    }
}

} // verus!

verus! {

/// What one character becomes in HTML text or attribute values.
pub open spec fn escape_char(c: char) -> Seq<char> {
    if c == '&' {
        seq!['&', 'a', 'm', 'p', ';']
    } else if c == '<' {
        seq!['&', 'l', 't', ';']
    } else if c == '>' {
        seq!['&', 'g', 't', ';']
    } else if c == '"' {
        seq!['&', 'q', 'u', 'o', 't', ';']
    } else {
        seq![c]
    }
}

/// `s` with `&`, `<`, `>` and `"` replaced by their entities.
pub open spec fn html_escaped(s: Seq<char>) -> Seq<char>
    decreases s.len(),
{
    if s.len() == 0 {
        s
    } else {
        html_escaped(s.drop_last()) + escape_char(s.last())
    }
}

/// Escapes `&`, `<`, `>` and `"` for HTML.
pub fn html_escape(s: &str) -> (r: String)
    ensures
        r@ == html_escaped(s@),
{
    let v = crate::text::chars_of(s);
    let mut r = String::new();
    let mut i: usize = 0;
    while i < v.len()
        invariant
            i <= v.len(),
            r@ == html_escaped(v@.take(i as int)),
        decreases v.len() - i,
    {
        let c = v[i];
        proof {
            reveal_strlit("&amp;");
            reveal_strlit("&lt;");
            reveal_strlit("&gt;");
            reveal_strlit("&quot;");
        }
        assert(v@.take(i + 1).drop_last() == v@.take(i as int));
        if c == '&' {
            r.append("&amp;");
        } else if c == '<' {
            r.append("&lt;");
        } else if c == '>' {
            r.append("&gt;");
        } else if c == '"' {
            r.append("&quot;");
        } else {
            crate::text::string_push(&mut r, c);
        }
        i = i + 1;
    }
    assert(v@.take(v.len() as int) == v@);
    r
}

/// Where `c` first occurs in `s`, or -1.
pub open spec fn first_index(s: Seq<char>, c: char) -> int
    decreases s.len(),
{
    if s.len() == 0 {
        -1
    } else if first_index(s.drop_last(), c) >= 0 {
        first_index(s.drop_last(), c)
    } else if s.last() == c {
        s.len() - 1
    } else {
        -1
    }
}

pub(crate) proof fn lemma_first_index(s: Seq<char>, c: char)
    ensures
        -1 <= first_index(s, c) < s.len(),
        first_index(s, c) >= 0 ==> s[first_index(s, c)] == c,
        forall|j: int| 0 <= j < s.len() && (first_index(s, c) < 0 || j < first_index(s, c)) ==> s[j] != c,
    decreases s.len(),
{
    if s.len() > 0 {
        lemma_first_index(s.drop_last(), c);
        assert forall|j: int| 0 <= j < s.len() - 1 implies #[trigger] s[j] == s.drop_last()[j] by {}
    }
}

/// Finds the first `c` in `v`.
pub(crate) fn find_char(v: &Vec<char>, c: char) -> (r: Option<usize>)
    ensures
        match r {
            Some(i) => i as int == first_index(v@, c) && i < v.len(),
            None => first_index(v@, c) == -1,
        },
{
    let mut i: usize = 0;
    while i < v.len()
        invariant
            i <= v.len(),
            forall|j: int| 0 <= j < i ==> v@[j] != c,
        decreases v.len() - i,
    {
        if v[i] == c {
            proof {
                lemma_first_index(v@, c);
            }
            return Some(i);
        }
        i = i + 1;
    }
    proof {
        lemma_first_index(v@, c);
    }
    None
}

/// The characters `v[from..to]`.
pub(crate) fn sub_chars(v: &Vec<char>, from: usize, to: usize) -> (r: Vec<char>)
    requires
        from <= to <= v.len(),
    ensures
        r@ == v@.subrange(from as int, to as int),
{
    let mut r: Vec<char> = Vec::new();
    let mut k: usize = from;
    while k < to
        invariant
            from <= k <= to <= v.len(),
            r@ == v@.subrange(from as int, k as int),
        decreases to - k,
    {
        r.push(v[k]);
        k = k + 1;
    }
    r
}

/// The name of a `name=value` pair (all of it when there is no `=`).
pub open spec fn pair_name(p: Seq<char>) -> Seq<char> {
    let i = first_index(p, '=');
    if i < 0 {
        p
    } else {
        p.take(i)
    }
}

/// The value of a `name=value` pair (empty when there is no `=`).
pub open spec fn pair_value(p: Seq<char>) -> Seq<char> {
    let i = first_index(p, '=');
    if i < 0 {
        Seq::empty()
    } else {
        p.skip(i + 1)
    }
}

/// Every non-empty `&`-separated pair of `ps` can be decoded.
pub open spec fn pairs_decodable(ps: Seq<Seq<char>>) -> bool {
    forall|k: int|
        0 <= k < ps.len() ==> pct_bytes(pair_name(#[trigger] ps[k]), true) is Some && pct_bytes(
            pair_value(ps[k]),
            true,
        ) is Some
}

/// The decoded pairs of the non-empty pieces of `ps`, in order.
pub open spec fn url_pairs(ps: Seq<Seq<char>>) -> Seq<(Seq<char>, Seq<char>)>
    decreases ps.len(),
{
    if ps.len() == 0 {
        Seq::empty()
    } else if ps.last().len() == 0 {
        url_pairs(ps.drop_last())
    } else {
        url_pairs(ps.drop_last()).push(
            (pct_text(pair_name(ps.last()), true), pct_text(pair_value(ps.last()), true)),
        )
    }
}

/// `application/x-www-form-urlencoded` text can be decoded.
pub open spec fn urlencoded_decodable(s: Seq<char>) -> bool {
    pairs_decodable(crate::text::split(s, '&'))
}

/// Whether [parse_urlencoded] can decode `input`.
pub fn urlencoded_is_decodable(input: &str) -> (r: bool)
    ensures
        r == urlencoded_decodable(input@),
{
    let v = crate::text::chars_of(input);
    let pieces = crate::text::split_chars(v.as_slice(), '&');
    let ghost ps = pieces.deep_view();
    let mut i: usize = 0;
    while i < pieces.len()
        invariant
            i <= pieces.len(),
            ps == pieces.deep_view(),
            ps == crate::text::split(input@, '&'),
            forall|k: int|
                0 <= k < i ==> pct_bytes(pair_name(#[trigger] ps[k]), true) is Some && pct_bytes(
                    pair_value(ps[k]),
                    true,
                ) is Some,
        decreases pieces.len() - i,
    {
        let p = &pieces[i];
        assert(ps[i as int] == p@);
        let (name, value) = match find_char(p, '=') {
            Some(e) => (sub_chars(p, 0, e), sub_chars(p, e + 1, p.len())),
            None => (sub_chars(p, 0, p.len()), Vec::new()),
        };
        assert(name@ == pair_name(p@));
        assert(value@ == pair_value(p@));
        let ns = crate::text::string_from(name.as_slice());
        let vs = crate::text::string_from(value.as_slice());
        if !percent_decodable(ns.as_str(), true) || !percent_decodable(vs.as_str(), true) {
            return false;
        }
        i = i + 1;
    }
    true
}

/// Decodes `a=1&b=x+y` into its pairs, in order; empty pieces are skipped
/// and a piece without `=` has an empty value.
pub fn parse_urlencoded(input: &str) -> (r: Vec<(String, String)>)
    requires
        urlencoded_decodable(input@),
    ensures
        r.deep_view() == url_pairs(crate::text::split(input@, '&')),
{
    let v = crate::text::chars_of(input);
    let pieces = crate::text::split_chars(v.as_slice(), '&');
    let ghost ps = pieces.deep_view();
    let mut r: Vec<(String, String)> = Vec::new();
    let mut i: usize = 0;
    while i < pieces.len()
        invariant
            i <= pieces.len(),
            ps == pieces.deep_view(),
            pairs_decodable(ps),
            r.deep_view() == url_pairs(ps.take(i as int)),
        decreases pieces.len() - i,
    {
        let p = &pieces[i];
        assert(ps[i as int] == p@);
        assert(ps.take(i + 1).drop_last() == ps.take(i as int));
        if p.len() > 0 {
            let (name, value) = match find_char(p, '=') {
                Some(e) => (sub_chars(p, 0, e), sub_chars(p, e + 1, p.len())),
                None => (sub_chars(p, 0, p.len()), Vec::new()),
            };
            assert(name@ == pair_name(p@));
            assert(value@ == pair_value(p@));
            let ns = crate::text::string_from(name.as_slice());
            let vs = crate::text::string_from(value.as_slice());
            let dn = percent_decode(ns.as_str(), true);
            let dv = percent_decode(vs.as_str(), true);
            r.push((dn, dv));
            assert(r.deep_view() =~= url_pairs(ps.take(i + 1)));
        }
        i = i + 1;
    }
    assert(ps.take(ps.len() as int) == ps);
    r
}

/// The header value starts with the `Basic ` (or `basic `) scheme.
pub open spec fn has_basic_scheme(v: Seq<char>) -> bool {
    v.len() >= 6 && (v[0] == 'B' || v[0] == 'b') && v[1] == 'a' && v[2] == 's' && v[3] == 'i'
        && v[4] == 'c' && v[5] == ' '
}

/// What follows the first `:` (all of it when there is none).
pub open spec fn after_colon(s: Seq<char>) -> Seq<char> {
    let i = first_index(s, ':');
    if i < 0 {
        s
    } else {
        s.skip(i + 1)
    }
}

/// An `Authorization` header value grants access with `password`: after the
/// optional `Basic ` scheme it is base64 of `user:password` (or of the
/// password alone); the user name does not matter.
pub open spec fn auth_matches(header: Seq<char>, password: Seq<char>) -> bool {
    let v = crate::text::trim(header);
    let e = if has_basic_scheme(v) {
        v.skip(6)
    } else {
        v
    };
    match base64(encode_utf8(e)) {
        None => false,
        Some(d) => after_colon(lossy_text(d)) == password,
    }
}

/// HTTP basic auth check of an `Authorization` header value.
pub fn basic_auth_matches(header_value: &str, password: &str) -> (r: bool)
    ensures
        r == auth_matches(header_value@, password@),
{
    let v = crate::text::trim_chars(crate::text::chars_of(header_value).as_slice());
    let e = if v.len() >= 6 && (v[0] == 'B' || v[0] == 'b') && v[1] == 'a' && v[2] == 's' && v[3]
        == 'i' && v[4] == 'c' && v[5] == ' ' {
        sub_chars(&v, 6, v.len())
    } else {
        sub_chars(&v, 0, v.len())
    };
    assert(v@.subrange(0, v@.len() as int) == v@);
    assert(v@.subrange(6, v@.len() as int) == v@.skip(6));
    let encoded = crate::text::string_from(e.as_slice());
    let decoded = match base64_decode(encoded.as_str()) {
        Some(d) => d,
        None => {
            return false;
        },
    };
    let given = string_from_utf8_lossy(decoded.as_slice());
    let g = crate::text::chars_of(given.as_str());
    let rest = match find_char(&g, ':') {
        Some(k) => sub_chars(&g, k + 1, g.len()),
        None => sub_chars(&g, 0, g.len()),
    };
    assert(g@.subrange(0, g@.len() as int) == g@);
    let rs = crate::text::string_from(rest.as_slice());
    constant_time_eq(rs.as_str(), password)
}

/// ASCII lowercase of one character.
pub open spec fn ascii_lower(c: char) -> char {
    if 'A' <= c && c <= 'Z' {
        ((c as u32) + 32) as char
    } else {
        c
    }
}

/// The header name is `Accept` in any ASCII case.
pub open spec fn is_accept(name: Seq<char>) -> bool {
    name.len() == 6 && ascii_lower(name[0]) == 'a' && ascii_lower(name[1]) == 'c' && ascii_lower(
        name[2],
    ) == 'c' && ascii_lower(name[3]) == 'e' && ascii_lower(name[4]) == 'p' && ascii_lower(name[5])
        == 't'
}

/// `text/html` occurs in `s`.
pub open spec fn has_text_html(s: Seq<char>) -> bool {
    exists|k: int|
        0 <= k && k + 9 <= s.len() && #[trigger] s.subrange(k, k + 9) == seq![
            't',
            'e',
            'x',
            't',
            '/',
            'h',
            't',
            'm',
            'l',
        ]
}

/// Some `Accept` header asks for `text/html` (compared in lowercase).
pub open spec fn accepts_html(headers: Seq<(Seq<char>, Seq<char>)>) -> bool {
    exists|i: int|
        0 <= i < headers.len() && is_accept(#[trigger] headers[i].0) && has_text_html(
            crate::text::lowercase(headers[i].1),
        )
}

pub(crate) fn lower(c: char) -> (r: char)
    ensures
        r == ascii_lower(c),
{
    if 'A' <= c && c <= 'Z' {
        (((c as u32) + 32) as u8) as char
    } else {
        c
    }
}

fn contains_text_html(s: &Vec<char>) -> (r: bool)
    ensures
        r == has_text_html(s@),
{
    let pat = vec!['t', 'e', 'x', 't', '/', 'h', 't', 'm', 'l'];
    let mut k: usize = 0;
    while s.len() >= 9 && k <= s.len() - 9
        invariant
            pat@ == seq!['t', 'e', 'x', 't', '/', 'h', 't', 'm', 'l'],
            forall|j: int| 0 <= j < k ==> #[trigger] s@.subrange(j, j + 9) != pat@,
        decreases s.len() - k,
    {
        let mut m: usize = 0;
        while m < 9 && s[k + m] == pat[m]
            invariant
                m <= 9,
                k + 9 <= s.len(),
                pat@.len() == 9,
                forall|j: int| 0 <= j < m ==> s@[k + j] == pat@[j],
            decreases 9 - m,
        {
            m = m + 1;
        }
        if m == 9 {
            assert(s@.subrange(k as int, k + 9) =~= pat@);
            return true;
        }
        assert(s@.subrange(k as int, k + 9)[m as int] != pat@[m as int]);
        k = k + 1;
    }
    assert forall|j: int| 0 <= j && j + 9 <= s@.len() implies #[trigger] s@.subrange(j, j + 9)
        != pat@ by {
        assert(j < k);
    }
    false
}

/// Some `Accept` header of the request asks for HTML.
pub fn wants_html(headers: &[(String, String)]) -> (r: bool)
    ensures
        r == accepts_html(headers.deep_view()),
{
    let mut i: usize = 0;
    while i < headers.len()
        invariant
            i <= headers.len(),
            forall|j: int|
                0 <= j < i ==> !(is_accept(#[trigger] headers.deep_view()[j].0) && has_text_html(
                    crate::text::lowercase(headers.deep_view()[j].1),
                )),
        decreases headers.len() - i,
    {
        let name = crate::text::chars_of(headers[i].0.as_str());
        assert(headers.deep_view()[i as int].0 == name@);
        let is_acc = name.len() == 6 && lower(name[0]) == 'a' && lower(name[1]) == 'c' && lower(
            name[2],
        ) == 'c' && lower(name[3]) == 'e' && lower(name[4]) == 'p' && lower(name[5]) == 't';
        if is_acc {
            let low = crate::text::to_lowercase(headers[i].1.as_str());
            let lv = crate::text::chars_of(low.as_str());
            if contains_text_html(&lv) {
                return true;
            }
        }
        i = i + 1;
    }
    false
}

/// The reason phrase of an HTTP status.
pub fn reason(status: u16) -> (r: &'static str)
    ensures
        r@ == (if status == 200 {
            "OK"@
        } else if status == 400 {
            "Bad Request"@
        } else if status == 404 {
            "Not Found"@
        } else if status == 405 {
            "Method Not Allowed"@
        } else if status == 500 {
            "Internal Server Error"@
        } else {
            "OK"@
        }),
{
    match status {
        200 => "OK",
        400 => "Bad Request",
        404 => "Not Found",
        405 => "Method Not Allowed",
        500 => "Internal Server Error",
        _ => "OK",
    }
}

} // verus!

verus! {

/// A command as the JSON of a task shows it: a shell command as it is, a
/// call as `@namespace.function --key value ...`.
pub open spec fn command_text(c: crate::model::command::CommandView) -> Seq<char> {
    match c {
        crate::model::command::CommandView::ShellCommand(s) => s,
        crate::model::command::CommandView::FunctionCall(f) => crate::model::function_call::call_text(f),
    }
}

/// Writes a command back as text.
pub fn command_string(command: &crate::model::command::Command) -> (r: String)
    ensures
        r@ == command_text(command@),
{
    match command {
        crate::model::command::Command::ShellCommand(cmd) => cmd.clone(),
        crate::model::command::Command::FunctionCall(fc) => fc.to_command_string(),
    }
}

} // verus!

verus! {

proof fn lemma_strip_no_ws(b: Seq<u8>)
    ensures
        forall|i: int| 0 <= i < strip_ascii_ws(b).len() ==> !is_ascii_ws(#[trigger] strip_ascii_ws(b)[i]),
    decreases b.len(),
{
    if b.len() > 0 {
        lemma_strip_no_ws(b.drop_last());
        let p = strip_ascii_ws(b.drop_last());
        if !is_ascii_ws(b.last()) {
            assert forall|i: int| 0 <= i < p.push(b.last()).len() implies !is_ascii_ws(#[trigger] p.push(b.last())[i]) by {
                if i < p.len() {
                    assert(p.push(b.last())[i] == p[i]);
                }
            }
        }
    }
}

proof fn lemma_strip_idempotent(b: Seq<u8>)
    requires
        forall|i: int| 0 <= i < b.len() ==> !is_ascii_ws(#[trigger] b[i]),
    ensures
        strip_ascii_ws(b) == b,
    decreases b.len(),
{
    if b.len() > 0 {
        lemma_strip_idempotent(b.drop_last());
        assert(!is_ascii_ws(b[b.len() - 1]));
        assert(b.drop_last().push(b.last()) == b);
    }
}

/// Base64 decoding ignores ASCII white space: the input decodes as it does
/// with all white space taken out.
pub proof fn base64_ignores_whitespace(input: Seq<u8>)
    ensures
        base64(input) == base64(strip_ascii_ws(input)),
{
    lemma_strip_no_ws(input);
    lemma_strip_idempotent(strip_ascii_ws(input));
}

/// HTML-escaped text holds no `<`, `>` or `"`, so it cannot open a tag or
/// leave an attribute value.
pub proof fn html_escaped_is_inert(s: Seq<char>)
    ensures
        forall|i: int|
            0 <= i < html_escaped(s).len() ==> #[trigger] html_escaped(s)[i] != '<'
                && html_escaped(s)[i] != '>' && html_escaped(s)[i] != '"',
    decreases s.len(),
{
    if s.len() > 0 {
        html_escaped_is_inert(s.drop_last());
        let a = html_escaped(s.drop_last());
        let e = escape_char(s.last());
        assert forall|i: int| 0 <= i < (a + e).len() implies #[trigger] (a + e)[i] != '<' && (a
            + e)[i] != '>' && (a + e)[i] != '"' by {
            if i >= a.len() {
                assert((a + e)[i] == e[i - a.len()]);
            } else {
                assert((a + e)[i] == a[i]);
            }
        }
    }
}

proof fn lemma_pct_plain_from(b: Seq<u8>, plus: bool, i: int)
    requires
        0 <= i <= b.len(),
        forall|j: int| 0 <= j < b.len() ==> #[trigger] b[j] != 0x25,
        plus ==> forall|j: int| 0 <= j < b.len() ==> #[trigger] b[j] != 0x2b,
    ensures
        pct_from(b, plus, i) == Some(b.skip(i)),
    decreases b.len() - i,
{
    if i < b.len() {
        lemma_pct_plain_from(b, plus, i + 1);
        assert(seq![b[i]] + b.skip(i + 1) == b.skip(i));
    } else {
        assert(b.skip(i) == Seq::<u8>::empty());
    }
}

proof fn lemma_scalar_low_byte(u: u32, b: u8)
    requires
        b < 0x80,
        u != b as u32,
    ensures
        forall|j: int| 0 <= j < vstd::utf8::encode_scalar(u).len() ==> #[trigger] vstd::utf8::encode_scalar(u)[j] != b,
{
    let e = vstd::utf8::encode_scalar(u);
    if vstd::utf8::has_width_1_encoding(u) {
        assert(u <= 0x7f ==> ((u & 0x7f) as u8) as u32 == u) by (bit_vector);
        assert(e[0] as u32 == u);
    } else {
        assert(vstd::utf8::leading_byte_width_2(u) >= 0x80) by (bit_vector);
        assert(vstd::utf8::leading_byte_width_3(u) >= 0x80) by (bit_vector);
        assert(vstd::utf8::leading_byte_width_4(u) >= 0x80) by (bit_vector);
        assert(vstd::utf8::last_continuation_byte(u) >= 0x80) by (bit_vector);
        assert(vstd::utf8::second_last_continuation_byte(u) >= 0x80) by (bit_vector);
        assert(vstd::utf8::third_last_continuation_byte(u) >= 0x80) by (bit_vector);
    }
}

proof fn lemma_encode_avoids_byte(s: Seq<char>, c: char, b: u8)
    requires
        b < 0x80,
        c as u32 == b as u32,
        forall|j: int| 0 <= j < s.len() ==> #[trigger] s[j] != c,
    ensures
        forall|j: int| 0 <= j < encode_utf8(s).len() ==> #[trigger] encode_utf8(s)[j] != b,
    decreases s.len(),
{
    if s.len() > 0 {
        assert(s[0] != c);
        if s[0] as u32 == b as u32 {
            vstd::utf8::char_u32_cast(s[0], s[0] as u32);
            vstd::utf8::char_u32_cast(c, c as u32);
        }
        assert(s[0] as u32 != b as u32);
        lemma_scalar_low_byte(s[0] as u32, b);
        assert forall|j: int| 0 <= j < s.drop_first().len() implies #[trigger] s.drop_first()[j] != c by {
            assert(s.drop_first()[j] == s[j + 1]);
        }
        lemma_encode_avoids_byte(s.drop_first(), c, b);
        let a = vstd::utf8::encode_scalar(s[0] as u32);
        let r = encode_utf8(s.drop_first());
        assert forall|j: int| 0 <= j < (a + r).len() implies #[trigger] (a + r)[j] != b by {
            if j < a.len() {
                assert((a + r)[j] == a[j]);
            } else {
                assert((a + r)[j] == r[j - a.len()]);
            }
        }
    }
}

/// Text without `%` (and without `+` where `+` stands for a space) is left
/// as it is by percent-decoding: its bytes come back unchanged, and so does
/// the text.
pub proof fn percent_decode_keeps_plain_text(s: Seq<char>, plus: bool)
    requires
        forall|j: int| 0 <= j < s.len() ==> #[trigger] s[j] != '%',
        plus ==> forall|j: int| 0 <= j < s.len() ==> #[trigger] s[j] != '+',
    ensures
        pct_bytes(s, plus) == Some(encode_utf8(s)),
        pct_text(s, plus) == s,
{
    vstd::utf8::encode_utf8_valid_utf8(s);
    encode_utf8_decode_utf8(s);
    let b = encode_utf8(s);
    lemma_encode_avoids_byte(s, '%', 0x25);
    if plus {
        lemma_encode_avoids_byte(s, '+', 0x2b);
    }
    lemma_pct_plain_from(b, plus, 0);
    assert(b.skip(0) == b);
}

} // verus!

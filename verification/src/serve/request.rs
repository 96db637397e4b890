//! The head of an HTTP request: request line, header fields and the target.
use vstd::prelude::*;
use vstd::string::*;

use crate::serve::{
    ascii_lower, find_char, first_index, lemma_first_index, lower, pct_bytes, pct_text,
    percent_decode, string_from_utf8_lossy, sub_chars, lossy_text,
};
use crate::text::{
    chars_of, is_whitespace, is_ws, parse_usize, string_from, to_uppercase, trim, trim_chars,
    trim_start, uppercase, usize_value,
};

verus! {

/// The largest body a request may announce.
pub const MAX_BODY: usize = 65536;

/// The lines of `s` between `\r\n` separators (`str::split("\r\n")`); there
/// is always one line more than separators.
pub open spec fn crlf_lines(s: Seq<char>) -> Seq<Seq<char>>
    decreases s.len(),
{
    if s.len() == 0 {
        seq![Seq::<char>::empty()]
    } else if s.len() >= 2 && s[s.len() - 2] == '\r' && s.last() == '\n' {
        crlf_lines(s.take(s.len() - 2)).push(Seq::<char>::empty())
    } else {
        let p = crlf_lines(s.drop_last());
        p.update(p.len() - 1, p.last().push(s.last()))
    }
}

proof fn lemma_crlf_lines_len(s: Seq<char>)
    ensures
        crlf_lines(s).len() >= 1,
    decreases s.len(),
{
    if s.len() >= 2 && s[s.len() - 2] == '\r' && s.last() == '\n' {
        lemma_crlf_lines_len(s.take(s.len() - 2));
    } else if s.len() > 0 {
        lemma_crlf_lines_len(s.drop_last());
    }
}

/// Splits `v` at every `\r\n`.
fn split_crlf(v: &Vec<char>) -> (r: Vec<Vec<char>>)
    ensures
        r.deep_view() == crlf_lines(v@),
{
    let n = v.len();
    let mut done: Vec<Vec<char>> = Vec::new();
    let mut cur: Vec<char> = Vec::new();
    let mut i: usize = 0;
    while i < n
        invariant
            i <= n,
            n == v@.len(),
            crlf_lines(v@.take(i as int)).len() == done@.len() + 1,
            forall|j: int|
                0 <= j < done@.len() ==> #[trigger] done@[j]@ == crlf_lines(v@.take(i as int))[j],
            cur@ == crlf_lines(v@.take(i as int)).last(),
            0 < i < n && v@[i - 1] == '\r' ==> v@[i as int] != '\n',
        decreases n - i,
    {
        if i + 1 < n && v[i] == '\r' && v[i + 1] == '\n' {
            assert(v@.take(i + 2).take(i as int) == v@.take(i as int));
            done.push(cur);
            cur = Vec::new();
            i = i + 2;
        } else {
            assert(v@.take(i + 1).drop_last() == v@.take(i as int));
            cur.push(v[i]);
            i = i + 1;
        }
    }
    assert(v@.take(n as int) == v@);
    done.push(cur);
    proof {
        let s = crlf_lines(v@);
        assert(done.deep_view().len() == s.len());
        assert forall|j: int| 0 <= j < s.len() implies done.deep_view()[j] == s[j] by {}
        assert(done.deep_view() == s);
    }
    done
}

/// Where the first white space of `s` is, or its length.
pub open spec fn word_end(s: Seq<char>) -> int
    decreases s.len(),
{
    if s.len() == 0 || is_ws(s[0]) {
        0
    } else {
        1 + word_end(s.drop_first())
    }
}

/// The first white-space separated word of `s`, empty when there is none
/// (`split_whitespace().next()`).
pub open spec fn first_word(s: Seq<char>) -> Seq<char> {
    let t = trim_start(s);
    t.take(word_end(t))
}

/// What follows the first word of `s`.
pub open spec fn after_first_word(s: Seq<char>) -> Seq<char> {
    let t = trim_start(s);
    t.skip(word_end(t))
}

/// Finds the first word of `v[from..]`: its start and end.
fn word_at(v: &Vec<char>, from: usize) -> (r: (usize, usize))
    requires
        from <= v.len(),
    ensures
        from <= r.0 <= r.1 <= v.len(),
        v@.subrange(r.0 as int, r.1 as int) == first_word(v@.skip(from as int)),
        v@.skip(r.1 as int) == after_first_word(v@.skip(from as int)),
{
    let n = v.len();
    let mut i: usize = from;
    while i < n && is_whitespace(v[i])
        invariant
            from <= i <= n,
            n == v@.len(),
            trim_start(v@.skip(from as int)) == trim_start(v@.skip(i as int)),
        decreases n - i,
    {
        assert(v@.skip(i as int).drop_first() == v@.skip(i + 1));
        i = i + 1;
    }
    assert(trim_start(v@.skip(i as int)) == v@.skip(i as int));
    let mut j: usize = i;
    while j < n && !is_whitespace(v[j])
        invariant
            i <= j <= n,
            n == v@.len(),
            word_end(v@.skip(i as int)) == (j - i) + word_end(v@.skip(j as int)),
        decreases n - j,
    {
        assert(v@.skip(j as int).drop_first() == v@.skip(j + 1));
        j = j + 1;
    }
    assert(word_end(v@.skip(j as int)) == 0);
    assert(v@.skip(i as int).take(j - i) == v@.subrange(i as int, j as int));
    assert(v@.skip(i as int).skip(j - i) == v@.skip(j as int));
    (i, j)
}

/// `a` and `b` are equal but for the case of ASCII letters
/// (`str::eq_ignore_ascii_case` where `b` is ASCII).
pub open spec fn eq_ignore_ascii_case(a: Seq<char>, b: Seq<char>) -> bool {
    a.len() == b.len() && forall|i: int| 0 <= i < a.len() ==> ascii_lower(#[trigger] a[i]) == ascii_lower(b[i])
}

/// Compares `a` with `b` ignoring the case of ASCII letters.
pub(crate) fn same_ignoring_case(a: &Vec<char>, b: &str) -> (r: bool)
    ensures
        r == eq_ignore_ascii_case(a@, b@),
{
    let bv = chars_of(b);
    if a.len() != bv.len() {
        return false;
    }
    let mut i: usize = 0;
    while i < a.len()
        invariant
            i <= a.len() == bv.len(),
            bv@ == b@,
            forall|j: int| 0 <= j < i ==> ascii_lower(#[trigger] a@[j]) == ascii_lower(bv@[j]),
        decreases a.len() - i,
    {
        if lower(a[i]) != lower(bv[i]) {
            return false;
        }
        i = i + 1;
    }
    true
}

/// The `name: value` fields of header lines, both trimmed; lines without a
/// `:` are left out.
pub open spec fn header_fields(lines: Seq<Seq<char>>) -> Seq<(Seq<char>, Seq<char>)>
    decreases lines.len(),
{
    if lines.len() == 0 {
        Seq::empty()
    } else {
        let rest = header_fields(lines.drop_last());
        let l = lines.last();
        let i = first_index(l, ':');
        if i < 0 {
            rest
        } else {
            rest.push((trim(l.take(i)), trim(l.skip(i + 1))))
        }
    }
}

/// The body length that the fields announce: the value of the last
/// `Content-Length` field, 0 where that is no number.
pub open spec fn content_length_of(hs: Seq<(Seq<char>, Seq<char>)>) -> nat
    decreases hs.len(),
{
    if hs.len() == 0 {
        0
    } else if eq_ignore_ascii_case(hs.last().0, "content-length"@) {
        match usize_value(hs.last().1) {
            Some(v) => v,
            None => 0,
        }
    } else {
        content_length_of(hs.drop_last())
    }
}

/// Some field is `Expect: 100-continue`.
pub open spec fn expects_continue(hs: Seq<(Seq<char>, Seq<char>)>) -> bool {
    exists|i: int|
        0 <= i < hs.len() && eq_ignore_ascii_case(#[trigger] hs[i].0, "expect"@)
            && eq_ignore_ascii_case(hs[i].1, "100-continue"@)
}

/// The first line of a request head.
pub open spec fn request_line(head: Seq<u8>) -> Seq<char> {
    crlf_lines(lossy_text(head))[0]
}

/// The method of a request head, in upper case (letter by letter where it
/// is ASCII).
pub open spec fn request_method(head: Seq<u8>) -> Seq<char> {
    let w = first_word(request_line(head));
    if crate::text::is_ascii_text(w) {
        w.map_values(|c: char| crate::text::ascii_to_upper(c))
    } else {
        uppercase(w)
    }
}

/// The target (path and query) of a request head.
pub open spec fn request_target(head: Seq<u8>) -> Seq<char> {
    first_word(after_first_word(request_line(head)))
}

/// The header fields of a request head.
pub open spec fn request_fields(head: Seq<u8>) -> Seq<(Seq<char>, Seq<char>)> {
    header_fields(crlf_lines(lossy_text(head)).drop_first())
}

/// What a request head says, before its body is read.
pub struct RequestHead {
    pub method: String,
    pub target: String,
    pub headers: Vec<(String, String)>,
    pub content_length: usize,
    pub expect_continue: bool,
}

/// Reads the fields of the header lines `lines[1..]`.
fn read_fields(lines: &Vec<Vec<char>>) -> (r: (Vec<(String, String)>, usize, bool))
    requires
        lines@.len() >= 1,
    ensures
        r.0.deep_view() == header_fields(lines.deep_view().drop_first()),
        r.1 as nat == content_length_of(header_fields(lines.deep_view().drop_first())),
        r.2 == expects_continue(header_fields(lines.deep_view().drop_first())),
{
    let ghost ls = lines.deep_view().drop_first();
    let mut headers: Vec<(String, String)> = Vec::new();
    let mut content_length: usize = 0;
    let mut expect_continue = false;
    let mut k: usize = 1;
    while k < lines.len()
        invariant
            1 <= k <= lines.len(),
            ls == lines.deep_view().drop_first(),
            headers.deep_view() == header_fields(ls.take(k - 1)),
            content_length as nat == content_length_of(header_fields(ls.take(k - 1))),
            expect_continue == expects_continue(header_fields(ls.take(k - 1))),
        decreases lines.len() - k,
    {
        let line = &lines[k];
        assert(ls[k - 1] == line@);
        assert(ls.take(k as int).drop_last() == ls.take(k - 1));
        let ghost before = headers.deep_view();
        match find_char(line, ':') {
            Some(c) => {
                let name = trim_chars(sub_chars(line, 0, c).as_slice());
                let value = trim_chars(sub_chars(line, c + 1, line.len()).as_slice());
                assert(line@.subrange(0, c as int) == line@.take(c as int));
                assert(line@.subrange(c + 1, line@.len() as int) == line@.skip(c + 1));
                if same_ignoring_case(&name, "content-length") {
                    content_length = match parse_usize(string_from(value.as_slice()).as_str()) {
                        Some(v) => v,
                        None => 0,
                    };
                }
                let is_expect = same_ignoring_case(&name, "expect") && same_ignoring_case(
                    &value,
                    "100-continue",
                );
                let ghost fields = header_fields(ls.take(k as int));
                assert(fields == before.push((name@, value@)));
                assert(fields.drop_last() == before);
                proof {
                    if expect_continue {
                        let w = choose|i: int|
                            0 <= i < before.len() && eq_ignore_ascii_case(
                                #[trigger] before[i].0,
                                "expect"@,
                            ) && eq_ignore_ascii_case(before[i].1, "100-continue"@);
                        assert(fields[w] == before[w]);
                    }
                    if is_expect {
                        assert(fields[before.len() as int] == (name@, value@));
                        assert(eq_ignore_ascii_case(fields[before.len() as int].0, "expect"@));
                        assert(eq_ignore_ascii_case(fields[before.len() as int].1, "100-continue"@));
                    }
                    if !expect_continue && !is_expect {
                        assert forall|i: int| 0 <= i < fields.len() implies !(eq_ignore_ascii_case(
                            #[trigger] fields[i].0,
                            "expect"@,
                        ) && eq_ignore_ascii_case(fields[i].1, "100-continue"@)) by {
                            if i < before.len() {
                                assert(fields[i] == before[i]);
                                assert(!(eq_ignore_ascii_case(before[i].0, "expect"@)
                                    && eq_ignore_ascii_case(before[i].1, "100-continue"@)));
                            } else {
                                assert(fields[i] == (name@, value@));
                            }
                        }
                    }
                }
                expect_continue = expect_continue || is_expect;
                assert(expect_continue == expects_continue(fields));
                headers.push((string_from(name.as_slice()), string_from(value.as_slice())));
                assert(headers.deep_view() == fields);
            },
            None => {
                assert(header_fields(ls.take(k as int)) == before);
            },
        }
        k = k + 1;
    }
    assert(ls.take(lines.len() - 1) == ls);
    (headers, content_length, expect_continue)
}

/// Reads the head of a request (the bytes before the blank line): the
/// request line must hold a method and a target, and the announced body may
/// not be larger than [MAX_BODY].
pub fn parse_request_head(head: &[u8]) -> (r: Result<RequestHead, String>)
    ensures
        (request_method(head@).len() == 0 || request_target(head@).len() == 0) ==> crate::text::is_err_with(r, "malformed request line"@),
        (request_method(head@).len() > 0 && request_target(head@).len() > 0 && content_length_of(request_fields(head@)) > MAX_BODY) ==> crate::text::is_err_with(r, "request body too large"@),
        (request_method(head@).len() > 0 && request_target(head@).len() > 0 && content_length_of(request_fields(head@)) <= MAX_BODY) ==> r is Ok,
        r matches Ok(h) ==> {
            &&& h.method@ == request_method(head@)
            &&& h.target@ == request_target(head@)
            &&& h.headers.deep_view() == request_fields(head@)
            &&& h.content_length as nat == content_length_of(request_fields(head@))
            &&& h.expect_continue == expects_continue(request_fields(head@))
        },
{
    let text = string_from_utf8_lossy(head);
    let v = chars_of(text.as_str());
    let lines = split_crlf(&v);
    proof {
        lemma_crlf_lines_len(v@);
    }
    let first = &lines[0];
    assert(first@ == request_line(head@));
    let (a, b) = word_at(first, 0);
    assert(first@.skip(0) == first@);
    let method = to_uppercase(string_from(sub_chars(first, a, b).as_slice()).as_str());
    let (c, d) = word_at(first, b);
    let target = string_from(sub_chars(first, c, d).as_slice());
    if method.unicode_len() == 0 || target.unicode_len() == 0 {
        return Err(String::from_str("malformed request line"));
    }
    let (headers, content_length, expect_continue) = read_fields(&lines);
    if content_length > MAX_BODY {
        return Err(String::from_str("request body too large"));
    }
    Ok(RequestHead { method, target, headers, content_length, expect_continue })
}

} // verus!

verus! {

/// `s` without its leading slashes.
pub open spec fn strip_leading_slashes(s: Seq<char>) -> Seq<char>
    decreases s.len(),
{
    if s.len() > 0 && s[0] == '/' {
        strip_leading_slashes(s.drop_first())
    } else {
        s
    }
}

/// `s` without its trailing slashes.
pub open spec fn strip_trailing_slashes(s: Seq<char>) -> Seq<char>
    decreases s.len(),
{
    if s.len() > 0 && s.last() == '/' {
        strip_trailing_slashes(s.drop_last())
    } else {
        s
    }
}

/// `s` without leading and trailing slashes (`str::trim_matches('/')`).
pub open spec fn trim_slashes(s: Seq<char>) -> Seq<char> {
    strip_trailing_slashes(strip_leading_slashes(s))
}

proof fn lemma_strip_leading_skip(s: Seq<char>, i: int)
    requires
        0 <= i <= s.len(),
        forall|j: int| 0 <= j < i ==> #[trigger] s[j] == '/',
    ensures
        strip_leading_slashes(s) == strip_leading_slashes(s.skip(i)),
    decreases i,
{
    if i > 0 {
        assert(s.skip(1) == s.drop_first());
        lemma_strip_leading_skip(s.drop_first(), i - 1);
        assert(s.drop_first().skip(i - 1) == s.skip(i));
    } else {
        assert(s.skip(0) == s);
    }
}

proof fn lemma_strip_trailing_take(s: Seq<char>, i: int)
    requires
        0 <= i <= s.len(),
        forall|j: int| i <= j < s.len() ==> #[trigger] s[j] == '/',
    ensures
        strip_trailing_slashes(s) == strip_trailing_slashes(s.take(i)),
    decreases s.len() - i,
{
    if i < s.len() {
        lemma_strip_trailing_take(s.drop_last(), i);
        assert(s.drop_last().take(i) == s.take(i));
    } else {
        assert(s.take(i) == s);
    }
}

/// The characters of `v` without leading and trailing slashes.
fn trim_slash_chars(v: &Vec<char>) -> (r: Vec<char>)
    ensures
        r@ == trim_slashes(v@),
{
    let n = v.len();
    let mut start: usize = 0;
    while start < n && v[start] == '/'
        invariant
            start <= n,
            n == v@.len(),
            forall|j: int| 0 <= j < start ==> #[trigger] v@[j] == '/',
        decreases n - start,
    {
        start = start + 1;
    }
    proof {
        lemma_strip_leading_skip(v@, start as int);
    }
    let ghost t = v@.skip(start as int);
    assert(strip_leading_slashes(t) == t);
    let mut end: usize = n;
    while end > start && v[end - 1] == '/'
        invariant
            start <= end <= n,
            n == v@.len(),
            t == v@.skip(start as int),
            forall|j: int| end - start <= j < t.len() ==> #[trigger] t[j] == '/',
        decreases end,
    {
        end = end - 1;
    }
    proof {
        lemma_strip_trailing_take(t, (end - start) as int);
        let u = t.take((end - start) as int);
        if u.len() > 0 {
            assert(u.last() == v@[end - 1]);
        }
        assert(strip_trailing_slashes(u) == u);
        assert(u == v@.subrange(start as int, end as int));
    }
    sub_chars(v, start, end)
}

/// The path part of a request target (before the first `?`).
pub open spec fn target_path(t: Seq<char>) -> Seq<char> {
    let q = first_index(t, '?');
    if q < 0 {
        t
    } else {
        t.take(q)
    }
}

/// The query part of a request target (after the first `?`), if any.
pub open spec fn target_query(t: Seq<char>) -> Option<Seq<char>> {
    let q = first_index(t, '?');
    if q < 0 {
        None
    } else {
        Some(t.skip(q + 1))
    }
}

/// The decoded path of a request: `/` stays, any other path loses its
/// surrounding slashes and is percent-decoded.
pub open spec fn request_path(raw: Seq<char>) -> Seq<char> {
    if raw == seq!['/'] {
        seq!['/']
    } else {
        pct_text(trim_slashes(raw), false)
    }
}

/// The path of the target can be decoded (no `%` escape cuts a character).
pub open spec fn target_decodable(t: Seq<char>) -> bool {
    target_path(t) == seq!['/'] || pct_bytes(trim_slashes(target_path(t)), false) is Some
}

/// The raw path and query of `target`.
fn split_at_question(target: &str) -> (r: (Vec<char>, Option<String>))
    ensures
        r.0@ == target_path(target@),
        crate::text::opt_view(r.1) == target_query(target@),
{
    let v = chars_of(target);
    match find_char(&v, '?') {
        Some(q) => {
            let p = sub_chars(&v, 0, q);
            let rest = sub_chars(&v, q + 1, v.len());
            assert(v@.subrange(0, q as int) == v@.take(q as int));
            assert(v@.subrange(q + 1, v@.len() as int) == v@.skip(q + 1));
            (p, Some(string_from(rest.as_slice())))
        },
        None => (v, None),
    }
}

/// The path of `target` can be decoded by [split_target].
pub fn is_target_decodable(target: &str) -> (r: bool)
    ensures
        r == target_decodable(target@),
{
    let (raw, _) = split_at_question(target);
    if raw.len() == 1 && raw[0] == '/' {
        assert(raw@ == seq!['/']);
        return true;
    }
    assert(raw@ != seq!['/']);
    let trimmed = string_from(trim_slash_chars(&raw).as_slice());
    crate::serve::percent_decodable(trimmed.as_str(), false)
}

/// Splits a request target into its decoded path and its query.
pub fn split_target(target: &str) -> (r: (String, Option<String>))
    requires
        target_decodable(target@),
    ensures
        r.0@ == request_path(target_path(target@)),
        crate::text::opt_view(r.1) == target_query(target@),
{
    let (raw, query) = split_at_question(target);
    if raw.len() == 1 && raw[0] == '/' {
        assert(raw@ == seq!['/']);
        let slash = String::from_str("/");
        proof {
            reveal_strlit("/");
        }
        assert(slash@ == seq!['/']);
        return (slash, query);
    }
    assert(raw@ != seq!['/']);
    let trimmed = string_from(trim_slash_chars(&raw).as_slice());
    (percent_decode(trimmed.as_str(), false), query)
}

} // verus!

verus! {

/// `b[i..i + 4]` is the blank line `\r\n\r\n` that ends a request head.
pub open spec fn blank_line_at(b: Seq<u8>, i: int) -> bool {
    0 <= i && i + 4 <= b.len() && b[i] == 0x0d && b[i + 1] == 0x0a && b[i + 2] == 0x0d && b[i + 3]
        == 0x0a
}

/// Where the first blank line of the bytes read so far starts, if they hold
/// one: the head of the request is what comes before it.
pub fn head_end(buf: &[u8]) -> (r: Option<usize>)
    ensures
        match r {
            Some(i) => blank_line_at(buf@, i as int) && forall|j: int| 0 <= j < i ==> !blank_line_at(buf@, j),
            None => forall|j: int| 0 <= j < buf@.len() ==> !blank_line_at(buf@, j),
        },
{
    if buf.len() < 4 {
        return None;
    }
    let mut i: usize = 0;
    while i <= buf.len() - 4
        invariant
            buf.len() >= 4,
            forall|j: int| 0 <= j < i ==> !blank_line_at(buf@, j),
        decreases buf.len() - i,
    {
        if buf[i] == 0x0d && buf[i + 1] == 0x0a && buf[i + 2] == 0x0d && buf[i + 3] == 0x0a {
            return Some(i);
        }
        i = i + 1;
    }
    None
}

} // verus!

use bake::serve::{
    base64_decode, basic_auth_matches, constant_time_eq, html_escape, parse_urlencoded,
    percent_decodable, percent_decode, reason, wants_html,
};

#[test]
fn percent_decode_test() {
    assert_eq!(percent_decode("%2Fhello%20world", false), "/hello world");
    assert_eq!(percent_decode("a+b", true), "a b");
    assert_eq!(percent_decode("a+b", false), "a+b");
    assert_eq!(percent_decode("plain", true), "plain");
    assert_eq!(percent_decode("bad%zz", false), "bad%zz");
    assert_eq!(percent_decode("truncated%2", false), "truncated%2");
}

#[test]
fn parse_urlencoded_test() {
    assert_eq!(
        parse_urlencoded("PORT=8080&MODE=debug+mode"),
        vec![
            ("PORT".to_string(), "8080".to_string()),
            ("MODE".to_string(), "debug mode".to_string()),
        ]
    );
    assert_eq!(parse_urlencoded(""), Vec::<(String, String)>::new());
    assert_eq!(
        parse_urlencoded("flag"),
        vec![("flag".to_string(), "".to_string())]
    );
}

#[test]
fn html_escape_test() {
    assert_eq!(
        html_escape("<a href=\"x\">&</a>"),
        "&lt;a href=&quot;x&quot;&gt;&amp;&lt;/a&gt;"
    );
}

#[test]
fn base64_decode_test() {
    assert_eq!(base64_decode("").unwrap(), Vec::<u8>::new());
    assert_eq!(base64_decode("YQ==").unwrap(), b"a".to_vec());
    assert_eq!(base64_decode("YWI=").unwrap(), b"ab".to_vec());
    assert_eq!(base64_decode("YWJj").unwrap(), b"abc".to_vec());
    // 'user:pass'
    assert_eq!(
        base64_decode("dXNlcjpwYXNz").unwrap(),
        b"user:pass".to_vec()
    );
    // whitespace is tolerated
    assert_eq!(
        base64_decode("dXNl\n cjpwYXNz").unwrap(),
        b"user:pass".to_vec()
    );
    assert!(base64_decode("abc").is_none()); // bad length
    assert!(base64_decode("a*bc").is_none()); // bad char
}

/// test helper: standard base64 encoding
fn encode_std_base64(input: &str) -> String {
    const CHARS: &[u8] = b"ABCDEFGHIJKLMNOPQRSTUVWXYZabcdefghijklmnopqrstuvwxyz0123456789+/";
    let mut out = String::new();
    for chunk in input.as_bytes().chunks(3) {
        let mut acc: u32 = 0;
        for &b in chunk {
            acc = (acc << 8) | b as u32;
        }
        let n = chunk.len();
        acc <<= 8 * (3 - n);
        for i in 0..4 {
            if i <= n {
                out.push(CHARS[(acc >> (18 - 6 * i)) as usize & 63] as char);
            } else {
                out.push('=');
            }
        }
    }
    out
}

#[test]
fn basic_auth_matches_test() {
    let header = format!("Basic {}", encode_std_base64(":s3cret"));
    assert!(
        basic_auth_matches(&header, "s3cret"),
        "header={:?} decoded={:?}",
        header,
        base64_decode(header.trim())
    );
    assert!(!basic_auth_matches(&header, "wrong"));
    assert!(!basic_auth_matches("Basic !!!!", "s3cret"));
    assert!(!basic_auth_matches("", "s3cret"));
    // no colon -> treated as whole value
    let no_user = format!("Basic {}", encode_std_base64("s3cret"));
    assert!(basic_auth_matches(&no_user, "s3cret"));
}

#[test]
fn base64_groups_with_padding_in_between() {
    // every group is decoded on its own, padding included
    assert_eq!(base64_decode("YQ==YQ==").unwrap(), b"aa".to_vec());
    assert!(base64_decode("Y===").is_none());
    assert!(base64_decode("====").is_none());
    assert!(base64_decode("YQ=a").is_none());
    assert_eq!(base64_decode("/+8=").unwrap(), vec![0xff, 0xef]);
}

#[test]
fn base64_whitespace_law_example() {
    // white space never changes what is decoded
    assert_eq!(base64_decode(" Y W J j \r\n"), base64_decode("YWJj"));
    // vertical tab is not ASCII white space for the decoder
    assert!(base64_decode("YW\u{0b}Jj").is_none());
}

#[test]
fn constant_time_eq_examples() {
    assert!(constant_time_eq("abc", "abc"));
    assert!(!constant_time_eq("abc", "abd"));
    assert!(!constant_time_eq("abc", "abcd"));
    assert!(constant_time_eq("", ""));
}

#[test]
fn basic_auth_lowercase_scheme_and_user() {
    let header = format!("  basic {}  ", encode_std_base64("admin:pw:with:colons"));
    assert!(basic_auth_matches(&header, "pw:with:colons"));
    // no scheme at all: the whole value is base64
    assert!(basic_auth_matches(&encode_std_base64("u:pw"), "pw"));
}

#[test]
fn percent_decode_edge_cases() {
    assert_eq!(percent_decode("%41%42", false), "AB");
    assert_eq!(percent_decode("%+5", false), "\u{5}");
    assert_eq!(percent_decode("%-5", false), "%-5");
    assert_eq!(percent_decode("%ff", false), "\u{fffd}");
    assert_eq!(percent_decode("%C3%A9", false), "é");
    assert_eq!(percent_decode("100%", false), "100%");
    assert!(!percent_decodable("%aé", false));
    assert!(percent_decodable("%é", false));
    assert_eq!(percent_decode("%é", false), "%é");
}

#[test]
fn parse_urlencoded_more() {
    assert_eq!(
        parse_urlencoded("a=1=2&&b"),
        vec![
            ("a".to_string(), "1=2".to_string()),
            ("b".to_string(), "".to_string())
        ]
    );
    assert_eq!(
        parse_urlencoded("k%3D=v%26"),
        vec![("k=".to_string(), "v&".to_string())]
    );
}

#[test]
fn wants_html_examples() {
    let h = vec![("ACCEPT".to_string(), "Text/HTML,*/*".to_string())];
    assert!(wants_html(&h));
    let h = vec![("accept".to_string(), "application/json".to_string())];
    assert!(!wants_html(&h));
    let h = vec![("x-accept".to_string(), "text/html".to_string())];
    assert!(!wants_html(&h));
    assert!(!wants_html(&[]));
}

#[test]
fn reason_phrases() {
    assert_eq!(reason(200), "OK");
    assert_eq!(reason(400), "Bad Request");
    assert_eq!(reason(404), "Not Found");
    assert_eq!(reason(405), "Method Not Allowed");
    assert_eq!(reason(500), "Internal Server Error");
    assert_eq!(reason(302), "OK");
}

#[test]
fn plain_text_is_not_changed_by_decoding() {
    assert_eq!(bake::serve::percent_decode("héllo wörld", false), "héllo wörld");
    assert_eq!(bake::serve::percent_decode("a+b", false), "a+b");
}

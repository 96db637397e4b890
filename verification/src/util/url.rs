//! Links that bake opens for the user.
use vstd::prelude::*;
use vstd::string::*;

use crate::util::platform_specific::{get_platform_name, platform_name, Platform};

verus! {

/// The link starts with `http://` or `https://`.
pub open spec fn has_scheme(url: Seq<char>) -> bool {
    "http://"@.is_prefix_of(url) || "https://"@.is_prefix_of(url)
}

/// `url` with `http://` put in front when it names no scheme.
pub open spec fn standard(url: Seq<char>) -> Seq<char> {
    if has_scheme(url) {
        url
    } else {
        "http://"@ + url
    }
}

/// Puts `http://` in front of a link that has no `http://` or `https://`.
pub fn standard_link(url: &str) -> (r: String)
    ensures
        r@ == standard(url@),
{
    proof {
        reveal_strlit("http://");
        reveal_strlit("https://");
    }
    let v = crate::text::chars_of(url);
    let http = vec!['h', 't', 't', 'p', ':', '/', '/'];
    let https = vec!['h', 't', 't', 'p', 's', ':', '/', '/'];
    assert("http://"@ =~= http@);
    assert("https://"@ =~= https@);
    if starts_with(&v, &http) || starts_with(&v, &https) {
        url.to_owned()
    } else {
        let mut r = String::from_str("http://");
        r.append(url);
        r
    }
}

fn starts_with(v: &Vec<char>, p: &Vec<char>) -> (r: bool)
    ensures
        r == p@.is_prefix_of(v@),
{
    if p.len() > v.len() {
        return false;
    }
    let mut i: usize = 0;
    while i < p.len()
        invariant
            i <= p.len() <= v.len(),
            forall|j: int| 0 <= j < i ==> v@[j] == p@[j],
        decreases p.len() - i,
    {
        if v[i] != p[i] {
            assert(v@.subrange(0, p@.len() as int)[i as int] != p@[i as int]);
            return false;
        }
        i = i + 1;
    }
    assert(p@ =~= v@.subrange(0, p@.len() as int));
    true
}

/// A web search for how to install `name` on `platform`.
pub open spec fn installation_link(name: Seq<char>, platform: Platform) -> Seq<char> {
    standard("https://google.com/search?q=how+to+install+"@ + name + "+on+"@ + platform_name(platform))
}

/// A web search link for how to install `name` on `platform`.
pub fn generate_installation_link(name: &str, platform: Platform) -> (r: String)
    ensures
        r@ == installation_link(name@, platform),
{
    let mut q = String::from_str("https://google.com/search?q=how+to+install+");
    q.append(name);
    q.append("+on+");
    q.append(get_platform_name(platform));
    standard_link(q.as_str())
}

/// A link keeps its scheme: bringing it to standard form twice changes
/// nothing more than once.
pub proof fn standard_link_idempotent(url: Seq<char>)
    ensures
        has_scheme(standard(url)),
        standard(standard(url)) == standard(url),
{
    reveal_strlit("http://");
    reveal_strlit("https://");
    if !has_scheme(url) {
        let s = "http://"@ + url;
        assert(s.subrange(0, 7) =~= "http://"@);
    }
}

} // verus!

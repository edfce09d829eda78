//! What a request typed into the URL bar stands for. URLs are parsed by the `url` crate.

use crate::browser::text_view;
use vstd::prelude::*;
use vstd::string::*;

verus! {

/// What the URL parser makes of a text: the URL written out in full, or nothing
/// where the text is no absolute URL.
pub uninterp spec fn url_parse(input: Seq<char>) -> Option<Seq<char>>;

/// Calls `url::Url::parse` and writes the URL out with `Url::as_str`. The
/// contract only names the outcome: the same text always gives the same one.
/// A parse error becomes `None`.
#[verifier::external_body]
fn parse_url(input: &str) -> (parsed: Option<String>)
    ensures
        text_view(parsed) == url_parse(input@),
{
    match url::Url::parse(input) {
        Ok(parsed) => Some(String::from(parsed.as_str())),
        Err(_) => None,
    }
}

/// Whether `text` ends with `suffix`.
pub open spec fn ends_with(text: Seq<char>, suffix: Seq<char>) -> bool {
    suffix.len() <= text.len() && text.subrange(text.len() - suffix.len(), text.len() as int)
        == suffix
}

/// Whether a text that is no URL by itself is taken for a bare domain name.
pub open spec fn looks_like_domain(request: Seq<char>) -> bool {
    ends_with(request, ".com"@) || ends_with(request, ".org"@) || ends_with(request, ".net"@)
}

/// The location picked from the three readings of a request: the request as
/// it stands; for a bare domain, the request behind `http://`; at last a web
/// search for it.
pub open spec fn chosen(
    direct: Option<Seq<char>>,
    domain: bool,
    prefixed: Option<Seq<char>>,
    search: Option<Seq<char>>,
) -> Option<Seq<char>> {
    if direct is Some {
        direct
    } else if domain && prefixed is Some {
        prefixed
    } else {
        search
    }
}

/// The location that a request typed into the URL bar stands for, or nothing
/// where every reading of it fails.
pub open spec fn resolution(request: Seq<char>) -> Option<Seq<char>> {
    chosen(
        url_parse(request),
        looks_like_domain(request),
        url_parse("http://"@ + request),
        url_parse("https://duckduckgo.com/html/?q="@ + request),
    )
}

/// Whether `text` ends with `suffix`.
pub fn has_suffix(text: &str, suffix: &str) -> (found: bool)
    ensures
        found == ends_with(text@, suffix@),
{
    let n = text.unicode_len();
    let m = suffix.unicode_len();
    if m > n {
        return false;
    }
    let start = n - m;
    let mut k: usize = 0;
    while k < m
        invariant
            k <= m,
            m <= n,
            n == text@.len(),
            m == suffix@.len(),
            start == n - m,
            forall|j: int| 0 <= j < k ==> text@[start + j] == suffix@[j],
        decreases m - k,
    {
        if text.get_char(start + k) != suffix.get_char(k) {
            assert(text@.subrange(start as int, n as int)[k as int] != suffix@[k as int]);
            return false;
        }
        k += 1;
    }
    assert(text@.subrange(start as int, n as int) =~= suffix@);
    true
}

/// Picks the location from the three readings of a request.
pub fn choose_location(
    direct: Option<String>,
    domain: bool,
    prefixed: Option<String>,
    search: Option<String>,
) -> (location: Option<String>)
    ensures
        text_view(location) == chosen(
            text_view(direct),
            domain,
            text_view(prefixed),
            text_view(search),
        ),
{
    if direct.is_some() {
        direct
    } else if domain && prefixed.is_some() {
        prefixed
    } else {
        search
    }
}

/// Resolves a request typed into the URL bar.
pub fn resolve_location(request: &str) -> (location: Option<String>)
    ensures
        text_view(location) == resolution(request@),
{
    let direct = parse_url(request);
    let domain = has_suffix(request, ".com") || has_suffix(request, ".org") || has_suffix(
        request,
        ".net",
    );
    let prefixed = parse_url(String::from_str("http://").concat(request).as_str());
    let search = parse_url(
        String::from_str("https://duckduckgo.com/html/?q=").concat(request).as_str(),
    );
    choose_location(direct, domain, prefixed, search)
}

} // verus!

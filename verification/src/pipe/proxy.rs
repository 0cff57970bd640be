use vstd::prelude::*;

use crate::common::strutil::starts_with;

verus! {

/// The scheme class a target URL names.
#[derive(PartialEq, Eq, Structural)]
pub enum UrlScheme {
    Http,
    Https,
    Other,
}

/// Scheme dispatch: a `https://` target uses a TLS connection, a
/// `http://` target a plain one, anything else is unsupported.
pub open spec fn spec_classify_scheme(url: Seq<char>) -> UrlScheme {
    if url.len() >= 8 && url.take(8) == "https://"@ {
        UrlScheme::Https
    } else if url.len() >= 7 && url.take(7) == "http://"@ {
        UrlScheme::Http
    } else {
        UrlScheme::Other
    }
}

/// Classify a target URL by its scheme prefix.
pub fn classify_scheme(url: &str) -> (r: UrlScheme)
    ensures
        r == spec_classify_scheme(url@),
{
    proof {
        reveal_strlit("https://");
        reveal_strlit("http://");
    }
    if starts_with(url, "https://") {
        UrlScheme::Https
    } else if starts_with(url, "http://") {
        UrlScheme::Http
    } else {
        UrlScheme::Other
    }
}

/// The outbound URI: the configured target, with the client's query
/// string carried over when there is one.
pub open spec fn spec_forward_uri(forward_url: Seq<char>, query: Option<Seq<char>>) -> Seq<
    char,
> {
    match query {
        Some(q) => forward_url + "?"@ + q,
        None => forward_url,
    }
}

/// Rebuild the outbound URI text, preserving the client's query string.
pub fn forward_uri(forward_url: &str, query: Option<&str>) -> (r: String)
    ensures
        ({
            let qv = match query {
                Some(q) => Some(q@),
                None => None,
            };
            r@ == spec_forward_uri(forward_url@, qv)
        }),
{
    match query {
        Some(q) => {
            let mut s = forward_url.to_owned();
            s.append("?");
            s.append(q);
            s
        },
        None => forward_url.to_owned(),
    }
}

/// The one header value forced onto every proxied request: compressed
/// transfer is declined, since no decompression is implemented.
pub fn accept_encoding_identity() -> (r: &'static str)
    ensures
        r@ == "identity"@,
{
    "identity"
}


/// What http's URI parser finds as the host of a URI's text: a function
/// of the text alone, and nothing when the text does not parse or names
/// no authority.
pub uninterp spec fn host_of(s: Seq<char>) -> Option<Seq<char>>;

/// Relies on http's `Uri::from_str` and `Uri::host`: the authority's
/// host of the parsed URI, when the text parses and names one.
#[verifier::external_body]
fn target_host(s: &str) -> (r: Option<String>)
    ensures
        match r {
            Some(h) => host_of(s@) == Some(h@),
            None => host_of(s@) is None,
        },
{
    s.parse::<http::Uri>().ok().and_then(|u| u.host().map(|h| h.to_owned()))
}

/// The plain parts of a proxied request: the outbound URI text with the
/// client's query string attached, and the Host header value that URI
/// implies for transparent forwarding.
pub fn proxied_request_parts(forward_url: &str, query: Option<&str>) -> (r: (
    String,
    Option<String>,
))
    ensures
        ({
            let qv = match query {
                Some(q) => Some(q@),
                None => None,
            };
            &&& r.0@ == spec_forward_uri(forward_url@, qv)
            &&& match r.1 {
                Some(h) => host_of(r.0@) == Some(h@),
                None => host_of(r.0@) is None,
            }
        }),
{
    let uri_text = forward_uri(forward_url, query);
    let host = target_host(uri_text.as_str());
    (uri_text, host)
}

} // verus!

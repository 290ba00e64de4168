//! URLs, as the `url` crate reads them (WHATWG URL Standard).
use vstd::prelude::*;

verus! {

/// The serialization of the URL that `::url::Url::parse` reads from `s`, or
/// `None` when it rejects `s`.
pub uninterp spec fn url_serialization(s: Seq<char>) -> Option<Seq<char>>;

/// The serialization of `href` resolved against the URL `base`
/// (`Url::parse(base)` then `Url::join(href)`), or `None` when either step
/// fails.
pub uninterp spec fn url_join_serialization(base: Seq<char>, href: Seq<char>) -> Option<Seq<char>>;

/// The serialization of the URL parsed from `base` with its query set to
/// `query` (`Url::parse(base)` then `Url::set_query(Some(query))`), or
/// `None` when `base` does not parse.
pub uninterp spec fn url_with_query_serialization(base: Seq<char>, query: Seq<char>) -> Option<
    Seq<char>,
>;

/// `href` resolved against the URL `base` (`Url::parse(base)` then
/// `Url::join(href)`), serialized; or the message of the error of the
/// step that failed.
pub uninterp spec fn url_join_result(base: Seq<char>, href: Seq<char>) -> Result<Seq<char>, Seq<char>>;

/// The parts of the URL read from `s`: scheme, host, explicit port and
/// path; or the parse error's message.
pub uninterp spec fn url_components(s: Seq<char>) -> Result<
    (Seq<char>, Option<Seq<char>>, Option<u16>, Seq<char>),
    Seq<char>,
>;

/// `str::to_lowercase`: the Unicode lowercase mapping of each character.
pub uninterp spec fn lowercase(s: Seq<char>) -> Seq<char>;

pub open spec fn opt_str_view(o: Option<String>) -> Option<Seq<char>> {
    match o {
        Some(s) => Some(s@),
        None => None,
    }
}

/// A URL taken apart.
#[derive(Debug, Clone)]
pub struct UrlParts {
    pub scheme: String,
    pub host: Option<String>,
    pub port: Option<u16>,
    pub path: String,
}

pub open spec fn url_parts_view(r: Result<UrlParts, String>) -> Result<
    (Seq<char>, Option<Seq<char>>, Option<u16>, Seq<char>),
    Seq<char>,
> {
    match r {
        Ok(p) => Ok((p.scheme@, opt_str_view(p.host), p.port, p.path@)),
        Err(e) => Err(e@),
    }
}

/// `::url::Url::parse`, kept as its text form (`Url::to_string`).
#[verifier::external_body]
pub(crate) fn parse_url_text(s: &str) -> (r: Option<String>)
    ensures
        opt_str_view(r) == url_serialization(s@),
{
    ::url::Url::parse(s).ok().map(|u| u.to_string())
}

/// `url::Url::join` of `href` onto the URL parsed from `base`, as text.
#[verifier::external_body]
pub(crate) fn join_url_text(base: &str, href: &str) -> (r: Option<String>)
    ensures
        opt_str_view(r) == url_join_serialization(base@, href@),
{
    ::url::Url::parse(base).ok().and_then(|b| b.join(href).ok()).map(|u| u.to_string())
}

/// `url::Url::join` of `href` onto the URL parsed from `base`, as text, or
/// the error's message.
#[verifier::external_body]
pub(crate) fn join_url(base: &str, href: &str) -> (r: Result<String, String>)
    ensures
        match r {
            Ok(s) => url_join_result(base@, href@) == Ok::<Seq<char>, Seq<char>>(s@),
            Err(e) => url_join_result(base@, href@) == Err::<Seq<char>, Seq<char>>(e@),
        },
{
    match ::url::Url::parse(base) {
        Ok(b) => match b.join(href) {
            Ok(u) => Ok(u.to_string()),
            Err(e) => Err(e.to_string()),
        },
        Err(e) => Err(e.to_string()),
    }
}

/// `url::Url::set_query` with `Some(query)` on the URL parsed from `base`,
/// as text.
#[verifier::external_body]
pub(crate) fn set_url_query(base: &str, query: &str) -> (r: Option<String>)
    ensures
        opt_str_view(r) == url_with_query_serialization(base@, query@),
{
    match ::url::Url::parse(base) {
        Ok(mut u) => {
            u.set_query(Some(query));
            Some(u.to_string())
        },
        Err(_) => None,
    }
}

/// `::url::Url::parse`, taken apart: `scheme()`, `host_str()`, `port()` and
/// `path()`; a rejected URL gives the error's message.
#[verifier::external_body]
pub(crate) fn parse_url_parts(s: &str) -> (r: Result<UrlParts, String>)
    ensures
        url_parts_view(r) == url_components(s@),
{
    match ::url::Url::parse(s) {
        Ok(u) => Ok(
            UrlParts {
                scheme: u.scheme().to_string(),
                host: u.host_str().map(|h| h.to_string()),
                port: u.port(),
                path: u.path().to_string(),
            },
        ),
        Err(e) => Err(e.to_string()),
    }
}

/// `str::to_lowercase`.
#[verifier::external_body]
pub(crate) fn to_lowercase(s: &str) -> (r: String)
    ensures
        r@ == lowercase(s@),
{
    s.to_lowercase()
}

} // verus!

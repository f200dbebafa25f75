//! The parts of a URL that the results report, read with the `url` crate.
use vstd::prelude::*;
use url::Url;

verus! {

#[verifier::external_type_specification]
#[verifier::external_body]
pub struct ExUrl(Url);

/// Whether `url::Url::parse` accepts the text.
pub uninterp spec fn url_parses(text: Seq<char>) -> bool;

/// What `Url::host_str` gives for the URL parsed from the text.
pub uninterp spec fn url_host_str(text: Seq<char>) -> Option<Seq<char>>;

/// What `Url::host` gives for the URL parsed from the text, written out with `Display`.
pub uninterp spec fn url_host_display(text: Seq<char>) -> Option<Seq<char>>;

/// What `Url::path` gives for the URL parsed from the text.
pub uninterp spec fn url_path(text: Seq<char>) -> Seq<char>;

/// A URL that `url::Url::parse` accepted, with the text it was parsed from.
pub struct ParsedUrl {
    url: Url,
    text: Ghost<Seq<char>>,
}

impl ParsedUrl {
    /// The text the URL was parsed from.
    pub closed spec fn source(&self) -> Seq<char> {
        self.text@
    }
}

/// Calls `url::Url::parse`: a URL when the text parses (`url_parses`), else none.
#[verifier::external_body]
pub(crate) fn parse_url(text: &str) -> (r: Option<ParsedUrl>)
    ensures
        r is Some <==> url_parses(text@),
        r matches Some(u) ==> u.source() == text@,
{
    match Url::parse(text) {
        Ok(url) => Some(ParsedUrl { url, text: Ghost(text@) }),
        Err(_) => None,
    }
}

/// Calls `Url::host_str`: the host as written in the URL, if it has one.
#[verifier::external_body]
pub(crate) fn host_str(u: &ParsedUrl) -> (r: Option<String>)
    ensures
        r is Some <==> url_host_str(u.source()) is Some,
        r matches Some(h) ==> url_host_str(u.source()) == Some(h@),
{
    u.url.host_str().map(|h| h.to_string())
}

/// Calls `Url::host` and writes the host out with `Display`, if there is one.
#[verifier::external_body]
pub(crate) fn host_display(u: &ParsedUrl) -> (r: Option<String>)
    ensures
        r is Some <==> url_host_display(u.source()) is Some,
        r matches Some(h) ==> url_host_display(u.source()) == Some(h@),
{
    u.url.host().map(|h| h.to_string())
}

/// Calls `Url::path`.
#[verifier::external_body]
pub(crate) fn path(u: &ParsedUrl) -> (r: String)
    ensures
        r@ == url_path(u.source()),
{
    u.url.path().to_string()
}

/// The host part of a URL for grouping errors: the host as written, or `"-"`
/// when the text is no URL or the URL has no host.
pub open spec fn host_key(text: Seq<char>) -> Seq<char> {
    if url_parses(text) {
        match url_host_str(text) {
            Some(h) => h,
            None => "-"@,
        }
    } else {
        "-"@
    }
}

/// The host and path a result reports for a URL: both empty when the text is
/// no URL, and the host empty when the URL has none.
pub open spec fn host_and_path(text: Seq<char>) -> (Seq<char>, Seq<char>) {
    if url_parses(text) {
        (
            match url_host_display(text) {
                Some(h) => h,
                None => Seq::empty(),
            },
            url_path(text),
        )
    } else {
        (Seq::empty(), Seq::empty())
    }
}

/// The host part of a URL for grouping errors (see `host_key`).
pub fn host_of(url: &str) -> (r: String)
    ensures
        r@ == host_key(url@),
{
    broadcast use vstd::string::group_string_axioms;

    match parse_url(url) {
        Some(u) => match host_str(&u) {
            Some(h) => h,
            None => "-".to_string(),
        },
        None => "-".to_string(),
    }
}

/// The host and path a result reports for a URL (see `host_and_path`).
pub fn split_host_path(url: &str) -> (r: (String, String))
    ensures
        (r.0@, r.1@) == host_and_path(url@),
{
    match parse_url(url) {
        Some(u) => {
            let host = match host_display(&u) {
                Some(h) => h,
                None => String::new(),
            };
            (host, path(&u))
        },
        None => (String::new(), String::new()),
    }
}

} // verus!

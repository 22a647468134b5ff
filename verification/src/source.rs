use vstd::prelude::*;

verus! {

/// How the text of a play request is handed to the external downloader:
/// fetched directly as a URL, or looked up as a search query.
#[derive(Debug, PartialEq, Eq, Structural)]
pub enum SourceKind {
    Direct,
    Search,
}

/// Whether `url::Url::parse` accepts the text as an absolute URL; the
/// outcome is a function of the text alone.
pub uninterp spec fn url_parse_ok(s: Seq<char>) -> bool;

/// Relies on url::Url::parse: it parses an absolute URL from the string and
/// returns `Ok` exactly when the string is one; the outcome depends on the
/// string alone.
#[verifier::external_body]
fn is_absolute_url(s: &str) -> (r: bool)
    ensures
        r == url_parse_ok(s@),
{
    url::Url::parse(s).is_ok()
}

/// Decide whether a play request names a URL to fetch directly or a phrase
/// to search for.
pub fn classify_source(song_url: &str) -> (r: SourceKind)
    ensures
        r == (if url_parse_ok(song_url@) {
            SourceKind::Direct
        } else {
            SourceKind::Search
        }),
{
    if is_absolute_url(song_url) {
        SourceKind::Direct
    } else {
        SourceKind::Search
    }
}

} // verus!

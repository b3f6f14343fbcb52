//! The body text of the article that a news item links to.

use vstd::prelude::*;
use crate::collector::sources::opt_view;
use crate::text::{trim, trimmed};

verus! {

/// Whether `link` is a URL.
pub uninterp spec fn is_url(link: Seq<char>) -> bool;

/// The main body text that the readability algorithm extracts from the page `html`
/// found at the URL `link`, or `None` if it cannot.
pub uninterp spec fn readable_text(html: Seq<char>, link: Seq<char>) -> Option<Seq<char>>;

/// Whether `link` parses as a URL (`url::Url::parse`). The result is named by `is_url`:
/// it depends on `link` alone.
#[verifier::external_body]
fn parse_url(link: &str) -> (b: bool)
    ensures
        b == is_url(link@),
{
    url::Url::parse(link).is_ok()
}

/// The body text of a page (`readability::extractor::extract`, given the page's bytes
/// and its URL parsed by `url::Url::parse`). The result is named by `readable_text`:
/// it depends on the page and the link alone.
#[verifier::external_body]
fn extract_readable(html: &str, link: &str) -> (r: Option<String>)
    ensures
        opt_view(r) == readable_text(html@, link@),
{
    let url = url::Url::parse(link).ok()?;
    readability::extractor::extract(&mut html.as_bytes(), &url).ok().map(|p| p.text)
}

/// Why no article body could be had.
#[derive(Debug, PartialEq, Eq, Structural)]
pub enum ContentError {
    /// The link is not a URL.
    InvalidUrl,
    /// The page's body could not be extracted.
    Unreadable,
    /// The extracted body is empty or white space only.
    Empty,
}

/// Checks that an article link is a URL, before its page is fetched.
pub fn check_link(link: &str) -> (r: Result<(), ContentError>)
    ensures
        r is Ok <==> is_url(link@),
        r is Err ==> r == Err::<(), ContentError>(ContentError::InvalidUrl),
{
    if parse_url(link) {
        Ok(())
    } else {
        Err(ContentError::InvalidUrl)
    }
}

/// An extracted article body, refused if it is blank.
pub fn non_blank(text: String) -> (r: Result<String, ContentError>)
    ensures
        trimmed(text@).len() == 0 ==> r == Err::<String, ContentError>(ContentError::Empty),
        trimmed(text@).len() > 0 ==> r is Ok && r->Ok_0@ == text@,
{
    if trim(text.as_str()).as_str().is_empty() {
        Err(ContentError::Empty)
    } else {
        Ok(text)
    }
}

/// The body text of the article page `html` fetched from `link`: the text that the
/// readability algorithm extracts, unless that text is blank.
pub fn extract_content(link: &str, html: &str) -> (r: Result<String, ContentError>)
    ensures
        match readable_text(html@, link@) {
            None => r == Err::<String, ContentError>(ContentError::Unreadable),
            Some(t) => if trimmed(t).len() == 0 {
                r == Err::<String, ContentError>(ContentError::Empty)
            } else {
                r is Ok && r->Ok_0@ == t
            },
        },
{
    match extract_readable(html, link) {
        Some(t) => non_blank(t),
        None => Err(ContentError::Unreadable),
    }
}

} // verus!

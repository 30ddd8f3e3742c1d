//! Trusted bindings for HTML extraction.
//!
//! Each extraction is named by an uninterpreted function of the document
//! text alone: the crawler's logic is verified over those names, and the
//! outside parser only supplies the raw title text, body text and anchor
//! targets.

use vstd::prelude::*;

verus! {

/// The text of the first `title` element, or nothing when the document
/// has none.
pub uninterp spec fn html_title(doc: Seq<char>) -> Option<Seq<char>>;

/// Relies on scraper::Html::parse_document and scraper::Selector: the text
/// of the first `title` element, determined by the document alone.
#[verifier::external_body]
pub(crate) fn extract_title(doc: &str) -> (r: Option<String>)
    ensures
        match r {
            Option::Some(t) => html_title(doc@) == Option::Some(t@),
            Option::None => html_title(doc@) is None,
        },
{
    let parsed = scraper::Html::parse_document(doc);
    let sel = match scraper::Selector::parse("title") {
        Ok(s) => s,
        Err(_) => return Option::None,
    };
    match parsed.select(&sel).next() {
        Some(el) => Option::Some(el.text().collect::<Vec<_>>().concat()),
        None => Option::None,
    }
}

/// The concatenated text of the `body` element, with the document's own
/// whitespace still in place.
pub uninterp spec fn html_body_text(doc: Seq<char>) -> Seq<char>;

/// Relies on scraper::Html::parse_document and scraper::Selector: the text
/// under `body`, concatenated in document order, determined by the
/// document alone. Empty when there is no body.
#[verifier::external_body]
pub(crate) fn extract_body_text(doc: &str) -> (r: String)
    ensures
        r@ == html_body_text(doc@),
{
    let parsed = scraper::Html::parse_document(doc);
    let sel = match scraper::Selector::parse("body") {
        Ok(s) => s,
        Err(_) => return String::new(),
    };
    match parsed.select(&sel).next() {
        Some(el) => el.text().collect::<Vec<_>>().concat(),
        None => String::new(),
    }
}

/// The `href` target of each anchor element, in document order.
pub uninterp spec fn html_links(doc: Seq<char>) -> Seq<Seq<char>>;

/// Relies on scraper::Html::parse_document and scraper::Selector: the href
/// attribute of each `a[href]` element, in document order, determined by
/// the document alone.
#[verifier::external_body]
pub(crate) fn extract_links(doc: &str) -> (r: Vec<String>)
    ensures
        r.deep_view() == html_links(doc@),
{
    let parsed = scraper::Html::parse_document(doc);
    let sel = match scraper::Selector::parse("a[href]") {
        Ok(s) => s,
        Err(_) => return Vec::new(),
    };
    parsed.select(&sel).filter_map(|el| el.attr("href")).map(|h| h.to_owned()).collect()
}

} // verus!

//! What the crawler reads out of an HTML document, through the `scraper` crate.
//!
//! The crate is built with its `deterministic` feature: an element keeps its
//! attributes in source order, so the inner HTML written for a document is
//! the same on every call.  Matched elements come in the order in which
//! `Html::select` walks the parsed tree, the order its nodes were created.

use vstd::prelude::*;
use crate::text::strings_view;

verus! {

/// Whether `scraper::Selector::parse` accepts `selector`.
pub uninterp spec fn css_selector_parses(selector: Seq<char>) -> bool;

/// The inner HTML of each element of the document `html` that `selector`
/// matches, in the order `Html::select` yields them; attributes are written
/// in source order.
pub uninterp spec fn scraped_inner_html(html: Seq<char>, selector: Seq<char>) -> Seq<Seq<char>>;

/// The descendant text nodes of each element of the document `html` that
/// `selector` matches, in the order `Html::select` yields them.
pub uninterp spec fn scraped_text(html: Seq<char>, selector: Seq<char>) -> Seq<Seq<Seq<char>>>;

/// The value of attribute `attr` of each element of the document `html` that
/// `selector` matches, in the order `Html::select` yields them, `None` where
/// it has no such attribute.
pub uninterp spec fn scraped_attr(html: Seq<char>, selector: Seq<char>, attr: Seq<char>) -> Seq<
    Option<Seq<char>>,
>;

/// The characters of each string of each list.
pub open spec fn string_lists_view(v: Seq<Vec<String>>) -> Seq<Seq<Seq<char>>> {
    v.map_values(|x: Vec<String>| strings_view(x@))
}

/// The characters of each string that is there.
pub open spec fn opt_strings_view(v: Seq<Option<String>>) -> Seq<Option<Seq<char>>> {
    v.map_values(
        |o: Option<String>|
            match o {
                Some(s) => Some(s@),
                None => None,
            },
    )
}

/// Parses `selector` with `scraper::Selector::parse` and `html` with
/// `scraper::Html::parse_document`, and takes `inner_html()` of each element
/// that `Html::select` yields.  Claimed: `None` exactly where the selector does
/// not parse, else `scraped_inner_html(html, selector)`.
#[verifier::external_body]
pub(crate) fn select_inner_html(html: &str, selector: &str) -> (r: Option<Vec<String>>)
    ensures
        r is Some <==> css_selector_parses(selector@),
        r matches Some(v) ==> strings_view(v@) == scraped_inner_html(html@, selector@),
{
    let sel = match scraper::Selector::parse(selector) {
        Ok(sel) => sel,
        Err(_) => return None,
    };
    let doc = scraper::Html::parse_document(html);
    Some(doc.select(&sel).map(|e| e.inner_html()).collect())
}

/// As `select_inner_html`, with the text nodes that `ElementRef::text()`
/// yields for each element in place of its inner HTML.  Claimed: `None`
/// exactly where the selector does not parse, else `scraped_text(html, selector)`.
#[verifier::external_body]
pub(crate) fn select_text(html: &str, selector: &str) -> (r: Option<Vec<Vec<String>>>)
    ensures
        r is Some <==> css_selector_parses(selector@),
        r matches Some(v) ==> string_lists_view(v@) == scraped_text(html@, selector@),
{
    let sel = match scraper::Selector::parse(selector) {
        Ok(sel) => sel,
        Err(_) => return None,
    };
    let doc = scraper::Html::parse_document(html);
    Some(doc.select(&sel).map(|e| e.text().map(|t| t.to_string()).collect()).collect())
}

/// As `select_inner_html`, with `value().attr(attr)` of each element in place
/// of its inner HTML.  Claimed: `None` exactly where the selector does not
/// parse, else `scraped_attr(html, selector, attr)`.
#[verifier::external_body]
pub(crate) fn select_attr(html: &str, selector: &str, attr: &str) -> (r: Option<Vec<Option<String>>>)
    ensures
        r is Some <==> css_selector_parses(selector@),
        r matches Some(v) ==> opt_strings_view(v@) == scraped_attr(html@, selector@, attr@),
{
    let sel = match scraper::Selector::parse(selector) {
        Ok(sel) => sel,
        Err(_) => return None,
    };
    let doc = scraper::Html::parse_document(html);
    Some(doc.select(&sel).map(|e| e.value().attr(attr).map(|a| a.to_string())).collect())
}

} // verus!

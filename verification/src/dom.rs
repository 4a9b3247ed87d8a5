//! The HTML side of the library: documents, selectors and elements of the
//! `scraper` crate, and the few calls into it that the extraction makes.
//!
//! Nothing in this file is proved. Each function below makes one call into
//! `scraper`, and its contract gives the result a name and says no more of
//! it. The names stand for what `scraper` computes; the extraction is
//! proved to combine them as it should.

use vstd::prelude::*;
use scraper::{ElementRef, Html, Selector};

verus! {

/// `scraper::Html`, a parsed document. Its contents are not visible here.
#[verifier::external_type_specification]
#[verifier::external_body]
pub struct ExHtml(Html);

/// `scraper::Selector`, a compiled group of CSS selectors.
#[verifier::external_type_specification]
#[verifier::external_body]
pub struct ExSelector(Selector);

/// `scraper::ElementRef`, a reference to one element of a document.
#[verifier::external_type_specification]
#[verifier::external_body]
pub struct ExElementRef<'a>(ElementRef<'a>);

/// The document that `Html::parse_document` builds from `text`.
pub uninterp spec fn parsed_html(text: Seq<char>) -> Html;

/// What `Selector::parse` makes of `pattern`: the selector, or `None` where
/// it rejects the pattern.
pub uninterp spec fn compiled_selector(pattern: Seq<char>) -> Option<Selector>;

/// The elements that `Html::select` yields for `selector`, in the order in
/// which it yields them.
pub uninterp spec fn document_matches(doc: Html, selector: Selector) -> Seq<ElementRef<'static>>;

/// The elements that `ElementRef::select` yields for `selector` among the
/// descendants of `element`, in the order in which it yields them.
pub uninterp spec fn element_matches(element: ElementRef<'_>, selector: Selector) -> Seq<
    ElementRef<'static>,
>;

/// The text nodes that `ElementRef::text` yields for `element`, in the
/// order in which it yields them.
pub uninterp spec fn element_text_nodes(element: ElementRef<'_>) -> Seq<Seq<char>>;

/// Trusted: calls `Html::parse_document`, which accepts any text and always
/// returns a document; the document depends on the text alone.
#[verifier::external_body]
pub(crate) fn parse_document(text: &str) -> (doc: Html)
    ensures
        doc == parsed_html(text@),
{
    Html::parse_document(text)
}

/// Trusted: calls `Selector::parse` and keeps the selector, dropping the
/// error of a rejected pattern. Nothing is claimed about which patterns are
/// accepted, only that the outcome depends on the pattern alone.
#[verifier::external_body]
pub(crate) fn compile_selector(pattern: &str) -> (compiled: Option<Selector>)
    ensures
        compiled == compiled_selector(pattern@),
{
    Selector::parse(pattern).ok()
}

/// Trusted: calls `Html::select` and collects what the iterator yields.
#[verifier::external_body]
pub(crate) fn select_in_document<'a>(doc: &'a Html, selector: &Selector) -> (found: Vec<
    ElementRef<'a>,
>)
    ensures
        found@ == document_matches(*doc, *selector),
{
    doc.select(selector).collect()
}

/// Trusted: calls `ElementRef::select` and collects what the iterator
/// yields.
#[verifier::external_body]
pub(crate) fn select_in_element<'a>(element: &ElementRef<'a>, selector: &Selector) -> (found: Vec<
    ElementRef<'a>,
>)
    ensures
        found@ == element_matches(*element, *selector),
{
    element.select(selector).collect()
}

/// Trusted: calls `ElementRef::text` and collects the text nodes that the
/// iterator yields, each as it stands in the document.
#[verifier::external_body]
pub(crate) fn text_nodes<'a>(element: &ElementRef<'a>) -> (pieces: Vec<&'a str>)
    ensures
        pieces.deep_view() == element_text_nodes(*element),
{
    element.text().collect()
}

} // verus!

//! The parsed page: what extraction reads from it, through scraper.
use vstd::prelude::*;
use crate::media::source_views;
use crate::text::{container_views, TextContainer};

verus! {

/// For each element of the HTML document that the CSS selector matches, in
/// the order in which the parser created the elements (document order for
/// well-formed markup), its direct child text nodes, in order, and all text
/// under it; none where the selector does not parse.
pub uninterp spec fn text_containers_of(html: Seq<char>, selector: Seq<char>) -> Seq<
    (Seq<Seq<char>>, Seq<Seq<char>>),
>;

/// For each element of the HTML document that the CSS selector matches, in
/// the order in which the parser created the elements (document order for
/// well-formed markup), its `src` attribute if it has one; none where the
/// selector does not parse.
pub uninterp spec fn image_sources_of(html: Seq<char>, selector: Seq<char>) -> Seq<
    Option<Seq<char>>,
>;

/// Relies on scraper's `Selector::parse`, `Html::parse_document`,
/// `Html::select`, ego-tree's `children`, and scraper's `Node::as_text` and
/// `ElementRef::text`: the result depends on the two strings alone.
#[verifier::external_body]
pub(crate) fn select_text_containers(html: &str, selector: &str) -> (r: Vec<TextContainer>)
    ensures
        container_views(r@) == text_containers_of(html@, selector@),
{
    match scraper::Selector::parse(selector) {
        Ok(sel) => scraper::Html::parse_document(html).select(&sel).map(
            |e| TextContainer::new(
                e.children().filter_map(|c| c.value().as_text().map(|t| t.to_string())).collect(),
                e.text().map(|t| t.to_string()).collect(),
            ),
        ).collect(),
        Err(_) => Vec::new(),
    }
}

/// Relies on scraper's `Selector::parse`, `Html::parse_document`,
/// `Html::select` and `ElementRef::attr`: the result depends on the two
/// strings alone.
#[verifier::external_body]
pub(crate) fn select_image_sources(html: &str, selector: &str) -> (r: Vec<Option<String>>)
    ensures
        source_views(r@) == image_sources_of(html@, selector@),
{
    match scraper::Selector::parse(selector) {
        Ok(sel) => scraper::Html::parse_document(html).select(&sel).map(
            |e| e.attr("src").map(|s| s.to_string()),
        ).collect(),
        Err(_) => Vec::new(),
    }
}

} // verus!

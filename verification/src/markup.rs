//! What the library takes from the HTML parser and the entity decoder.
//!
//! Parsing a document and decoding character references are done by the
//! `scraper` and `html_escape` crates. Their results are given names here;
//! the rest of the library is proved against those names.

use vstd::prelude::*;

verus! {

/// An anchor element as the parser reports it.
#[derive(Debug, Clone, PartialEq, Eq)]
pub struct Hyperlink {
    /// Value of the `href` attribute; `None` where the anchor has none.
    pub target: Option<String>,
    /// Markup between the anchor's tags.
    pub body: String,
}

/// The mathematical value of a [`Hyperlink`].
pub struct HyperlinkView {
    pub target: Option<Seq<char>>,
    pub body: Seq<char>,
}

impl View for Hyperlink {
    type V = HyperlinkView;

    open spec fn view(&self) -> HyperlinkView {
        HyperlinkView {
            target: match self.target {
                Some(t) => Some(t@),
                None => None,
            },
            body: self.body@,
        }
    }
}

/// The views of a sequence of hyperlinks, in order.
pub open spec fn hyperlink_views(links: Seq<Hyperlink>) -> Seq<HyperlinkView> {
    Seq::new(links.len(), |i: int| links[i]@)
}

/// The inner markup of each `td` element of `document`, in the order in
/// which the parser's selector yields them.
pub uninterp spec fn cell_markup(document: Seq<char>) -> Seq<Seq<char>>;

/// The `a` elements of `markup`, parsed as a document of its own, in the
/// order in which the parser's selector yields them.
pub uninterp spec fn anchors(markup: Seq<char>) -> Seq<HyperlinkView>;

/// `text` with its character references replaced by the characters they
/// stand for.
pub uninterp spec fn decoded_entities(text: Seq<char>) -> Seq<char>;

/// Trusted: `scraper::Html::parse_document` followed by a selection of `td`
/// and `ElementRef::inner_html` on each match. The contract only names the
/// result: the same document always gives the same cells.
#[verifier::external_body]
pub(crate) fn table_cells(document: &str) -> (cells: Vec<String>)
    ensures
        crate::entry::texts(cells@) == cell_markup(document@),
{
    let tree = scraper::Html::parse_document(document);
    let selector = scraper::Selector::parse("td").unwrap();
    tree.select(&selector).map(|cell| cell.inner_html()).collect()
}

/// Trusted: `scraper::Html::parse_document` followed by a selection of `a`;
/// each match is handed out as its `href` attribute (`Element::attr`) and
/// its `ElementRef::inner_html`. The contract only names the result.
#[verifier::external_body]
pub(crate) fn hyperlinks(markup: &str) -> (links: Vec<Hyperlink>)
    ensures
        hyperlink_views(links@) == anchors(markup@),
{
    let tree = scraper::Html::parse_document(markup);
    let selector = scraper::Selector::parse("a").unwrap();
    tree.select(&selector)
        .map(|a| Hyperlink { target: a.value().attr("href").map(String::from), body: a.inner_html() })
        .collect()
}

/// Trusted: `html_escape::decode_html_entities`. The contract names the
/// result and repeats the one thing the decoder's source shows at a glance:
/// it searches for `&`, and a text without one is returned as it is.
#[verifier::external_body]
pub(crate) fn decode_entities(text: &str) -> (decoded: String)
    ensures
        decoded@ == decoded_entities(text@),
        !text@.contains('&') ==> decoded@ == text@,
{
    html_escape::decode_html_entities(text).into_owned()
}

} // verus!

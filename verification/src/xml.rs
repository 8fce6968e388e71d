//! A narrow trusted layer over the XML utility: a well-formedness check
//! and first-descendant text extraction, both functions of the raw
//! response text alone.

use vstd::prelude::*;

verus! {

/// The view of an optional owned string.
pub open spec fn opt_view(o: Option<String>) -> Option<Seq<char>> {
    match o {
        Some(s) => Some(s@),
        None => None,
    }
}

/// The optional text, or the empty string when absent.
pub open spec fn or_empty(o: Option<Seq<char>>) -> Seq<char> {
    match o {
        Some(s) => s,
        None => Seq::empty(),
    }
}

/// Whether `roxmltree::Document::parse` accepts `body` as a well-formed
/// document; a function of the text alone.
pub uninterp spec fn xml_parses(body: Seq<char>) -> bool;

/// The text of the first descendant element named `tag` in the document
/// parsed from `body`: `None` when the body does not parse, no such
/// element exists, or the element holds no text. A function of the two
/// texts alone.
pub uninterp spec fn xml_text_of(body: Seq<char>, tag: Seq<char>) -> Option<Seq<char>>;

/// Relies on roxmltree::Document::parse: whether it accepts the body,
/// and the parse error's own text when it does not.
#[verifier::external_body]
pub(crate) fn xml_parse_error(body: &str) -> (r: Option<String>)
    ensures
        r is None <==> xml_parses(body@),
{
    roxmltree::Document::parse(body).err().map(|e| e.to_string())
}

/// Relies on roxmltree::Document::parse, Node::has_tag_name and
/// Node::text: the text of the first descendant element named `tag`,
/// in document order, of the document parsed from the body.
#[verifier::external_body]
pub(crate) fn xml_child_text(body: &str, tag: &str) -> (r: Option<String>)
    ensures
        opt_view(r) == xml_text_of(body@, tag@),
        !xml_parses(body@) ==> r is None,
{
    let doc = roxmltree::Document::parse(body).ok()?;
    let node = doc.descendants().find(|n| n.has_tag_name(tag))?;
    node.text().map(|s| s.to_string())
}

} // verus!

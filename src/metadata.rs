//! Descriptive metadata of an item, read from its metadata document.
use vstd::prelude::*;
use crate::mp3metadata::{extract_tag, tag_values};
use crate::text::chars_of;

verus! {

/// What `html_escape::decode_html_entities` returns for the given text.
pub uninterp spec fn entities_decoded(s: Seq<char>) -> Seq<char>;

/// What `html2md::parse_html` returns for the given HTML.
pub uninterp spec fn markdown_of_html(s: Seq<char>) -> Seq<char>;

/// Relies on `html_escape::decode_html_entities`: character references
/// replaced by the characters they stand for; the result depends on the
/// text alone, and a text without '&' is returned as it is.
#[verifier::external_body]
fn decode_entities(s: &str) -> (r: String)
    ensures
        r@ == entities_decoded(s@),
        (forall|i: int| 0 <= i < s@.len() ==> #[trigger] s@[i] != '&') ==> r@ == s@,
{
    html_escape::decode_html_entities(s).to_string()
}

/// Relies on `html2md::parse_html`: the Markdown rendering of an HTML
/// fragment, which depends on the fragment alone.
#[verifier::external_body]
fn html_to_markdown(s: &str) -> (r: String)
    ensures
        r@ == markdown_of_html(s@),
{
    html2md::parse_html(s)
}

/// The description of an item as Markdown, from the raw value of its
/// `description` tag.
pub open spec fn description_text(raw: Seq<char>) -> Seq<char> {
    markdown_of_html(entities_decoded(raw))
}

/// The descriptive metadata of an item.
pub struct Metadata {
    pub identifier: String,
    pub description: String,
}

impl Metadata {
    /// Reads an item's metadata document: the first `identifier` value and
    /// the first `description` value, the latter with its character
    /// references decoded and its markup turned into Markdown. `None` when
    /// either tag is missing.
    pub fn new(content: &str) -> (r: Option<Metadata>)
        ensures
            r is None <==> tag_values(content@, "identifier"@).len() == 0 || tag_values(
                content@,
                "description"@,
            ).len() == 0,
            r matches Some(m) ==> m.identifier@ == tag_values(content@, "identifier"@)[0]
                && m.description@ == description_text(tag_values(content@, "description"@)[0]),
    {
        let doc = chars_of(content);
        let ids = extract_tag(&doc, "identifier");
        let descs = extract_tag(&doc, "description");
        if ids.len() == 0 || descs.len() == 0 {
            return None;
        }
        assert(ids@.map_values(|x: String| x@)[0] == ids@[0]@);
        assert(descs@.map_values(|x: String| x@)[0] == descs@[0]@);
        let identifier = ids[0].clone();
        let decoded = decode_entities(descs[0].as_str());
        let description = html_to_markdown(decoded.as_str());
        Some(Metadata { identifier, description })
    }

    /// Every value of `tag` in `xml`.
    pub fn get(tag: &str, xml: &str) -> (r: Vec<String>)
        ensures
            r@.map_values(|x: String| x@) == tag_values(xml@, tag@),
    {
        extract_tag(&chars_of(xml), tag)
    }
}

} // verus!

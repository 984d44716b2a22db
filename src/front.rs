//! Documents made of a front-matter block and a body.
use vstd::prelude::*;

verus! {

/// What `gray_matter::Matter::<YAML>::parse` finds in a document: the raw
/// front matter, the body, and the excerpt if one is marked.
pub uninterp spec fn matter_parts(text: Seq<char>) -> (Seq<char>, Seq<char>, Option<Seq<char>>);

/// The view of an optional string.
pub open spec fn opt_view(o: Option<String>) -> Option<Seq<char>> {
    match o {
        Some(s) => Some(s@),
        None => None,
    }
}

/// A document split into its parts.
pub struct FrontMatter {
    /// The front matter, trimmed, without its delimiters (empty if none).
    pub matter: String,
    /// The body.
    pub content: String,
    /// The excerpt marked in the body, if any.
    pub excerpt: Option<String>,
}

/// Relies on `gray_matter::Matter::<YAML>::parse`: raw front matter, body
/// and excerpt of a document, which depend on the text alone.
#[verifier::external_body]
fn parse_matter(text: &str) -> (r: FrontMatter)
    ensures
        (r.matter@, r.content@, opt_view(r.excerpt)) == matter_parts(text@),
{
    let parsed = gray_matter::Matter::<gray_matter::engine::YAML>::new().parse(text);
    FrontMatter { matter: parsed.matter, content: parsed.content, excerpt: parsed.excerpt }
}

/// Splits a record document into front matter, body and excerpt.
pub fn split_document(text: &str) -> (r: FrontMatter)
    ensures
        (r.matter@, r.content@, opt_view(r.excerpt)) == matter_parts(text@),
{
    parse_matter(text)
}

/// The document with front matter `matter` (serialised, ending in a newline)
/// and body `body`.
pub open spec fn document(matter: Seq<char>, body: Seq<char>) -> Seq<char> {
    "---\n"@ + matter + "---\n"@ + body
}

/// Frames a record document: a delimiter line, the front matter, a delimiter
/// line, the body.
pub fn compose_document(matter: &str, body: &str) -> (r: String)
    ensures
        r@ == document(matter@, body@),
{
    let mut d = String::from_str("---\n");
    d.append(matter);
    d.append("---\n");
    d.append(body);
    d
}

} // verus!

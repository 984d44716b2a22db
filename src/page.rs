//! Standalone pages.
use vstd::prelude::*;
use crate::front::{opt_view, FrontMatter};
use crate::render::{html_of_markdown, markdown_html};
use crate::site::{Layout, Post};
use crate::text::concat;
use crate::utils::{first_words, get_excerpt, get_slug, get_unix_time, slug_text, unix_day, EXCERPT_LENGTH};

verus! {

/// The persisted fields of a page.
pub struct Metadata {
    pub title: String,
    pub date: String,
    pub slug: String,
}

impl Metadata {
    pub fn get_filename(&self) -> (r: String)
        ensures
            r@ == "pages/"@ + self.slug@ + ".md"@,
    {
        let p = concat("pages/", self.slug.as_str());
        concat(p.as_str(), ".md")
    }
}

/// A page: its metadata, its excerpt and its Markdown body.
pub struct Page {
    pub metadata: Metadata,
    pub excerpt: String,
    pub content: String,
}

impl Page {
    /// The page held in a document, given its parts and its deserialised
    /// front matter, and whether the document must be written again (its
    /// slug had to be derived from the title, or it marks an excerpt). The
    /// excerpt is the marked one, or else the first words of the body.
    pub fn from_parts(metadata: Metadata, front: FrontMatter) -> (r: (Page, bool))
        ensures
            r.0.metadata.title == metadata.title,
            r.0.metadata.date == metadata.date,
            r.0.metadata.slug@ == if metadata.slug@.len() == 0 {
                slug_text(metadata.title@)
            } else {
                metadata.slug@
            },
            r.0.excerpt@ == if opt_view(front.excerpt) is Some {
                opt_view(front.excerpt)->0
            } else {
                first_words(front.content@, EXCERPT_LENGTH as nat)
            },
            r.0.content == front.content,
            r.1 == (metadata.slug@.len() == 0 || front.excerpt is Some),
    {
        let mut metadata = metadata;
        let mut save = false;
        if metadata.slug.as_str().is_empty() {
            metadata.slug = get_slug(metadata.title.as_str());
            save = true;
        }
        let excerpt = match front.excerpt {
            Some(e) => {
                save = true;
                e
            },
            None => get_excerpt(front.content.as_str()),
        };
        (Page { metadata, excerpt, content: front.content }, save)
    }

    pub fn get_filename(&self) -> (r: String)
        ensures
            r@ == "pages/"@ + self.metadata.slug@ + ".md"@,
    {
        self.metadata.get_filename()
    }

    pub fn get_title(&self) -> (r: String)
        ensures
            r == self.metadata.title,
    {
        self.metadata.title.clone()
    }

    pub fn get_date(&self) -> (r: String)
        ensures
            r == self.metadata.date,
    {
        self.metadata.date.clone()
    }

    pub fn get_slug(&self) -> (r: String)
        ensures
            r == self.metadata.slug,
    {
        self.metadata.slug.clone()
    }

    /// The page as a document to render.
    pub fn get_post(&self) -> (r: Post)
        ensures
            r.layout == Layout::Page,
            r.title == self.metadata.title,
            r.excerpt == self.excerpt,
            r.slug == self.metadata.slug,
            r.identifier == self.metadata.slug,
            r.date == unix_day(self.metadata.date@),
            r.content@ == html_of_markdown(self.content@),
            r.subject@.len() == 0,
            r.filename@.len() == 0,
            r.version == 0 && r.size == 0 && r.length == 0 && r.number == 0 && r.downloads == 0,
    {
        Post {
            layout: Layout::Page,
            slug: self.metadata.slug.clone(),
            excerpt: self.excerpt.clone(),
            title: self.metadata.title.clone(),
            content: markdown_html(self.content.as_str()),
            subject: Vec::new(),
            date: get_unix_time(self.metadata.date.as_str()),
            version: 0,
            identifier: self.metadata.slug.clone(),
            filename: String::new(),
            size: 0,
            length: 0,
            number: 0,
            downloads: 0,
        }
    }
}

} // verus!

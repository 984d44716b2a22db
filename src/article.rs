//! Blog articles.
use vstd::prelude::*;
use crate::front::{opt_view, FrontMatter};
use crate::render::{html_of_markdown, markdown_html};
use crate::site::{Layout, Post};
use crate::text::concat;
use crate::utils::{first_words, get_excerpt, get_slug, get_unix_time, slug_text, unix_day, EXCERPT_LENGTH};

verus! {

/// The persisted fields of an article.
pub struct Metadata {
    pub title: String,
    pub date: String,
    pub excerpt: String,
    pub slug: String,
}

impl Metadata {
    pub fn get_filename(&self) -> (r: String)
        ensures
            r@ == "posts/"@ + self.slug@ + ".md"@,
    {
        let p = concat("posts/", self.slug.as_str());
        concat(p.as_str(), ".md")
    }
}

/// An article: its metadata and its Markdown body.
pub struct Article {
    pub metadata: Metadata,
    pub content: String,
}

impl Article {
    /// The article held in a document, given its parts and its deserialised
    /// front matter, and whether the document must be written again: a
    /// missing slug is derived from the title, a missing excerpt is taken
    /// from the marked excerpt or else from the first words of the body.
    pub fn from_parts(metadata: Metadata, front: FrontMatter) -> (r: (Article, bool))
        ensures
            r.0.metadata.title == metadata.title,
            r.0.metadata.date == metadata.date,
            r.0.metadata.slug@ == if metadata.slug@.len() == 0 {
                slug_text(metadata.title@)
            } else {
                metadata.slug@
            },
            r.0.metadata.excerpt@ == if metadata.excerpt@.len() > 0 {
                metadata.excerpt@
            } else if opt_view(front.excerpt) is Some {
                opt_view(front.excerpt)->0
            } else {
                first_words(front.content@, EXCERPT_LENGTH as nat)
            },
            r.0.content == front.content,
            r.1 == (metadata.slug@.len() == 0 || metadata.excerpt@.len() == 0),
    {
        let mut metadata = metadata;
        let mut save = false;
        if metadata.slug.as_str().is_empty() {
            metadata.slug = get_slug(metadata.title.as_str());
            save = true;
        }
        if metadata.excerpt.as_str().is_empty() {
            metadata.excerpt = match front.excerpt {
                Some(e) => e,
                None => get_excerpt(front.content.as_str()),
            };
            save = true;
        }
        (Article { metadata, content: front.content }, save)
    }

    pub fn get_filename(&self) -> (r: String)
        ensures
            r@ == "posts/"@ + self.metadata.slug@ + ".md"@,
    {
        self.metadata.get_filename()
    }

    /// The article as a document to render.
    pub fn get_post(&self) -> (r: Post)
        ensures
            r.layout == Layout::Post,
            r.title == self.metadata.title,
            r.excerpt == self.metadata.excerpt,
            r.slug == self.metadata.slug,
            r.identifier == self.metadata.slug,
            r.date == unix_day(self.metadata.date@),
            r.content@ == html_of_markdown(self.content@),
            r.subject@.len() == 0,
            r.filename@.len() == 0,
            r.version == 0 && r.size == 0 && r.length == 0 && r.number == 0 && r.downloads == 0,
    {
        Post {
            layout: Layout::Post,
            slug: self.metadata.slug.clone(),
            excerpt: self.metadata.excerpt.clone(),
            title: self.metadata.title.clone(),
            content: markdown_html(self.content.as_str()),
            subject: Vec::new(),
            date: get_unix_time(self.metadata.date.as_str()),
            version: 0,
            identifier: self.metadata.slug.clone(),
            filename: String::new(),
            size: 0,
            length: 0,
            number: 0,
            downloads: 0,
        }
    }
}

} // verus!

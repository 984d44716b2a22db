//! Podcast episodes: the canonical record of one audio item.
use vstd::prelude::*;
use crate::doc::Doc;
use crate::render::{html_of_markdown, markdown_html};
use crate::site::{Layout, Post};
use crate::front::{opt_view, FrontMatter};
use crate::metadata::Metadata as ItemMetadata;
use crate::mp3metadata::{number_or_zero, Mp3Metadata};
use crate::scan::{lines_of, split_lines};
use crate::text::{chars_of, clone_strings, concat, string_of};
use crate::utils::{first_words, get_excerpt, get_first_words, get_slug, slug_text, EXCERPT_LENGTH};

verus! {

/// The version of the record layout this code writes.
pub const VERSION: usize = 1;

/// The persisted fields of an episode.
pub struct Metadata {
    pub version: usize,
    pub number: usize,
    pub identifier: String,
    pub title: String,
    pub subject: Vec<String>,
    pub downloads: u64,
    pub filename: String,
    pub mtime: u64,
    pub size: u64,
    pub length: u64,
    pub excerpt: String,
    pub slug: String,
}

/// The path of the record of the item `identifier`.
pub open spec fn episode_path(identifier: Seq<char>) -> Seq<char> {
    "episodes/"@ + identifier + ".md"@
}

impl Metadata {
    pub fn get_filename(&self) -> (r: String)
        ensures
            r@ == episode_path(self.identifier@),
    {
        let p = concat("episodes/", self.identifier.as_str());
        concat(p.as_str(), ".md")
    }
}

/// An episode: its metadata and its Markdown body.
pub struct Episode {
    pub metadata: Metadata,
    pub content: String,
}

/// The first line of `s`, or the empty text.
pub open spec fn first_line(s: Seq<char>) -> Seq<char> {
    if lines_of(s).len() > 0 {
        lines_of(s)[0]
    } else {
        Seq::empty()
    }
}

/// The title of a new episode: the file's title tag, or the item identifier
/// where that is empty.
pub open spec fn merged_title(doc: Doc, mp3: Mp3Metadata) -> Seq<char> {
    if mp3.title@.len() == 0 {
        doc.identifier@
    } else {
        mp3.title@
    }
}

/// The excerpt of a new episode: the file's comment tag, or the first words
/// of the first line of the item description where that is empty.
pub open spec fn merged_excerpt(meta: ItemMetadata, mp3: Mp3Metadata) -> Seq<char> {
    if mp3.comment@.len() == 0 {
        first_words(first_line(meta.description@), EXCERPT_LENGTH as nat)
    } else {
        mp3.comment@
    }
}

/// `e` is the episode made of the catalog entry `doc`, the item metadata
/// `meta` and the audio file metadata `mp3`.
pub open spec fn is_merge_of(e: Episode, doc: Doc, meta: ItemMetadata, mp3: Mp3Metadata) -> bool {
    let m = e.metadata;
    &&& m.version == VERSION
    &&& m.number == doc.number
    &&& m.identifier@ == doc.identifier@
    &&& m.subject@ == doc.subject@
    &&& m.downloads == doc.downloads
    &&& m.title@ == merged_title(doc, mp3)
    &&& m.excerpt@ == merged_excerpt(meta, mp3)
    &&& m.slug@ == slug_text(merged_title(doc, mp3))
    &&& m.filename@ == mp3.filename@
    &&& m.mtime == number_or_zero(mp3.mtime@)
    &&& m.size == number_or_zero(mp3.size@)
    &&& m.length == number_or_zero(mp3.length@)
    &&& e.content@ == meta.description@
}

/// An episode needs writing again for the entry `doc`: the catalog reports
/// other downloads, or it was written by an older layout.
pub open spec fn is_stale(e: Episode, doc: Doc) -> bool {
    e.metadata.downloads != doc.downloads || e.metadata.version < VERSION
}

/// `e` brought up to date with `doc`: the catalog's downloads, and the
/// current layout version unless it already has a newer one.
pub open spec fn refreshed(e: Episode, doc: Doc) -> Episode {
    Episode {
        metadata: Metadata {
            version: if e.metadata.version < VERSION {
                VERSION
            } else {
                e.metadata.version
            },
            downloads: doc.downloads,
            ..e.metadata
        },
        content: e.content,
    }
}

/// An episode read back from its document: a missing slug is derived from
/// the title, a missing excerpt is taken from the marked excerpt or else
/// from the first words of the body.
pub open spec fn is_reconciled(e: Episode, m: Metadata, front: FrontMatter) -> bool {
    &&& e.metadata.version == m.version
    &&& e.metadata.number == m.number
    &&& e.metadata.identifier == m.identifier
    &&& e.metadata.title == m.title
    &&& e.metadata.subject == m.subject
    &&& e.metadata.downloads == m.downloads
    &&& e.metadata.filename == m.filename
    &&& e.metadata.mtime == m.mtime
    &&& e.metadata.size == m.size
    &&& e.metadata.length == m.length
    &&& e.metadata.slug@ == if m.slug@.len() == 0 {
        slug_text(m.title@)
    } else {
        m.slug@
    }
    &&& e.metadata.excerpt@ == if m.excerpt@.len() > 0 {
        m.excerpt@
    } else if opt_view(front.excerpt) is Some {
        opt_view(front.excerpt)->0
    } else {
        first_words(front.content@, EXCERPT_LENGTH as nat)
    }
    &&& e.content@ == front.content@
}

impl Episode {
    /// The episode of a new catalog entry, from the item's metadata and its
    /// audio file's metadata.
    pub fn combine(doc: &Doc, aometadata: &ItemMetadata, mp3: &Mp3Metadata) -> (r: Episode)
        ensures
            is_merge_of(r, *doc, *aometadata, *mp3),
    {
        let title = if mp3.title.as_str().is_empty() {
            doc.identifier.clone()
        } else {
            mp3.title.clone()
        };
        let excerpt = if mp3.comment.as_str().is_empty() {
            let desc = chars_of(aometadata.description.as_str());
            let lines = split_lines(&desc);
            let line = if lines.len() > 0 {
                assert(lines@.map_values(|l: Vec<char>| l@)[0] == lines@[0]@);
                string_of(&lines[0])
            } else {
                string_of(&Vec::new())
            };
            get_first_words(line.as_str(), EXCERPT_LENGTH)
        } else {
            mp3.comment.clone()
        };
        let slug = get_slug(title.as_str());
        let metadata = Metadata {
            version: VERSION,
            number: doc.number,
            identifier: doc.identifier.clone(),
            title,
            subject: clone_strings(&doc.subject),
            downloads: doc.downloads,
            filename: mp3.filename.clone(),
            mtime: mp3.mtime_secs(),
            size: mp3.size_bytes(),
            length: mp3.length_secs(),
            excerpt,
            slug,
        };
        Episode { metadata, content: aometadata.description.clone() }
    }

    /// The episode held in a record document, given its parts and its
    /// deserialised front matter, and whether the document must be written
    /// again because a field was derived.
    pub fn from_parts(metadata: Metadata, front: FrontMatter) -> (r: (Episode, bool))
        ensures
            is_reconciled(r.0, metadata, front),
            r.1 == (metadata.slug@.len() == 0 || metadata.excerpt@.len() == 0),
    {
        let mut metadata = metadata;
        let mut save = false;
        if metadata.slug.as_str().is_empty() {
            metadata.slug = get_slug(metadata.title.as_str());
            save = true;
        }
        if metadata.excerpt.as_str().is_empty() {
            metadata.excerpt = match front.excerpt {
                Some(e) => e,
                None => get_excerpt(front.content.as_str()),
            };
            save = true;
        }
        (Episode { metadata, content: front.content }, save)
    }

    /// Brings the episode up to date with the catalog entry `doc`; tells
    /// whether it changed and must be written again.
    pub fn refresh(&mut self, doc: &Doc) -> (r: bool)
        ensures
            r == is_stale(*old(self), *doc),
            r ==> *final(self) == refreshed(*old(self), *doc),
            !r ==> *final(self) == *old(self),
    {
        if self.metadata.downloads != doc.downloads || self.metadata.version < VERSION {
            if self.metadata.version < VERSION {
                self.metadata.version = VERSION;
            }
            self.metadata.downloads = doc.downloads;
            true
        } else {
            false
        }
    }

    pub fn get_filename(&self) -> (r: String)
        ensures
            r@ == episode_path(self.metadata.identifier@),
    {
        self.metadata.get_filename()
    }

    pub fn get_slug(&self) -> (r: String)
        ensures
            r@ == self.metadata.slug@,
    {
        self.metadata.slug.clone()
    }

    pub fn get_downloads(&self) -> (r: u64)
        ensures
            r == self.metadata.downloads,
    {
        self.metadata.downloads
    }

    pub fn set_downloads(&mut self, downloads: u64)
        ensures
            *final(self) == (Episode {
                metadata: Metadata { downloads, ..old(self).metadata },
                content: old(self).content,
            }),
    {
        self.metadata.downloads = downloads;
    }

    /// The episode as a document to render.
    pub fn get_post(&self) -> (r: Post)
        ensures
            r.layout == Layout::Podcast,
            r.title == self.metadata.title,
            r.excerpt == self.metadata.excerpt,
            r.slug == self.metadata.slug,
            r.identifier == self.metadata.identifier,
            r.filename == self.metadata.filename,
            r.subject@ == self.metadata.subject@,
            r.date == Some(self.metadata.mtime),
            r.content@ == html_of_markdown(self.content@),
            r.version == self.metadata.version,
            r.size == self.metadata.size,
            r.length == self.metadata.length,
            r.number == self.metadata.number,
            r.downloads == self.metadata.downloads,
    {
        Post {
            layout: Layout::Podcast,
            slug: self.metadata.slug.clone(),
            excerpt: self.metadata.excerpt.clone(),
            title: self.metadata.title.clone(),
            content: markdown_html(self.content.as_str()),
            subject: clone_strings(&self.metadata.subject),
            date: Some(self.metadata.mtime),
            version: self.metadata.version,
            identifier: self.metadata.identifier.clone(),
            filename: self.metadata.filename.clone(),
            size: self.metadata.size,
            length: self.metadata.length,
            number: self.metadata.number,
            downloads: self.metadata.downloads,
        }
    }

    pub fn get_version(&self) -> (r: usize)
        ensures
            r == self.metadata.version,
    {
        self.metadata.version
    }
}

} // verus!

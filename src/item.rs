//! Catalog items as the saved item listing holds them.
use vstd::prelude::*;
use crate::article::Article;
use crate::mp3metadata::{number_or_zero, parse_whole, whole_number, whole_value};
use crate::render::{html_of_markdown, markdown_html};
use crate::site::{Layout, Post};
use crate::text::{chars_of, clone_strings};
use crate::utils::{get_slug, slug_text};

verus! {

/// One item of the listing; numbers are kept as the text the catalog gave.
pub struct Item {
    pub identifier: String,
    pub title: String,
    pub subject: Vec<String>,
    pub description: String,
    pub downloads: usize,
    pub item_size: u64,
    pub publicdate: String,
    pub filename: String,
    pub mtime: String,
    pub size: String,
    pub length: String,
    pub creator: String,
    pub album: String,
    pub track: String,
    pub artist: String,
    pub genre: String,
    pub comment: String,
    pub slug: String,
    pub date: String,
}

/// `a` and `b` hold the same values.
pub open spec fn same_item(a: Item, b: Item) -> bool {
    &&& a.identifier == b.identifier
    &&& a.title == b.title
    &&& a.subject@ == b.subject@
    &&& a.description == b.description
    &&& a.downloads == b.downloads
    &&& a.item_size == b.item_size
    &&& a.publicdate == b.publicdate
    &&& a.filename == b.filename
    &&& a.mtime == b.mtime
    &&& a.size == b.size
    &&& a.length == b.length
    &&& a.creator == b.creator
    &&& a.album == b.album
    &&& a.track == b.track
    &&& a.artist == b.artist
    &&& a.genre == b.genre
    &&& a.comment == b.comment
    &&& a.slug == b.slug
    &&& a.date == b.date
}

/// The slug of an item: its own, or the one of its title.
pub open spec fn item_slug(i: Item) -> Seq<char> {
    if i.slug@.len() == 0 {
        slug_text(i.title@)
    } else {
        i.slug@
    }
}

impl Item {
    /// A copy of the item.
    pub fn duplicate(&self) -> (r: Item)
        ensures
            same_item(r, *self),
    {
        Item {
            identifier: self.identifier.clone(),
            title: self.title.clone(),
            subject: clone_strings(&self.subject),
            description: self.description.clone(),
            downloads: self.downloads,
            item_size: self.item_size,
            publicdate: self.publicdate.clone(),
            filename: self.filename.clone(),
            mtime: self.mtime.clone(),
            size: self.size.clone(),
            length: self.length.clone(),
            creator: self.creator.clone(),
            album: self.album.clone(),
            track: self.track.clone(),
            artist: self.artist.clone(),
            genre: self.genre.clone(),
            comment: self.comment.clone(),
            slug: self.slug.clone(),
            date: self.date.clone(),
        }
    }

    /// The item an article stands for: its file name serves as identifier
    /// and slug, its body as description and its excerpt as comment.
    pub fn from_article(article: Article) -> (r: Item)
        ensures
            r.identifier == article.metadata.slug,
            r.title == article.metadata.title,
            r.subject@.len() == 0,
            r.description == article.content,
            r.comment == article.metadata.excerpt,
            r.slug == article.metadata.slug,
            r.filename == article.metadata.slug,
            r.downloads == 0,
            r.mtime@.len() == 0,
    {
        let slug = article.metadata.slug;
        Item {
            identifier: slug.clone(),
            title: article.metadata.title,
            subject: Vec::new(),
            description: article.content,
            downloads: 0,
            item_size: 0,
            publicdate: String::new(),
            filename: slug.clone(),
            mtime: String::new(),
            size: String::new(),
            length: String::new(),
            creator: String::new(),
            album: String::new(),
            track: String::new(),
            artist: String::new(),
            genre: String::new(),
            comment: article.metadata.excerpt,
            slug,
            date: String::new(),
        }
    }

    /// The item as an article to render.
    pub fn get_post(&self) -> (r: Post)
        ensures
            r.layout == Layout::Post,
            r.slug@ == item_slug(*self),
            r.excerpt == self.comment,
            r.title == self.title,
            r.content@ == html_of_markdown(self.description@),
            r.date == Some(number_or_zero(self.mtime@)),
            r.identifier == self.identifier,
    {
        self.to_post(Layout::Post)
    }

    /// The item as a podcast episode to render.
    pub fn get_pocast(&self) -> (r: Post)
        ensures
            r.layout == Layout::Podcast,
            r.slug@ == item_slug(*self),
            r.excerpt == self.comment,
            r.title == self.title,
            r.content@ == html_of_markdown(self.description@),
            r.date == Some(number_or_zero(self.mtime@)),
            r.identifier == self.identifier,
            r.filename == self.filename,
            r.length == number_or_zero(self.length@),
    {
        self.to_post(Layout::Podcast)
    }

    fn to_post(&self, layout: Layout) -> (r: Post)
        ensures
            r.layout == layout,
            r.slug@ == item_slug(*self),
            r.excerpt == self.comment,
            r.title == self.title,
            r.content@ == html_of_markdown(self.description@),
            r.date == Some(number_or_zero(self.mtime@)),
            r.identifier == self.identifier,
            r.filename == self.filename,
            r.length == number_or_zero(self.length@),
    {
        let slug = if self.slug.as_str().is_empty() {
            get_slug(self.title.as_str())
        } else {
            self.slug.clone()
        };
        Post {
            layout,
            slug,
            excerpt: self.comment.clone(),
            title: self.title.clone(),
            content: markdown_html(self.description.as_str()),
            subject: clone_strings(&self.subject),
            date: Some(whole_number(self.mtime.as_str())),
            version: 0,
            identifier: self.identifier.clone(),
            filename: self.filename.clone(),
            size: whole_number(self.size.as_str()),
            length: whole_number(self.length.as_str()),
            number: 0,
            downloads: self.downloads as u64,
        }
    }

    pub fn get_mtime(&self) -> (r: &str)
        ensures
            r@ == self.mtime@,
    {
        self.mtime.as_str()
    }

    /// The modification time in seconds since the epoch, where it is a number.
    pub fn get_date(&self) -> (r: Option<u64>)
        ensures
            r == whole_value(self.mtime@),
    {
        parse_whole(self.mtime.as_str())
    }

    pub fn get_identifier(&self) -> (r: &str)
        ensures
            r@ == self.identifier@,
    {
        self.identifier.as_str()
    }
}

/// `a` comes after `b` in the order of `str`: character by character (by
/// code point), a proper prefix first.
pub open spec fn text_after(a: Seq<char>, b: Seq<char>) -> bool
    decreases a.len(),
{
    if a.len() == 0 {
        false
    } else if b.len() == 0 {
        true
    } else if a[0] != b[0] {
        a[0] > b[0]
    } else {
        text_after(a.drop_first(), b.drop_first())
    }
}


/// The order of `text_after` is transitive.
pub proof fn lemma_text_after_trans(x: Seq<char>, c: Seq<char>, l: Seq<char>)
    requires
        text_after(x, c),
        text_after(c, l),
    ensures
        text_after(x, l),
    decreases x.len(),
{
    if x.len() > 0 && c.len() > 0 && l.len() > 0 && x[0] == c[0] && c[0] == l[0] {
        lemma_text_after_trans(x.drop_first(), c.drop_first(), l.drop_first());
    }
}

/// No text comes after itself.
pub proof fn lemma_text_after_irreflexive(a: Seq<char>)
    ensures
        !text_after(a, a),
    decreases a.len(),
{
    if a.len() > 0 {
        lemma_text_after_irreflexive(a.drop_first());
    }
}


/// Of two different texts, one comes after the other.
pub proof fn lemma_text_after_total(a: Seq<char>, b: Seq<char>)
    requires
        !text_after(a, b),
        a != b,
    ensures
        text_after(b, a),
    decreases a.len(),
{
    if a.len() > 0 && b.len() > 0 && a[0] == b[0] {
        assert(a.drop_first() != b.drop_first()) by {
            if a.drop_first() == b.drop_first() {
                assert(a =~= seq![a[0]] + a.drop_first());
                assert(b =~= seq![b[0]] + b.drop_first());
            }
        }
        lemma_text_after_total(a.drop_first(), b.drop_first());
    } else if a.len() == 0 && b.len() == 0 {
        assert(a =~= b);
    }
}

/// Whether `a` comes after `b` (see `text_after`).
pub fn after(a: &str, b: &str) -> (r: bool)
    ensures
        r == text_after(a@, b@),
{
    let x = chars_of(a);
    let y = chars_of(b);
    let mut i: usize = 0;
    assert(x@.skip(0) =~= x@ && y@.skip(0) =~= y@);
    while i < x.len() && i < y.len() && x[i] == y[i]
        invariant
            i <= x.len(),
            i <= y.len(),
            text_after(x@.skip(i as int), y@.skip(i as int)) == text_after(a@, b@),
            x@ == a@,
            y@ == b@,
        decreases x.len() - i,
    {
        assert(x@.skip(i as int).drop_first() =~= x@.skip(i as int + 1));
        assert(y@.skip(i as int).drop_first() =~= y@.skip(i as int + 1));
        i = i + 1;
    }
    if i == x.len() {
        false
    } else if i == y.len() {
        true
    } else {
        x[i] > y[i]
    }
}

} // verus!

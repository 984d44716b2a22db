//! Site-wide settings and the documents handed to the renderer.
use vstd::prelude::*;

verus! {

/// Site-wide settings.
pub struct Site {
    pub author: String,
    pub title: String,
    pub description: String,
    pub podcast_feed: String,
    pub baseurl: String,
    pub url: String,
    pub avatar: String,
    pub category: String,
    pub subcategory: String,
    pub explicit: bool,
    pub email: String,
    pub gitlab: String,
    pub rss: String,
    pub twitter: String,
    pub google_analytics: String,
    pub disqus: String,
    pub youtube: String,
    pub linktree: String,
}

/// The kind of a rendered document.
#[derive(PartialEq, Eq, Structural)]
pub enum Layout {
    Post,
    Podcast,
    Page,
}

/// A document ready for rendering. `date` is in seconds since the epoch.
pub struct Post {
    pub layout: Layout,
    pub slug: String,
    pub excerpt: String,
    pub title: String,
    pub content: String,
    pub subject: Vec<String>,
    pub date: Option<u64>,
    pub version: usize,
    pub identifier: String,
    pub filename: String,
    pub size: u64,
    pub length: u64,
    pub number: usize,
    pub downloads: u64,
}

} // verus!

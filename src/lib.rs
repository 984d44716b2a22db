//! Content synchronisation and record model for a podcast site generator.
pub mod text;
pub mod utils;
pub mod scan;
pub mod mp3metadata;
pub mod metadata;
pub mod doc;
pub mod archive;
pub mod front;
pub mod episode;
pub mod sync;
pub mod site;
pub mod config;
pub mod mastodon;
pub mod telegram;
pub mod render;
pub mod article;
pub mod page;
pub mod item;
pub mod items;

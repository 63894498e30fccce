//! Local data layer of a desktop feed reader: a filesystem-mirrored
//! subscription store, its name codec, the feed merge engine and a
//! deduplicating download registry.

pub mod codec;
pub mod feed;
pub mod merge;
pub mod syndication;
pub mod state;
pub mod fetch;
pub mod media;
pub mod document;
pub mod article;
pub mod gui_config;

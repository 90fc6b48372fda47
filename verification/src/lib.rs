//! Following video channels: a store of subscriptions, videos and watched
//! marks with its queries, the reading of feeds and of the metadata
//! provider's answers, the planning of a channel's priming, and the state of
//! the terminal application that is built on them.
//!
//! Everything here is verified.  What is left to other crates (calendar
//! arithmetic, JSON, regular expressions, the widths of characters) is
//! called through a few functions whose contracts are taken on trust; each
//! says so.

pub mod actions;
pub mod app;
pub mod cli;
pub mod feed;
pub mod json;
pub mod keys;
pub mod laws;
pub mod layout;
pub mod legacy;
pub mod num;
pub mod order;
pub mod pattern;
pub mod player;
pub mod screen;
pub mod store;
pub mod sync;
pub mod text;
pub mod time;
pub mod video;
pub mod ytdlp;

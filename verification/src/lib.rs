//! Core logic of a workspace-oriented static publishing tool.
//!
//! The library models a workspace of markdown articles with TOML sidecars,
//! renders them through a pipeline of guest modules (one theme, an ordered
//! chain of hooks), keeps a content-addressed render cache, and emits a
//! client-side search bundle.  Everything that computes or decides lives
//! here with a contract; filesystem, network and guest execution stay in
//! the surrounding application.

pub mod article;
pub mod cache;
pub mod config;
pub mod engine;
pub mod markdown;
pub mod metadata;
pub mod pipeline;
pub mod resolver;
pub mod search;
pub mod serve;
pub mod slug;
pub mod text;
pub mod timefmt;
pub mod water;
pub mod workspace;

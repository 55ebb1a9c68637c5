//! Background ingestion and caching core of a social-feed reader.
//!
//! The library holds the decisions of the pipeline: the content-addressed
//! asset cache, the two-sided feed cursor, the transformation of raw feed
//! entries into display models, the registry of known authors and the
//! worker's reactions to channel and request events. Network, disk and
//! timers are driven from outside: each step here takes their outcome as a
//! plain value.

pub mod datetime;
pub mod download;
pub mod storage;
pub mod models;
pub mod sources_manager;
pub mod newsfeed;
pub mod assets;
pub mod auth;
pub mod feed;
pub mod news_update;
pub mod text;
pub mod worker;

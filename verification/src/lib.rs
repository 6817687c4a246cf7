//! The decisions of a multi-connection downloader.
pub mod board;
pub mod client;
pub mod codec;
pub mod complete;
pub mod config;
pub mod headers;
pub mod laws;
pub mod names;
pub mod number;
pub mod process;
pub mod ranges;
pub mod single;
pub mod table;
pub mod task;
pub mod text;

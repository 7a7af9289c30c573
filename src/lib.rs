//! Music track identification and tagging: a matching engine that scores
//! platform candidates against a file, the per-file and per-run state
//! machines of a tagging run, the merge policy of the tag writer, a Bandcamp
//! adapter, and the URL and tracklist readers of the song downloader.

pub mod text;
pub mod model;
pub mod matching;
pub mod pipeline;
pub mod tagging;
pub mod writer;
pub mod patterns;
pub mod songdownloader;
pub mod renamer;
pub mod bandcamp;
pub mod config;
pub mod tracklist;
pub mod youtube_tracklist;
pub mod page_info;
pub mod folder_tracklist;
pub mod html_pages;

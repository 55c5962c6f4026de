//! Verified core of a `yt-dlp` front end: format and thumbnail models, the
//! rules that pick formats, event classification, command/recording plans and
//! the parsing of FFmpeg progress lines.
pub mod float_order;
pub mod text;
pub mod error;
pub mod format;
pub mod ranking;
pub mod thumbnail;
pub mod selector;
pub mod video;
pub mod utils;
pub mod selection;
pub mod comparison;
pub mod languages;
pub mod events;
pub mod paths;
pub mod executor;
pub mod ffmpeg_stats;
pub mod live;
pub mod laws;
pub mod headers;

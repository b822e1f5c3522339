//! The catalog engine of an IPTV client: it decodes playlists into entries,
//! keeps track of what was watched, decides when a playlist is fetched again,
//! and lets a live catalog and an archived one be used alike.

use vstd::prelude::*;

pub mod config;
pub mod decode;
pub mod downloader;
pub mod error;
pub mod grandmother;
pub mod input;
pub mod json;
pub mod laws;
pub mod m3u8;
pub mod names;
pub mod offlineparser;
pub mod onlineparser;
pub mod opt;
pub mod order;
pub mod parser;
pub mod playlist;
pub mod text;

pub use config::{Conf, Configuration};
pub use downloader::Progress;
pub use error::CatalogError;
pub use grandmother::{Catalog, GrandMother};
pub use m3u8::{M3u8, OfflineEntry};
pub use offlineparser::OfflineParser;
pub use onlineparser::OnlineParser;
pub use opt::Mode;
pub use parser::{GetM3u8, GetPlayPath, Parser, WatchedFind};
pub use playlist::{Next, Playlist};

verus! {

pub const JSON_CONFIG_FILENAME: &'static str = "config.json";

pub const APP_IDENTIFIER: [&'static str; 3] = ["com", "billenius", "ilovetv"];

pub const STANDARD_PLAYLIST_FILENAME: &'static str = "playlist.m3u8";

pub const STANDARD_SEEN_LINKS_FILENAME: &'static str = "watched_links.json";

pub const STANDARD_OFFLINE_FILENAME: &'static str = "ilovetv_offline.json";

/// How many times a playlist is fetched before the engine gives up.
pub const MAX_TRIES: u8 = 4;

} // verus!

//! The catalog in use, live or archived, with what it takes to switch between
//! the two and to refresh the live one.

use crate::config::Configuration;
use crate::decode::{decoded, texts};
use crate::error::CatalogError;
use crate::json::{json_of_links, to_json};
use crate::m3u8::{ChannelEntry, M3u8};
use crate::offlineparser::{is_archived, marked_ledger, OfflineParser};
use crate::onlineparser::OnlineParser;
use crate::parser::{has_link, marked, watched_links_of, GetM3u8, GetPlayPath, WatchedFind};
use crate::playlist::{after, begin, fetched_text, Next, Playlist};
use std::rc::Rc;
use vstd::prelude::*;

verus! {

/// A catalog, of one kind or the other.
pub enum Catalog {
    /// The entries of the playlist as it was last fetched.
    Live(OnlineParser),
    /// The entries that were downloaded for offline use.
    Archived(OfflineParser),
}

impl GetM3u8 for Catalog {
    open spec fn entries(&self) -> Seq<ChannelEntry> {
        match self {
            Catalog::Live(parser) => parser.entries(),
            Catalog::Archived(parser) => parser.entries(),
        }
    }

    fn get_m3u8(&self) -> (r: Vec<&M3u8>) {
        match self {
            Catalog::Live(parser) => parser.get_m3u8(),
            Catalog::Archived(parser) => parser.get_m3u8(),
        }
    }
}

impl GetPlayPath for Catalog {
    open spec fn play_path(&self, link: Seq<char>) -> Option<Seq<char>> {
        match self {
            Catalog::Live(parser) => parser.play_path(link),
            Catalog::Archived(parser) => parser.play_path(link),
        }
    }

    fn get_path_to_play(&self, link: Rc<String>) -> (r: Result<Rc<String>, CatalogError>) {
        match self {
            Catalog::Live(parser) => parser.get_path_to_play(link),
            Catalog::Archived(parser) => parser.get_path_to_play(link),
        }
    }
}

/// The strings of a list, borrowed.
fn borrowed(links: &Vec<String>) -> (r: Vec<&str>)
    ensures
        texts(r@) == links.deep_view(),
{
    let mut out: Vec<&str> = Vec::new();
    let mut i: usize = 0;
    while i < links.len()
        invariant
            i <= links.len(),
            out.len() == i,
            forall|k: int| 0 <= k < i ==> (#[trigger] out[k])@ == links[k]@,
        decreases links.len() - i,
    {
        out.push(links[i].as_str());
        i += 1;
    }
    assert(texts(out@) =~= links.deep_view());
    out
}

/// The catalog in use, the playlist behind it where it is live, and the
/// configuration.
pub struct GrandMother {
    pub parser: Catalog,
    pub playlist: Option<Playlist>,
    pub config: Configuration,
}

impl GrandMother {
    /// A live catalog of the text that `playlist` holds. The entries whose
    /// links the configuration lists as seen count as watched.
    pub fn new_online(config: Configuration, playlist: Playlist) -> (r: Result<Self, CatalogError>)
        ensures
            match r {
                Ok(gm) => {
                    &&& gm.parser matches Catalog::Live(parser)
                    &&& decoded(playlist.content@, config.seen().to_set()) == Some(parser@)
                    &&& gm.playlist == Some(playlist)
                    &&& gm.config == config
                },
                Err(e) => e == CatalogError::Parse && decoded(playlist.content@, config.seen().to_set())
                    is None,
            },
    {
        let seen_links = borrowed(&config.seen_links);
        let parser = match OnlineParser::new(playlist.content.as_str(), &seen_links) {
            Ok(parser) => parser,
            Err(e) => { return Err(e); },
        };
        Ok(Self { parser: Catalog::Live(parser), playlist: Some(playlist), config })
    }

    /// Switches to a live catalog of the text that `playlist` holds, as
    /// `new_online` makes it. Where the text is malformed nothing changes.
    pub fn promote_to_online(&mut self, playlist: Playlist) -> (r: Result<(), CatalogError>)
        ensures
            final(self).config == old(self).config,
            match r {
                Ok(()) => {
                    &&& final(self).parser matches Catalog::Live(parser)
                    &&& decoded(playlist.content@, old(self).config.seen().to_set()) == Some(
                        parser@,
                    )
                    &&& final(self).playlist == Some(playlist)
                },
                Err(e) => e == CatalogError::Parse && decoded(
                    playlist.content@,
                    old(self).config.seen().to_set(),
                ) is None && *final(self) == *old(self),
            },
    {
        let seen_links = borrowed(&self.config.seen_links);
        let parser = match OnlineParser::new(playlist.content.as_str(), &seen_links) {
            Ok(parser) => parser,
            Err(e) => { return Err(e); },
        };
        self.parser = Catalog::Live(parser);
        self.playlist = Some(playlist);
        Ok(())
    }

    /// An archived catalog of the ledger that the configuration holds.
    pub fn new_offline(config: Configuration) -> (r: Self)
        ensures
            r.parser matches Catalog::Archived(parser) && parser@ == config.ledger(),
            r.playlist is None,
            r.config == config,
    {
        let parser = Catalog::Archived(OfflineParser::new(&config));
        Self { parser, playlist: None, config }
    }

    /// Switches to an archived catalog of the ledger that the configuration
    /// holds.
    pub fn demote_to_offline(&mut self)
        ensures
            final(self).parser matches Catalog::Archived(parser) && parser@ == old(
                self,
            ).config.ledger(),
            final(self).playlist is None,
            final(self).config == old(self).config,
    {
        self.parser = Catalog::Archived(OfflineParser::new(&self.config));
        self.playlist = None;
    }

    /// Whether the catalog can be refreshed: it is live and has a playlist
    /// with a place to fetch from.
    pub open spec fn refreshable(&self) -> bool {
        &&& self.parser is Live
        &&& self.playlist matches Some(playlist)
        &&& playlist@.online
    }

    /// Begins a refresh, whatever the age of the cache. An archived catalog
    /// cannot be refreshed.
    pub fn refresh(&mut self) -> (next: Next)
        ensures
            final(self).parser == old(self).parser,
            final(self).config == old(self).config,
            old(self).refreshable() ==> {
                &&& next == Next::Fetch
                &&& final(self).playlist matches Some(playlist)
                &&& (playlist@, next) == begin(old(self).playlist.unwrap()@)
                &&& playlist.url == old(self).playlist.unwrap().url
                &&& playlist.path_to_playlist == old(self).playlist.unwrap().path_to_playlist
            },
            !old(self).refreshable() ==> next == Next::Failed(CatalogError::UnsupportedInOfflineMode)
                && *final(self) == *old(self),
    {
        match self.parser {
            Catalog::Archived(_) => { return Next::Failed(CatalogError::UnsupportedInOfflineMode); },
            Catalog::Live(_) => {},
        }
        match &mut self.playlist {
            Some(playlist) => playlist.download(),
            None => Next::Failed(CatalogError::UnsupportedInOfflineMode),
        }
    }

    /// Takes in how a transfer of a refresh ended. When the playlist has
    /// come, the catalog is replaced as a whole by the entries of the new
    /// text; an entry is watched exactly if an entry with its link was
    /// watched before. Where the refresh fails, or the new text is malformed,
    /// the catalog stays as it was.
    pub fn refreshed(&mut self, outcome: Result<Vec<u8>, CatalogError>) -> (next: Next)
        ensures
            final(self).config == old(self).config,
            !old(self).refreshable() ==> next == Next::Failed(CatalogError::UnsupportedInOfflineMode)
                && *final(self) == *old(self),
            old(self).refreshable() ==> {
                let before = old(self).playlist.unwrap();
                let watched = watched_links_of(old(self).parser.entries()).to_set();
                &&& final(self).playlist matches Some(playlist)
                &&& playlist@ == after(before@, fetched_text(outcome)).0
                &&& playlist.url == before.url
                &&& playlist.path_to_playlist == before.path_to_playlist
                &&& match after(before@, fetched_text(outcome)).1 {
                    Next::Fetched => match decoded(playlist@.content, watched) {
                        Some(entries) => next == Next::Fetched && final(self).parser.entries()
                            == entries && final(self).parser is Live,
                        None => next == Next::Failed(CatalogError::Parse) && final(self).parser == old(
                            self,
                        ).parser,
                    },
                    other => next == other && final(self).parser == old(self).parser,
                }
            },
    {
        let mut parser = match &mut self.parser {
            Catalog::Archived(_) => { return Next::Failed(CatalogError::UnsupportedInOfflineMode); },
            Catalog::Live(parser) => parser,
        };
        let playlist = match &mut self.playlist {
            Some(playlist) => playlist,
            None => { return Next::Failed(CatalogError::UnsupportedInOfflineMode); },
        };
        if playlist.url.is_none() {
            return Next::Failed(CatalogError::UnsupportedInOfflineMode);
        }
        match playlist.fetched(outcome) {
            Next::Fetched => match parser.forcefully_update(playlist.content.as_str()) {
                Ok(()) => Next::Fetched,
                Err(e) => Next::Failed(e),
            },
            other => other,
        }
    }

    /// The text to store as the record of what was watched: the links of the
    /// watched entries, as a JSON array of strings. There always is such a
    /// text; storing it is left to the caller.
    pub fn save_watched(&self) -> (r: Result<String, CatalogError>)
        ensures
            r matches Ok(text) && text@ == json_of_links(watched_links_of(self.parser.entries())),
    {
        let watched = self.parser.get_watched_links();
        let mut links: Vec<String> = Vec::new();
        let mut i: usize = 0;
        while i < watched.len()
            invariant
                i <= watched.len(),
                links.len() == i,
                forall|k: int| 0 <= k < i ==> (#[trigger] links[k])@ == watched[k]@,
            decreases watched.len() - i,
        {
            links.push(watched[i].as_str().to_owned());
            i += 1;
        }
        assert(links.deep_view() =~= watched.deep_view());
        match to_json(&links) {
            Ok(text) => Ok(text),
            Err(_) => Err(CatalogError::Io),
        }
    }

    /// Records that the user has played the entries with the given link.
    /// Returns whether the catalog holds such an entry.
    pub fn mark_watched(&mut self, link: &str) -> (r: bool)
        ensures
            final(self).config == old(self).config,
            final(self).playlist == old(self).playlist,
            match old(self).parser {
                Catalog::Live(before) => {
                    &&& final(self).parser matches Catalog::Live(parser)
                    &&& parser@ == marked(before@, link@)
                    &&& r == has_link(before@, link@)
                },
                Catalog::Archived(before) => {
                    &&& final(self).parser matches Catalog::Archived(parser)
                    &&& parser@ == marked_ledger(before@, link@)
                    &&& r == is_archived(before@, link@)
                },
            },
    {
        match &mut self.parser {
            Catalog::Live(parser) => parser.mark_watched(link),
            Catalog::Archived(parser) => parser.mark_watched(link),
        }
    }
}

} // verus!

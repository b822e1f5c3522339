//! The configuration of the program, as plain values. Reading and writing the
//! files behind it is left to the caller.

use crate::json::{from_json, links_of_json};
use crate::m3u8::{ArchivedEntry, OfflineEntry};
use crate::{STANDARD_PLAYLIST_FILENAME, STANDARD_SEEN_LINKS_FILENAME};
use std::ops::Deref;
use std::path::PathBuf;
use std::rc::Rc;
use vstd::prelude::*;

verus! {

/// A path of the file system. The engine carries paths for its caller and
/// never looks inside one.
#[verifier::external_type_specification]
#[verifier::external_body]
pub struct ExPathBuf(PathBuf);

/// What the configuration file holds.
pub struct Conf {
    pub playlist_filename: String,
    pub playlist_url: Rc<String>,
    pub last_search: Option<String>,
    pub seen_links_filename: String,
}

impl Conf {
    /// A first configuration for the playlist at `playlist_url`: the standard
    /// file names, and no search made yet.
    pub fn new(playlist_url: Rc<String>) -> (r: Conf)
        ensures
            r.playlist_filename@ == STANDARD_PLAYLIST_FILENAME@,
            r.playlist_url == playlist_url,
            r.last_search is None,
            r.seen_links_filename@ == STANDARD_SEEN_LINKS_FILENAME@,
    {
        Conf {
            playlist_filename: STANDARD_PLAYLIST_FILENAME.to_owned(),
            playlist_url,
            last_search: None,
            seen_links_filename: STANDARD_SEEN_LINKS_FILENAME.to_owned(),
        }
    }
}

/// The configuration with all that was loaded at startup: where the files
/// lie, the links that were watched, and the ledger of what was downloaded for
/// offline use.
pub struct Configuration {
    pub conf: Conf,
    pub playlist_path: Rc<PathBuf>,
    pub seen_links_path: PathBuf,
    pub seen_links: Vec<String>,
    pub config_file_path: PathBuf,
    pub data_dir: PathBuf,
    pub offlinefile_content: Vec<OfflineEntry>,
}

impl Configuration {
    /// The links that were watched when the program started.
    pub open spec fn seen(&self) -> Seq<Seq<char>> {
        self.seen_links.deep_view()
    }

    /// The ledger of the entries that were downloaded, oldest first.
    pub open spec fn ledger(&self) -> Seq<ArchivedEntry> {
        self.offlinefile_content.deep_view()
    }

    /// The configuration of what was found at startup. Where the watched
    /// links or the ledger could not be loaded, they start out empty.
    pub fn new(
        conf: Conf,
        playlist_path: Rc<PathBuf>,
        seen_links_path: PathBuf,
        seen_links: Option<Vec<String>>,
        config_file_path: PathBuf,
        data_dir: PathBuf,
        offlinefile_content: Option<Vec<OfflineEntry>>,
    ) -> (r: Self)
        ensures
            r.conf == conf,
            r.playlist_path == playlist_path,
            r.seen_links_path == seen_links_path,
            r.config_file_path == config_file_path,
            r.data_dir == data_dir,
            r.seen() == match seen_links {
                Some(links) => links.deep_view(),
                None => Seq::empty(),
            },
            r.ledger() == match offlinefile_content {
                Some(entries) => entries.deep_view(),
                None => Seq::empty(),
            },
    {
        let seen_links = match seen_links {
            Some(links) => links,
            None => Vec::new(),
        };
        let offlinefile_content = match offlinefile_content {
            Some(entries) => entries,
            None => Vec::new(),
        };
        assert(seen_links@.len() == 0 ==> seen_links.deep_view() =~= Seq::empty());
        assert(offlinefile_content@.len() == 0 ==> offlinefile_content.deep_view()
            =~= Seq::empty());
        Self {
            conf,
            playlist_path,
            seen_links,
            seen_links_path,
            config_file_path,
            data_dir,
            offlinefile_content,
        }
    }

    /// The watched links that the text of the watched-links file holds, if
    /// the text is a JSON array of strings.
    pub fn get_watched(text: &str) -> (r: Option<Vec<String>>)
        ensures
            match r {
                Some(links) => links_of_json(text@) == Some(links.deep_view()),
                None => links_of_json(text@) is None,
            },
    {
        match from_json(text) {
            Ok(links) => Some(links),
            Err(_) => None,
        }
    }

    /// Remembers the last search, or forgets it.
    pub fn update_last_search_ugly(&mut self, last_search: Option<String>)
        ensures
            final(self).conf.last_search == last_search,
            final(self).conf.playlist_filename == old(self).conf.playlist_filename,
            final(self).conf.playlist_url == old(self).conf.playlist_url,
            final(self).conf.seen_links_filename == old(self).conf.seen_links_filename,
            final(self).seen() == old(self).seen(),
            final(self).ledger() == old(self).ledger(),
            final(self).playlist_path == old(self).playlist_path,
            final(self).seen_links_path == old(self).seen_links_path,
            final(self).config_file_path == old(self).config_file_path,
            final(self).data_dir == old(self).data_dir,
    {
        self.conf.last_search = last_search;
    }

    /// Adds a downloaded entry at the end of the ledger.
    pub fn push_offlinefile_ugly(&mut self, data_entry: OfflineEntry)
        ensures
            final(self).ledger() == old(self).ledger().push(data_entry@),
            final(self).seen() == old(self).seen(),
            final(self).conf == old(self).conf,
            final(self).playlist_path == old(self).playlist_path,
            final(self).seen_links_path == old(self).seen_links_path,
            final(self).config_file_path == old(self).config_file_path,
            final(self).data_dir == old(self).data_dir,
    {
        self.offlinefile_content.push(data_entry);
        assert(self.ledger() =~= old(self).ledger().push(data_entry@));
    }
}

impl Deref for Configuration {
    type Target = Conf;

    fn deref(&self) -> (r: &Conf)
        ensures
            *r == self.conf,
    {
        &self.conf
    }
}

} // verus!

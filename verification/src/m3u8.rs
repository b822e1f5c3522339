//! The entries of a catalog.

use std::ops::Deref;
use std::rc::Rc;
use vstd::prelude::*;

verus! {

/// One row of a playlist.
#[derive(Debug, Hash)]
pub struct M3u8 {
    /// Identifier that the provider gave the channel; may be empty.
    pub tvg_id: String,
    pub tvg_name: String,
    /// Where the channel's logo is found.
    pub tvg_logo: String,
    /// The category of the channel.
    pub group_title: String,
    /// The title shown to the user.
    pub name: String,
    /// Where the stream is found. Within one snapshot the link identifies the entry.
    pub link: Rc<String>,
    /// Whether the user has played this entry.
    pub watched: bool,
}

/// What an `M3u8` holds, as mathematical values.
pub ghost struct ChannelEntry {
    pub tvg_id: Seq<char>,
    pub tvg_name: Seq<char>,
    pub tvg_logo: Seq<char>,
    pub group_title: Seq<char>,
    pub name: Seq<char>,
    pub link: Seq<char>,
    pub watched: bool,
}

impl View for M3u8 {
    type V = ChannelEntry;

    open spec fn view(&self) -> ChannelEntry {
        ChannelEntry {
            tvg_id: self.tvg_id@,
            tvg_name: self.tvg_name@,
            tvg_logo: self.tvg_logo@,
            group_title: self.group_title@,
            name: self.name@,
            link: self.link@,
            watched: self.watched,
        }
    }
}

impl DeepView for M3u8 {
    type V = ChannelEntry;

    open spec fn deep_view(&self) -> ChannelEntry {
        self@
    }
}

impl Clone for M3u8 {
    fn clone(&self) -> (r: Self)
        ensures
            r == *self,
    {
        M3u8 {
            tvg_id: self.tvg_id.clone(),
            tvg_name: self.tvg_name.clone(),
            tvg_logo: self.tvg_logo.clone(),
            group_title: self.group_title.clone(),
            name: self.name.clone(),
            link: self.link.clone(),
            watched: self.watched,
        }
    }
}

/// An entry that was downloaded, with the place of the download.
#[derive(Debug, Hash)]
pub struct OfflineEntry {
    /// The entry as it stood in the catalog when it was downloaded.
    pub m3u8: M3u8,
    /// The local file that holds the media.
    pub path: Rc<String>,
}

/// What an `OfflineEntry` holds, as mathematical values.
pub ghost struct ArchivedEntry {
    pub entry: ChannelEntry,
    pub path: Seq<char>,
}

impl View for OfflineEntry {
    type V = ArchivedEntry;

    open spec fn view(&self) -> ArchivedEntry {
        ArchivedEntry { entry: self.m3u8@, path: self.path@ }
    }
}

impl DeepView for OfflineEntry {
    type V = ArchivedEntry;

    open spec fn deep_view(&self) -> ArchivedEntry {
        self@
    }
}

impl OfflineEntry {
    pub fn new(m3u8: M3u8, path: Rc<String>) -> (r: Self)
        ensures
            r@ == (ArchivedEntry { entry: m3u8@, path: path@ }),
    {
        Self { m3u8, path }
    }

    /// Records whether the user has played the entry.
    pub fn set_watched(&mut self, watched: bool)
        ensures
            final(self)@ == (ArchivedEntry {
                entry: ChannelEntry { watched, ..old(self)@.entry },
                path: old(self)@.path,
            }),
    {
        self.m3u8.watched = watched;
    }
}

impl Deref for OfflineEntry {
    type Target = M3u8;

    fn deref(&self) -> (r: &M3u8)
        ensures
            r@ == self@.entry,
    {
        &self.m3u8
    }
}

impl Clone for OfflineEntry {
    fn clone(&self) -> (r: Self)
        ensures
            r@ == self@,
    {
        OfflineEntry { m3u8: self.m3u8.clone(), path: self.path.clone() }
    }
}

} // verus!

//! The live catalog: the entries of the playlist as it was last fetched.

use crate::decode::{
    decoded, entries_of, is_metadata, link_set, out_of_order, parse_entry, playlist_lines, texts,
    usual_order, without_header, AttributeKeys,
};
use crate::error::CatalogError;
use crate::m3u8::{ChannelEntry, M3u8};
use crate::parser::{
    found, has_link, marked, watched_links_of, GetM3u8, GetPlayPath, WatchedFind,
};
use crate::text::{chars_of, lines_of, rows, stands_at, str_eq};
use std::ops::Deref;
use std::rc::Rc;
use vstd::prelude::*;
use vstd::slice::slice_subrange;

verus! {

/// A catalog whose entries were decoded from playlist text.
pub struct OnlineParser {
    m3u8_items: Vec<M3u8>,
}

/// `text` without the header line, if it begins with one.
fn body_of(text: &[char]) -> (r: &[char])
    ensures
        r@ == without_header(text@),
{
    let mark = chars_of("#EXTM3U\n");
    if stands_at(text, mark.as_slice(), 0) {
        assert(text@.skip(mark@.len() as int) =~= text@.subrange(
            mark@.len() as int,
            text@.len() as int,
        ));
        slice_subrange(text, mark.len(), text.len())
    } else {
        text
    }
}

impl View for OnlineParser {
    type V = Seq<ChannelEntry>;

    closed spec fn view(&self) -> Seq<ChannelEntry> {
        self.m3u8_items.deep_view()
    }
}

impl OnlineParser {
    /// The catalog of a playlist text. The entries whose link is among
    /// `watched_links` count as watched, and no others.
    pub fn new(m3u_content: &str, watched_links: &Vec<&str>) -> (r: Result<Self, CatalogError>)
        ensures
            match r {
                Ok(parser) => decoded(m3u_content@, link_set(watched_links@)) == Some(parser@),
                Err(e) => e == CatalogError::Parse && decoded(m3u_content@, link_set(watched_links@))
                    is None,
            },
    {
        match Self::parse_m3u8(m3u_content, watched_links) {
            Ok(m3u8_items) => Ok(Self { m3u8_items }),
            Err(e) => Err(e),
        }
    }

    /// The entries whose title holds `name`, whatever the case of either, or
    /// whose identifier holds `name` in lower case.
    pub fn find(&self, name: &str) -> (r: Vec<&M3u8>)
        ensures
            r.deep_view() == found(self@, name@),
    {
        WatchedFind::find(self, name)
    }

    /// Replaces the entries by those of `content`. An entry of the new text is
    /// watched exactly if an entry with its link was watched before. Where
    /// `content` is malformed the catalog stays as it was.
    pub fn forcefully_update(&mut self, content: &str) -> (r: Result<(), CatalogError>)
        ensures
            match r {
                Ok(()) => decoded(content@, watched_links_of(old(self)@).to_set()) == Some(
                    final(self)@,
                ),
                Err(e) => e == CatalogError::Parse && decoded(
                    content@,
                    watched_links_of(old(self)@).to_set(),
                ) is None && *final(self) == *old(self),
            },
    {
        let seen = self.get_watched_links();
        let mut seen_links: Vec<&str> = Vec::new();
        let mut i: usize = 0;
        while i < seen.len()
            invariant
                i <= seen.len(),
                texts(seen_links@) == seen.deep_view().take(i as int),
            decreases seen.len() - i,
        {
            let ghost before = texts(seen_links@);
            seen_links.push(seen[i].as_str());
            assert(texts(seen_links@) =~= before.push(seen[i as int]@));
            assert(seen.deep_view().take(i + 1) =~= seen.deep_view().take(i as int).push(
                seen[i as int]@,
            ));
            i += 1;
        }
        assert(seen.deep_view().take(seen.len() as int) =~= seen.deep_view());
        match Self::parse_m3u8(content, &seen_links) {
            Ok(m3u8_items) => {
                self.m3u8_items = m3u8_items;
                Ok(())
            },
            Err(e) => Err(e),
        }
    }

    /// The places, among the pairs of lines of a playlist, of the metadata
    /// lines whose attributes do not stand in their usual order. The values
    /// decoded from such a line are to be doubted.
    pub fn doubtful(content: &str) -> (r: Vec<usize>)
        ensures
            r@.map_values(|place: usize| place as int) == out_of_order(
                playlist_lines(content@),
                ((playlist_lines(content@).len() + 1) / 2) as nat,
            ),
    {
        let text = chars_of(content);
        let lines = lines_of(body_of(text.as_slice()));
        let n: usize = lines.len();
        let keys = AttributeKeys::new();
        let ghost all = playlist_lines(content@);
        let mut places: Vec<usize> = Vec::new();
        let mut i: usize = 0;
        assert(places@.map_values(|place: usize| place as int) =~= Seq::<int>::empty());
        while i < n
            invariant
                i % 2 == 0,
                i <= n + 1,
                n == lines.len(),
                keys.wf(),
                all == rows(lines@),
                all == playlist_lines(content@),
                places@.map_values(|place: usize| place as int) == out_of_order(
                    all,
                    (i / 2) as nat,
                ),
            decreases n + 1 - i,
        {
            let ghost before = places@.map_values(|place: usize| place as int);
            assert(all[2 * (i / 2)] == lines[i as int]@);
            if !usual_order(&keys, lines[i].as_slice()) {
                places.push(i / 2);
                assert(places@.map_values(|place: usize| place as int) =~= before.push(
                    (i / 2) as int,
                ));
            }
            assert(places@.map_values(|place: usize| place as int) == out_of_order(
                all,
                (i / 2 + 1) as nat,
            ));
            if n - i < 2 {
                assert(i / 2 + 1 == (n + 1) / 2);
                return places;
            }
            i += 2;
        }
        places
    }

    /// Records that the user has played the entries with the given link.
    /// Returns whether the catalog holds such an entry.
    pub fn mark_watched(&mut self, link: &str) -> (r: bool)
        ensures
            r == has_link(old(self)@, link@),
            final(self)@ == marked(old(self)@, link@),
    {
        let wanted = chars_of(link);
        let mut any = false;
        let mut i: usize = 0;
        let n: usize = self.m3u8_items.len();
        while i < n
            invariant
                i <= n,
                n == self.m3u8_items.len(),
                wanted@ == link@,
                self@.len() == old(self)@.len(),
                any == exists|k: int| 0 <= k < i && old(self)@[k].link == link@,
                forall|k: int| i <= k < n ==> (#[trigger] self@[k]) == old(self)@[k],
                forall|k: int|
                    0 <= k < i ==> (#[trigger] self@[k]) == if old(self)@[k].link == link@ {
                        ChannelEntry { watched: true, ..old(self)@[k] }
                    } else {
                        old(self)@[k]
                    },
            decreases n - i,
        {
            let ghost before = self@;
            assert(before[i as int] == old(self)@[i as int]);
            assert(before[i as int] == self.m3u8_items[i as int]@);
            let same = str_eq(self.m3u8_items[i].link.as_str(), wanted.as_slice());
            assert(same == (old(self)@[i as int].link == link@));
            if same {
                let mut entry = self.m3u8_items[i].clone();
                entry.watched = true;
                self.m3u8_items.set(i, entry);
                any = true;
                assert(self@[i as int] == entry@);
            }
            assert forall|k: int| 0 <= k < n && k != i implies (#[trigger] self@[k])
                == before[k] by {
                assert(self@[k] == self.m3u8_items[k]@);
                assert(before[k] == self.m3u8_items[k]@);
            }
            i += 1;
        }
        assert(self@ =~= marked(old(self)@, link@));
        any
    }

    /// The entries that a playlist text stands for, in the order of the text.
    /// The text is malformed where its lines do not pair up or a metadata line
    /// lacks an attribute or a title; nothing is decoded of such a text.
    pub fn parse_m3u8(content: &str, watched_links: &Vec<&str>) -> (r: Result<Vec<M3u8>, CatalogError>)
        ensures
            match r {
                Ok(items) => decoded(content@, link_set(watched_links@)) == Some(
                    items.deep_view(),
                ),
                Err(e) => e == CatalogError::Parse && decoded(content@, link_set(watched_links@))
                    is None,
            },
    {
        let text = chars_of(content);
        let lines = lines_of(body_of(text.as_slice()));
        let n: usize = lines.len();
        if n % 2 != 0 {
            return Err(CatalogError::Parse);
        }
        let keys = AttributeKeys::new();
        let ghost all = playlist_lines(content@);
        let ghost watched = link_set(watched_links@);
        let mut m3u8_items: Vec<M3u8> = Vec::new();
        let mut i: usize = 0;
        while i < n
            invariant
                i <= n,
                i % 2 == 0,
                n % 2 == 0,
                n == lines.len(),
                keys.wf(),
                all == rows(lines@),
                all == playlist_lines(content@),
                watched == link_set(watched_links@),
                m3u8_items.len() == i / 2,
                forall|j: int| 0 <= j < i && j % 2 == 0 ==> is_metadata(#[trigger] all[j]),
                forall|k: int|
                    0 <= k < i / 2 ==> (#[trigger] m3u8_items[k])@ == entries_of(all, watched)[k],
            decreases n - i,
        {
            match parse_entry(&keys, lines[i].as_slice(), lines[i + 1].as_slice(), watched_links) {
                Some(entry) => {
                    m3u8_items.push(entry);
                },
                None => {
                    assert(!is_metadata(all[i as int]));
                    return Err(CatalogError::Parse);
                },
            }
            i += 2;
        }
        assert(m3u8_items.deep_view() =~= entries_of(all, watched));
        Ok(m3u8_items)
    }
}

impl Deref for OnlineParser {
    type Target = Vec<M3u8>;

    fn deref(&self) -> (r: &Vec<M3u8>)
        ensures
            r.deep_view() == self@,
    {
        &self.m3u8_items
    }
}

impl GetM3u8 for OnlineParser {
    open spec fn entries(&self) -> Seq<ChannelEntry> {
        self@
    }

    fn get_m3u8(&self) -> (r: Vec<&M3u8>) {
        let mut out: Vec<&M3u8> = Vec::new();
        let mut i: usize = 0;
        while i < self.m3u8_items.len()
            invariant
                i <= self.m3u8_items.len(),
                out.len() == i,
                forall|k: int| 0 <= k < i ==> (#[trigger] out[k])@ == self.m3u8_items[k]@,
            decreases self.m3u8_items.len() - i,
        {
            out.push(&self.m3u8_items[i]);
            i += 1;
        }
        assert(out.deep_view() =~= self.m3u8_items.deep_view());
        out
    }
}

impl GetPlayPath for OnlineParser {
    /// A live entry is played from its link.
    open spec fn play_path(&self, link: Seq<char>) -> Option<Seq<char>> {
        Some(link)
    }

    fn get_path_to_play(&self, link: Rc<String>) -> (r: Result<Rc<String>, CatalogError>) {
        Ok(link)
    }
}

} // verus!

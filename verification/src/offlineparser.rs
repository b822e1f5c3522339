//! The archived catalog: the entries that were downloaded for offline use.

use crate::config::Configuration;
use crate::error::CatalogError;
use crate::m3u8::{ArchivedEntry, ChannelEntry, M3u8, OfflineEntry};
use crate::order::{le, lemma_insert_at, sorted_by_link, text_le};
use crate::parser::{GetM3u8, GetPlayPath};
use crate::text::{chars_of, str_eq};
use std::ops::Deref;
use std::rc::Rc;
use vstd::prelude::*;

verus! {

/// A catalog of the entries in the ledger of downloads. It cannot be refreshed.
pub struct OfflineParser {
    offline_entries: Vec<OfflineEntry>,
}

/// The entries of a ledger, without the places of the downloads.
pub open spec fn channels(ledger: Seq<ArchivedEntry>) -> Seq<ChannelEntry> {
    ledger.map_values(|a: ArchivedEntry| a.entry)
}

/// Whether `i` is the first place of the ledger whose entry has the link.
pub open spec fn is_first_with_link(ledger: Seq<ArchivedEntry>, link: Seq<char>, i: int) -> bool {
    &&& 0 <= i < ledger.len()
    &&& ledger[i].entry.link == link
    &&& forall|j: int| 0 <= j < i ==> ledger[j].entry.link != link
}

/// Whether some entry of the ledger has the link.
pub open spec fn is_archived(ledger: Seq<ArchivedEntry>, link: Seq<char>) -> bool {
    exists|i: int| 0 <= i < ledger.len() && ledger[i].entry.link == link
}

/// Where the media of the entry with the given link was downloaded to: the
/// path recorded with the first entry of the ledger that has the link.
pub open spec fn archived_path(ledger: Seq<ArchivedEntry>, link: Seq<char>) -> Option<Seq<char>> {
    if is_archived(ledger, link) {
        Some(ledger[choose|i: int| is_first_with_link(ledger, link, i)].path)
    } else {
        None
    }
}

/// The ledger, with the entries that have the given link taken as watched.
pub open spec fn marked_ledger(ledger: Seq<ArchivedEntry>, link: Seq<char>) -> Seq<ArchivedEntry> {
    ledger.map_values(
        |a: ArchivedEntry|
            if a.entry.link == link {
                ArchivedEntry { entry: ChannelEntry { watched: true, ..a.entry }, path: a.path }
            } else {
                a
            },
    )
}

impl View for OfflineParser {
    type V = Seq<ArchivedEntry>;

    /// The ledger, oldest download first.
    closed spec fn view(&self) -> Seq<ArchivedEntry> {
        self.offline_entries.deep_view()
    }
}

impl OfflineParser {
    /// The catalog of the ledger that the configuration holds.
    pub fn new(config: &Configuration) -> (r: Self)
        ensures
            r@ == config.ledger(),
    {
        let mut offline_entries: Vec<OfflineEntry> = Vec::new();
        let mut i: usize = 0;
        while i < config.offlinefile_content.len()
            invariant
                i <= config.offlinefile_content.len(),
                offline_entries.len() == i,
                forall|k: int|
                    0 <= k < i ==> (#[trigger] offline_entries[k])@
                        == config.offlinefile_content[k]@,
            decreases config.offlinefile_content.len() - i,
        {
            offline_entries.push(config.offlinefile_content[i].clone());
            i += 1;
        }
        assert(offline_entries.deep_view() =~= config.offlinefile_content.deep_view());
        Self { offline_entries }
    }

    /// Records that the user has played the entries with the given link.
    /// Returns whether the ledger holds such an entry.
    pub fn mark_watched(&mut self, link: &str) -> (r: bool)
        ensures
            r == is_archived(old(self)@, link@),
            final(self)@ == marked_ledger(old(self)@, link@),
    {
        let wanted = chars_of(link);
        let mut any = false;
        let mut i: usize = 0;
        let n: usize = self.offline_entries.len();
        while i < n
            invariant
                i <= n,
                n == self.offline_entries.len(),
                wanted@ == link@,
                self@.len() == old(self)@.len(),
                any == exists|k: int| 0 <= k < i && old(self)@[k].entry.link == link@,
                forall|k: int| i <= k < n ==> (#[trigger] self@[k]) == old(self)@[k],
                forall|k: int|
                    0 <= k < i ==> (#[trigger] self@[k]) == if old(self)@[k].entry.link == link@ {
                        ArchivedEntry {
                            entry: ChannelEntry { watched: true, ..old(self)@[k].entry },
                            path: old(self)@[k].path,
                        }
                    } else {
                        old(self)@[k]
                    },
            decreases n - i,
        {
            let ghost before = self@;
            assert(before[i as int] == old(self)@[i as int]);
            assert(before[i as int] == self.offline_entries[i as int]@);
            let same = str_eq(self.offline_entries[i].deref().link.as_str(), wanted.as_slice());
            assert(same == (old(self)@[i as int].entry.link == link@));
            if same {
                let mut entry = self.offline_entries[i].clone();
                entry.set_watched(true);
                self.offline_entries.set(i, entry);
                any = true;
                assert(self@[i as int] == entry@);
            }
            assert forall|k: int| 0 <= k < n && k != i implies (#[trigger] self@[k])
                == before[k] by {
                assert(self@[k] == self.offline_entries[k]@);
                assert(before[k] == self.offline_entries[k]@);
            }
            i += 1;
        }
        assert(self@ =~= marked_ledger(old(self)@, link@));
        any
    }
}

impl Deref for OfflineParser {
    type Target = Vec<OfflineEntry>;

    fn deref(&self) -> (r: &Vec<OfflineEntry>)
        ensures
            r.deep_view() == self@,
    {
        &self.offline_entries
    }
}

impl GetPlayPath for OfflineParser {
    /// An archived entry is played from the file it was downloaded to.
    open spec fn play_path(&self, link: Seq<char>) -> Option<Seq<char>> {
        archived_path(self@, link)
    }

    fn get_path_to_play(&self, link: Rc<String>) -> (r: Result<Rc<String>, CatalogError>) {
        let mut i: usize = 0;
        while i < self.offline_entries.len()
            invariant
                i <= self.offline_entries.len(),
                forall|j: int| 0 <= j < i ==> self@[j].entry.link != link@,
            decreases self.offline_entries.len() - i,
        {
            let offline_entry = &self.offline_entries[i];
            if *offline_entry.deref().link == *link {
                proof {
                    assert(is_first_with_link(self@, link@, i as int));
                    let k = choose|k: int| is_first_with_link(self@, link@, k);
                    assert(is_first_with_link(self@, link@, k));
                    assert(k == i);
                }
                return Ok(offline_entry.path.clone());
            }
            i += 1;
        }
        Err(CatalogError::NotArchived)
    }
}

impl GetM3u8 for OfflineParser {
    /// The entries of the ledger, in the order of their links.
    open spec fn entries(&self) -> Seq<ChannelEntry> {
        sorted_by_link(channels(self@))
    }

    fn get_m3u8(&self) -> (r: Vec<&M3u8>) {
        let mut items: Vec<&M3u8> = Vec::new();
        let n: usize = self.offline_entries.len();
        let mut i: usize = 0;
        assert(channels(self@).take(0) =~= Seq::empty());
        assert(items.deep_view() =~= Seq::empty());
        while i < n
            invariant
                i <= n,
                n == self.offline_entries.len(),
                items.len() == i,
                items.deep_view() == sorted_by_link(channels(self@).take(i as int)),
            decreases n - i,
        {
            let entry: &M3u8 = self.offline_entries[i].deref();
            let ghost sorted = items.deep_view();
            let mut p: usize = items.len();
            while p > 0 && !le(items[p - 1].link.as_str(), entry.link.as_str())
                invariant
                    p <= items.len(),
                    sorted == items.deep_view(),
                    forall|j: int| p <= j < sorted.len() ==> !text_le(sorted[j].link, entry@.link),
                decreases p,
            {
                p -= 1;
            }
            proof {
                lemma_insert_at(sorted, entry@, p as int);
                assert(channels(self@).take(i + 1).drop_last() =~= channels(self@).take(i as int));
                assert(channels(self@).take(i + 1).last() == entry@);
            }
            items.insert(p, entry);
            assert(items.deep_view() =~= sorted.insert(p as int, entry@));
            i += 1;
        }
        assert(channels(self@).take(n as int) =~= channels(self@));
        items
    }
}

} // verus!

//! What every catalog offers, whether it is live or archived: its entries, a
//! search among them, the entries that were watched, and the place from which
//! an entry is played.

use crate::error::CatalogError;
use crate::m3u8::{ChannelEntry, M3u8};
use crate::text::{chars_of, contains_sub, find_first, lowercase, lowercase_of};
use std::rc::Rc;
use vstd::prelude::*;

verus! {

/// Whether an entry answers a query that is already in lower case: the query
/// stands in the entry's title, whatever the case of the title, or in its
/// identifier as it is written.
pub open spec fn is_hit(entry: ChannelEntry, lowered_query: Seq<char>) -> bool {
    contains_sub(lowercase_of(entry.name), lowered_query) || contains_sub(
        entry.tvg_id,
        lowered_query,
    )
}

/// The entries that answer `query`, in their order.
pub open spec fn found(entries: Seq<ChannelEntry>, query: Seq<char>) -> Seq<ChannelEntry> {
    entries.filter(|e: ChannelEntry| is_hit(e, lowercase_of(query)))
}

/// The entries that were watched, in their order.
pub open spec fn watched_of(entries: Seq<ChannelEntry>) -> Seq<ChannelEntry> {
    entries.filter(|e: ChannelEntry| e.watched)
}

/// The links of the entries that were watched, in the order of the entries.
pub open spec fn watched_links_of(entries: Seq<ChannelEntry>) -> Seq<Seq<char>> {
    watched_of(entries).map_values(|e: ChannelEntry| e.link)
}

/// The entries, with those that have the given link taken as watched.
pub open spec fn marked(entries: Seq<ChannelEntry>, link: Seq<char>) -> Seq<ChannelEntry> {
    entries.map_values(
        |e: ChannelEntry|
            if e.link == link {
                ChannelEntry { watched: true, ..e }
            } else {
                e
            },
    )
}

/// Whether one of the entries has the given link.
pub open spec fn has_link(entries: Seq<ChannelEntry>, link: Seq<char>) -> bool {
    exists|i: int| 0 <= i < entries.len() && entries[i].link == link
}

/// One more entry adds itself to what was found if it answers the query.
pub proof fn lemma_found_push(entries: Seq<ChannelEntry>, entry: ChannelEntry, query: Seq<char>)
    ensures
        found(entries.push(entry), query) == if is_hit(entry, lowercase_of(query)) {
            found(entries, query).push(entry)
        } else {
            found(entries, query)
        },
{
    reveal(Seq::filter);
    assert(entries.push(entry).drop_last() =~= entries);
}

/// One more entry adds itself to the watched ones if it was watched.
pub proof fn lemma_watched_push(entries: Seq<ChannelEntry>, entry: ChannelEntry)
    ensures
        watched_of(entries.push(entry)) == if entry.watched {
            watched_of(entries).push(entry)
        } else {
            watched_of(entries)
        },
        watched_links_of(entries.push(entry)) == if entry.watched {
            watched_links_of(entries).push(entry.link)
        } else {
            watched_links_of(entries)
        },
{
    reveal(Seq::filter);
    assert(entries.push(entry).drop_last() =~= entries);
    if entry.watched {
        assert(watched_links_of(entries.push(entry)) =~= watched_links_of(entries).push(
            entry.link,
        ));
    }
}

/// Whether a query in lower case stands in a title in lower case or in an
/// identifier.
pub fn matches_query(lowered_name: &str, tvg_id: &str, lowered_query: &str) -> (r: bool)
    ensures
        r == (contains_sub(lowered_name@, lowered_query@) || contains_sub(
            tvg_id@,
            lowered_query@,
        )),
{
    let query = chars_of(lowered_query);
    let name = chars_of(lowered_name);
    if find_first(name.as_slice(), query.as_slice()).is_some() {
        return true;
    }
    let id = chars_of(tvg_id);
    find_first(id.as_slice(), query.as_slice()).is_some()
}

/// Whether an entry answers a query in lower case.
pub fn hit(entry: &M3u8, lowered_query: &str) -> (r: bool)
    ensures
        r == is_hit(entry@, lowered_query@),
{
    let lowered_name = lowercase(entry.name.as_str());
    matches_query(lowered_name.as_str(), entry.tvg_id.as_str(), lowered_query)
}

/// A catalog hands out its entries.
pub trait GetM3u8 {
    /// The entries of the catalog, in the order in which it hands them out.
    spec fn entries(&self) -> Seq<ChannelEntry>;

    fn get_m3u8(&self) -> (r: Vec<&M3u8>)
        ensures
            r.deep_view() == self.entries(),
    ;
}

/// Searching a catalog, and listing what was watched of it.
pub trait WatchedFind {
    fn find(&self, name: &str) -> Vec<&M3u8>;

    fn get_watched(&self) -> Vec<&M3u8>;

    fn get_watched_links(&self) -> Vec<Rc<String>>;
}

impl<T: GetM3u8> WatchedFind for T {
    /// The entries whose title holds `name`, whatever the case of either, or
    /// whose identifier holds `name` in lower case.
    fn find(&self, name: &str) -> (r: Vec<&M3u8>)
        ensures
            r.deep_view() == found(self.entries(), name@),
    {
        let query = lowercase(name);
        let all = self.get_m3u8();
        let mut out: Vec<&M3u8> = Vec::new();
        let mut i: usize = 0;
        assert(all.deep_view().take(0) =~= Seq::empty());
        assert(found(Seq::empty(), name@) =~= Seq::empty()) by {
            reveal(Seq::filter);
        }
        assert(out.deep_view() =~= Seq::empty());
        while i < all.len()
            invariant
                i <= all.len(),
                query@ == lowercase_of(name@),
                out.deep_view() == found(all.deep_view().take(i as int), name@),
            decreases all.len() - i,
        {
            let entry: &M3u8 = all[i];
            let ghost before = out.deep_view();
            proof {
                lemma_found_push(all.deep_view().take(i as int), entry@, name@);
                assert(all.deep_view().take(i as int).push(entry@) =~= all.deep_view().take(
                    i + 1,
                ));
            }
            if hit(entry, query.as_str()) {
                out.push(entry);
                assert(out.deep_view() =~= before.push(entry@));
            }
            i += 1;
        }
        assert(all.deep_view().take(all.len() as int) =~= all.deep_view());
        out
    }

    /// The entries that were watched.
    fn get_watched(&self) -> (r: Vec<&M3u8>)
        ensures
            r.deep_view() == watched_of(self.entries()),
    {
        let all = self.get_m3u8();
        let mut out: Vec<&M3u8> = Vec::new();
        let mut i: usize = 0;
        assert(all.deep_view().take(0) =~= Seq::empty());
        assert(watched_of(Seq::empty()) =~= Seq::empty()) by {
            reveal(Seq::filter);
        }
        assert(out.deep_view() =~= Seq::empty());
        while i < all.len()
            invariant
                i <= all.len(),
                out.deep_view() == watched_of(all.deep_view().take(i as int)),
            decreases all.len() - i,
        {
            let entry: &M3u8 = all[i];
            let ghost before = out.deep_view();
            proof {
                lemma_watched_push(all.deep_view().take(i as int), entry@);
                assert(all.deep_view().take(i as int).push(entry@) =~= all.deep_view().take(
                    i + 1,
                ));
            }
            if entry.watched {
                out.push(entry);
                assert(out.deep_view() =~= before.push(entry@));
            }
            i += 1;
        }
        assert(all.deep_view().take(all.len() as int) =~= all.deep_view());
        out
    }

    /// The links of the entries that were watched.
    fn get_watched_links(&self) -> (r: Vec<Rc<String>>)
        ensures
            r.deep_view() == watched_links_of(self.entries()),
    {
        let all = self.get_m3u8();
        let mut out: Vec<Rc<String>> = Vec::new();
        let mut i: usize = 0;
        assert(all.deep_view().take(0) =~= Seq::empty());
        assert(watched_links_of(Seq::empty()) =~= Seq::empty()) by {
            reveal(Seq::filter);
        }
        assert(out.deep_view() =~= Seq::empty());
        while i < all.len()
            invariant
                i <= all.len(),
                out.deep_view() == watched_links_of(all.deep_view().take(i as int)),
            decreases all.len() - i,
        {
            let entry: &M3u8 = all[i];
            let ghost before = out.deep_view();
            proof {
                lemma_watched_push(all.deep_view().take(i as int), entry@);
                assert(all.deep_view().take(i as int).push(entry@) =~= all.deep_view().take(
                    i + 1,
                ));
            }
            if entry.watched {
                out.push(entry.link.clone());
                assert(out.deep_view() =~= before.push(entry@.link));
            }
            i += 1;
        }
        assert(all.deep_view().take(all.len() as int) =~= all.deep_view());
        out
    }
}

/// A catalog says from where an entry is played.
pub trait GetPlayPath {
    /// The place from which the entry with the given link is played, if the
    /// catalog can play it.
    spec fn play_path(&self, link: Seq<char>) -> Option<Seq<char>>;

    fn get_path_to_play(&self, link: Rc<String>) -> (r: Result<Rc<String>, CatalogError>)
        ensures
            match r {
                Ok(path) => self.play_path(link@) == Some(path@),
                Err(e) => e == CatalogError::NotArchived && self.play_path(link@) is None,
            },
    ;
}

/// A catalog: it hands out its entries and says from where each is played.
pub trait Parser: GetM3u8 + GetPlayPath {

}

impl<T: GetM3u8 + GetPlayPath> Parser for T {

}

} // verus!

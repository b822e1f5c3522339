//! What holds of decoding and of the catalogs, whatever the playlist.

use crate::decode::{decoded, entries_of, entry_of, playlist_lines, well_formed};
use crate::m3u8::{ArchivedEntry, ChannelEntry};
use crate::offlineparser::{archived_path, is_archived, is_first_with_link};
use crate::parser::{lemma_watched_push, watched_links_of, watched_of};
use vstd::prelude::*;

verus! {

/// The links of the entries, in the order of the entries.
pub open spec fn links_of(entries: Seq<ChannelEntry>) -> Seq<Seq<char>> {
    entries.map_values(|e: ChannelEntry| e.link)
}

/// A well-formed playlist of `n` pairs of lines stands for exactly `n`
/// entries, in the order of the pairs: the entry at place `i` is the one of
/// pair `i`, and its link is the second line of that pair.
pub proof fn law_one_entry_per_pair(text: Seq<char>, watched: Set<Seq<char>>, n: nat)
    requires
        well_formed(playlist_lines(text)),
        playlist_lines(text).len() == 2 * n,
    ensures
        decoded(text, watched) is Some,
        decoded(text, watched).unwrap().len() == n,
        forall|i: int|
            0 <= i < n ==> entry_of(
                playlist_lines(text)[2 * i],
                playlist_lines(text)[2 * i + 1],
                watched,
            ) == Some(#[trigger] decoded(text, watched).unwrap()[i]),
        forall|i: int|
            0 <= i < n ==> (#[trigger] decoded(text, watched).unwrap()[i]).link == playlist_lines(
                text,
            )[2 * i + 1],
{
    let lines = playlist_lines(text);
    assert forall|i: int| 0 <= i < n implies entry_of(lines[2 * i], lines[2 * i + 1], watched)
        == Some(#[trigger] entries_of(lines, watched)[i]) by {
        assert(crate::decode::is_metadata(lines[2 * i]));
    }
}

/// A playlist that is not well-formed stands for nothing.
pub proof fn law_malformed_decodes_to_nothing(text: Seq<char>, watched: Set<Seq<char>>)
    ensures
        decoded(text, watched) is Some <==> well_formed(playlist_lines(text)),
{
}

/// An entry of a decoded playlist is watched exactly if its link is in the
/// set of watched links that went into the decoding.
pub proof fn law_watched_iff_link_in_set(text: Seq<char>, watched: Set<Seq<char>>)
    requires
        decoded(text, watched) is Some,
    ensures
        forall|i: int|
            0 <= i < decoded(text, watched).unwrap().len() ==> (#[trigger] decoded(
                text,
                watched,
            ).unwrap()[i]).watched == watched.contains(decoded(text, watched).unwrap()[i].link),
{
    let lines = playlist_lines(text);
    assert forall|i: int| 0 <= i < entries_of(lines, watched).len() implies (
    #[trigger] entries_of(lines, watched)[i]).watched == watched.contains(
        entries_of(lines, watched)[i].link,
    ) by {
        assert(crate::decode::is_metadata(lines[2 * i]));
    }
}

/// With no watched links, no entry of a decoded playlist is watched.
pub proof fn law_nothing_watched_without_links(text: Seq<char>)
    requires
        decoded(text, Set::empty()) is Some,
    ensures
        forall|i: int|
            0 <= i < decoded(text, Set::empty()).unwrap().len() ==> !(#[trigger] decoded(
                text,
                Set::empty(),
            ).unwrap()[i]).watched,
{
    law_watched_iff_link_in_set(text, Set::empty());
}

/// The watched links of some entries are the links of the watched entries.
pub proof fn lemma_watched_links(entries: Seq<ChannelEntry>, link: Seq<char>)
    ensures
        watched_links_of(entries).contains(link) <==> exists|j: int|
            0 <= j < entries.len() && (#[trigger] entries[j]).watched && entries[j].link == link,
    decreases entries.len(),
{
    if entries.len() == 0 {
        assert(watched_of(entries) =~= Seq::empty()) by {
            reveal(Seq::filter);
        }
        assert(watched_links_of(entries) =~= Seq::empty());
    } else {
        let front = entries.drop_last();
        let last = entries.last();
        assert(front.push(last) =~= entries);
        lemma_watched_push(front, last);
        lemma_watched_links(front, link);
        let all = watched_links_of(entries);
        let before = watched_links_of(front);
        if before.contains(link) {
            let k = choose|k: int| 0 <= k < before.len() && before[k] == link;
            assert(all[k] == link);
            let j = choose|j: int|
                0 <= j < front.len() && (#[trigger] front[j]).watched && front[j].link == link;
            assert(entries[j].watched && entries[j].link == link);
        }
        if last.watched && last.link == link {
            assert(all[all.len() - 1] == link);
            assert(entries[entries.len() - 1].watched);
        }
        if all.contains(link) && !before.contains(link) {
            let k = choose|k: int| 0 <= k < all.len() && all[k] == link;
            if last.watched {
                if k < before.len() {
                    assert(before[k] == link);
                }
            } else {
                assert(before[k] == link);
            }
            assert(entries[entries.len() - 1].watched);
        }
        if exists|j: int|
            0 <= j < entries.len() && (#[trigger] entries[j]).watched && entries[j].link == link {
            let j = choose|j: int|
                0 <= j < entries.len() && (#[trigger] entries[j]).watched && entries[j].link
                    == link;
            if j < front.len() {
                assert(front[j].watched && front[j].link == link);
            }
        }
    }
}

/// The watched entries of some entries are those whose own flag is set, in
/// their order, and no others.
pub proof fn lemma_watched_of(entries: Seq<ChannelEntry>, e: ChannelEntry)
    ensures
        watched_of(entries).contains(e) <==> entries.contains(e) && e.watched,
    decreases entries.len(),
{
    reveal(Seq::filter);
    if entries.len() > 0 {
        let front = entries.drop_last();
        let last = entries.last();
        assert(front.push(last) =~= entries);
        lemma_watched_push(front, last);
        lemma_watched_of(front, e);
        let all = watched_of(entries);
        let before = watched_of(front);
        if before.contains(e) {
            let k = choose|k: int| 0 <= k < before.len() && before[k] == e;
            assert(all[k] == e);
        }
        if front.contains(e) {
            let k = choose|k: int| 0 <= k < front.len() && front[k] == e;
            assert(entries[k] == e);
        }
        if last == e {
            assert(entries[entries.len() - 1] == e);
            if e.watched {
                assert(all[all.len() - 1] == e);
            }
        }
        if all.contains(e) && !before.contains(e) {
            let k = choose|k: int| 0 <= k < all.len() && all[k] == e;
            if k < before.len() {
                assert(before[k] == e);
            }
        }
        if entries.contains(e) && !front.contains(e) {
            let k = choose|k: int| 0 <= k < entries.len() && entries[k] == e;
            if k < front.len() {
                assert(front[k] == e);
            }
        }
    }
}

/// Listing what is watched of a decoded playlist gives back the watched
/// links that went in, as far as the playlist holds them: the entries listed
/// are the entries whose link is in the set, and their links are the set's
/// links that stand in the playlist.
pub proof fn law_watched_round_trip(text: Seq<char>, watched: Set<Seq<char>>)
    requires
        decoded(text, watched) is Some,
    ensures
        forall|e: ChannelEntry|
            #[trigger] watched_of(decoded(text, watched).unwrap()).contains(e) <==> decoded(
                text,
                watched,
            ).unwrap().contains(e) && watched.contains(e.link),
        watched_links_of(decoded(text, watched).unwrap()).to_set() == watched.intersect(
            links_of(decoded(text, watched).unwrap()).to_set(),
        ),
{
    let entries = decoded(text, watched).unwrap();
    law_watched_iff_link_in_set(text, watched);
    assert forall|e: ChannelEntry| #[trigger]
        watched_of(entries).contains(e) <==> entries.contains(e) && watched.contains(
            e.link,
        ) by {
        lemma_watched_of(entries, e);
        if entries.contains(e) {
            let k = choose|k: int| 0 <= k < entries.len() && entries[k] == e;
            assert(entries[k].watched == watched.contains(entries[k].link));
        }
    }
    let left = watched_links_of(entries).to_set();
    let right = watched.intersect(links_of(entries).to_set());
    assert forall|link: Seq<char>| left.contains(link) <==> right.contains(link) by {
        lemma_watched_links(entries, link);
        if left.contains(link) {
            let j = choose|j: int|
                0 <= j < entries.len() && (#[trigger] entries[j]).watched && entries[j].link
                    == link;
            assert(links_of(entries)[j] == link);
            assert(watched.contains(entries[j].link));
        }
        if right.contains(link) {
            let j = choose|j: int| 0 <= j < links_of(entries).len() && links_of(entries)[j] == link;
            assert(entries[j].watched == watched.contains(entries[j].link));
        }
    }
    assert(left =~= right);
}

/// A refresh carries the watched state forward. Where the entries `before`
/// are replaced by those of `text`, decoded with the watched links of
/// `before`, an entry of the new catalog is watched exactly if some entry
/// with its link was watched before.
pub proof fn law_refresh_carries_watched(before: Seq<ChannelEntry>, text: Seq<char>)
    requires
        decoded(text, watched_links_of(before).to_set()) is Some,
    ensures
        forall|i: int|
            0 <= i < decoded(text, watched_links_of(before).to_set()).unwrap().len() ==> ((
            #[trigger] decoded(text, watched_links_of(before).to_set()).unwrap()[i]).watched
                <==> exists|j: int|
                0 <= j < before.len() && (#[trigger] before[j]).watched && before[j].link
                    == decoded(text, watched_links_of(before).to_set()).unwrap()[i].link),
{
    let carried = watched_links_of(before).to_set();
    let now = decoded(text, carried).unwrap();
    law_watched_iff_link_in_set(text, carried);
    assert forall|i: int| 0 <= i < now.len() implies ((#[trigger] now[i]).watched <==> exists|
        j: int,
    |
        0 <= j < before.len() && (#[trigger] before[j]).watched && before[j].link
            == now[i].link) by {
        lemma_watched_links(before, now[i].link);
    }
}

/// An archived catalog plays a link that stands in its ledger from the path
/// recorded with the first entry that has the link, and knows no path for a
/// link that does not stand there.
pub proof fn law_archived_path(ledger: Seq<ArchivedEntry>, link: Seq<char>)
    ensures
        is_archived(ledger, link) ==> exists|i: int|
            is_first_with_link(ledger, link, i) && archived_path(ledger, link) == Some(
                ledger[i].path,
            ),
        !is_archived(ledger, link) ==> archived_path(ledger, link) is None,
{
    if is_archived(ledger, link) {
        let k = choose|k: int| 0 <= k < ledger.len() && ledger[k].entry.link == link;
        lemma_first_with_link(ledger, link, k);
        let i = choose|i: int| is_first_with_link(ledger, link, i);
        assert(is_first_with_link(ledger, link, i));
    }
}

/// Where some entry up to place `k` has the link, one of them is the first.
proof fn lemma_first_with_link(ledger: Seq<ArchivedEntry>, link: Seq<char>, k: int)
    requires
        0 <= k < ledger.len(),
        ledger[k].entry.link == link,
    ensures
        exists|i: int| is_first_with_link(ledger, link, i),
    decreases k,
{
    if exists|j: int| 0 <= j < k && ledger[j].entry.link == link {
        let j = choose|j: int| 0 <= j < k && ledger[j].entry.link == link;
        lemma_first_with_link(ledger, link, j);
    } else {
        assert(is_first_with_link(ledger, link, k));
    }
}

} // verus!

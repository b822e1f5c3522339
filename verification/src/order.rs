//! The order in which an archived catalog hands out its entries: by link, as
//! strings are ordered, which is byte by byte in their UTF-8 form.

use crate::m3u8::ChannelEntry;
use vstd::prelude::*;
use vstd::utf8::encode_utf8;

verus! {

/// Whether `a` stands before `b`, or is `b`, in the lexicographic order of bytes.
pub open spec fn bytes_le(a: Seq<u8>, b: Seq<u8>) -> bool
    decreases a.len(),
{
    if a.len() == 0 {
        true
    } else if b.len() == 0 {
        false
    } else if a[0] != b[0] {
        a[0] < b[0]
    } else {
        bytes_le(a.drop_first(), b.drop_first())
    }
}

/// Whether the text `a` stands before `b`, or is `b`, in the order of strings.
pub open spec fn text_le(a: Seq<char>, b: Seq<char>) -> bool {
    bytes_le(encode_utf8(a), encode_utf8(b))
}

/// `sorted` with `entry` put behind the last entry whose link does not stand
/// after its own.
pub open spec fn insert_by_link(sorted: Seq<ChannelEntry>, entry: ChannelEntry) -> Seq<
    ChannelEntry,
>
    decreases sorted.len(),
{
    if sorted.len() == 0 {
        seq![entry]
    } else if text_le(sorted.last().link, entry.link) {
        sorted.push(entry)
    } else {
        insert_by_link(sorted.drop_last(), entry).push(sorted.last())
    }
}

/// The entries in the order of their links. Entries with the same link keep
/// the order in which they stand in `entries`.
pub open spec fn sorted_by_link(entries: Seq<ChannelEntry>) -> Seq<ChannelEntry>
    decreases entries.len(),
{
    if entries.len() == 0 {
        entries
    } else {
        insert_by_link(sorted_by_link(entries.drop_last()), entries.last())
    }
}

/// Where an entry is put: behind the last entry whose link is not greater,
/// before all that follow.
pub proof fn lemma_insert_at(sorted: Seq<ChannelEntry>, entry: ChannelEntry, p: int)
    requires
        0 <= p <= sorted.len(),
        forall|j: int| p <= j < sorted.len() ==> !text_le(sorted[j].link, entry.link),
        p > 0 ==> text_le(sorted[p - 1].link, entry.link),
    ensures
        insert_by_link(sorted, entry) == sorted.insert(p, entry),
    decreases sorted.len() - p,
{
    if p == sorted.len() {
        assert(sorted.insert(p, entry) =~= sorted.push(entry));
        if p == 0 {
            assert(sorted.push(entry) =~= seq![entry]);
        }
    } else {
        lemma_insert_at(sorted.drop_last(), entry, p);
        assert(sorted.drop_last().insert(p, entry).push(sorted.last()) =~= sorted.insert(
            p,
            entry,
        ));
    }
}

/// Whether `a` stands before `b`, or is `b`, in the order of strings.
pub fn le(a: &str, b: &str) -> (r: bool)
    ensures
        r == text_le(a@, b@),
{
    let x = a.as_bytes();
    let y = b.as_bytes();
    let mut i: usize = 0;
    assert(x@.skip(0) =~= x@);
    assert(y@.skip(0) =~= y@);
    loop
        invariant
            i <= x.len(),
            i <= y.len(),
            x@ == encode_utf8(a@),
            y@ == encode_utf8(b@),
            bytes_le(x@, y@) == bytes_le(x@.skip(i as int), y@.skip(i as int)),
        decreases x.len() - i,
    {
        if i == x.len() {
            return true;
        }
        if i == y.len() {
            return false;
        }
        if x[i] != y[i] {
            return x[i] < y[i];
        }
        assert(x@.skip(i as int).drop_first() =~= x@.skip(i + 1));
        assert(y@.skip(i as int).drop_first() =~= y@.skip(i + 1));
        i += 1;
    }
}

/// Of two byte sequences one stands before the other, or they are the same.
pub proof fn lemma_bytes_le_total(a: Seq<u8>, b: Seq<u8>)
    ensures
        bytes_le(a, b) || bytes_le(b, a),
    decreases a.len(),
{
    if a.len() > 0 && b.len() > 0 && a[0] == b[0] {
        lemma_bytes_le_total(a.drop_first(), b.drop_first());
    }
}

/// What stands before something that stands before a third stands before
/// the third.
pub proof fn lemma_bytes_le_transitive(a: Seq<u8>, b: Seq<u8>, c: Seq<u8>)
    requires
        bytes_le(a, b),
        bytes_le(b, c),
    ensures
        bytes_le(a, c),
    decreases a.len(),
{
    if a.len() > 0 && b.len() > 0 && c.len() > 0 && a[0] == b[0] && b[0] == c[0] {
        lemma_bytes_le_transitive(a.drop_first(), b.drop_first(), c.drop_first());
    }
}

/// Whether the links of the entries never go down from one entry to a later
/// one.
pub open spec fn ordered_by_link(entries: Seq<ChannelEntry>) -> bool {
    forall|i: int, j: int|
        0 <= i < j < entries.len() ==> text_le(
            (#[trigger] entries[i]).link,
            (#[trigger] entries[j]).link,
        )
}

/// An entry is put at some place of the entries, which stay as they are.
pub proof fn lemma_insert_somewhere(sorted: Seq<ChannelEntry>, entry: ChannelEntry) -> (p: int)
    ensures
        0 <= p <= sorted.len(),
        insert_by_link(sorted, entry) == sorted.insert(p, entry),
        forall|j: int| p <= j < sorted.len() ==> !text_le(sorted[j].link, entry.link),
        p > 0 ==> text_le(sorted[p - 1].link, entry.link),
    decreases sorted.len(),
{
    if sorted.len() == 0 || text_le(sorted.last().link, entry.link) {
        let p = sorted.len() as int;
        lemma_insert_at(sorted, entry, p);
        p
    } else {
        let front = sorted.drop_last();
        let p = lemma_insert_somewhere(front, entry);
        assert forall|j: int| p <= j < sorted.len() implies !text_le(
            sorted[j].link,
            entry.link,
        ) by {
            if j < front.len() {
                assert(front[j] == sorted[j]);
            }
        }
        if p > 0 {
            assert(front[p - 1] == sorted[p - 1]);
        }
        lemma_insert_at(sorted, entry, p);
        p
    }
}

/// Putting an entry into ordered entries leaves them ordered.
pub proof fn lemma_insert_keeps_order(sorted: Seq<ChannelEntry>, entry: ChannelEntry)
    requires
        ordered_by_link(sorted),
    ensures
        ordered_by_link(insert_by_link(sorted, entry)),
{
    let p = lemma_insert_somewhere(sorted, entry);
    let out = sorted.insert(p, entry);
    assert forall|i: int, j: int| 0 <= i < j < out.len() implies text_le(
        (#[trigger] out[i]).link,
        (#[trigger] out[j]).link,
    ) by {
        let a = encode_utf8(out[i].link);
        let b = encode_utf8(out[j].link);
        if j < p {
            assert(out[i] == sorted[i] && out[j] == sorted[j]);
        } else if j == p {
            assert(out[i] == sorted[i] && out[j] == entry);
            if i < p - 1 {
                assert(text_le(sorted[i].link, sorted[p - 1].link));
                lemma_bytes_le_transitive(a, encode_utf8(sorted[p - 1].link), b);
            }
        } else if i < p {
            assert(out[i] == sorted[i] && out[j] == sorted[j - 1]);
            if i < j - 1 {
                assert(text_le(sorted[i].link, sorted[j - 1].link));
            } else {
                lemma_bytes_le_total(encode_utf8(sorted[p].link), encode_utf8(entry.link));
                lemma_bytes_le_transitive(a, encode_utf8(entry.link), b);
            }
        } else if i == p {
            assert(out[i] == entry && out[j] == sorted[j - 1]);
            lemma_bytes_le_total(b, a);
        } else {
            assert(out[i] == sorted[i - 1] && out[j] == sorted[j - 1]);
        }
    }
}

/// What `sorted_by_link` gives is in the order of the links, and holds the
/// same entries as often as they were given.
pub proof fn law_sorted_by_link(entries: Seq<ChannelEntry>)
    ensures
        ordered_by_link(sorted_by_link(entries)),
        sorted_by_link(entries).to_multiset() == entries.to_multiset(),
        sorted_by_link(entries).len() == entries.len(),
    decreases entries.len(),
{
    broadcast use vstd::seq_lib::group_to_multiset_ensures;

    if entries.len() > 0 {
        let front = entries.drop_last();
        let last = entries.last();
        law_sorted_by_link(front);
        lemma_insert_keeps_order(sorted_by_link(front), last);
        let p = lemma_insert_somewhere(sorted_by_link(front), last);
        vstd::seq_lib::to_multiset_insert(sorted_by_link(front), p, last);
        assert(front.push(last) =~= entries);
        assert(sorted_by_link(entries).to_multiset() =~= entries.to_multiset());
    }
}

} // verus!

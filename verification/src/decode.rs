//! What a playlist text means.
//!
//! An extended playlist is a header line followed by pairs of lines: a metadata
//! line, which carries the attributes and the title of a channel, and the line
//! of the channel's link. This module says, over sequences of characters, which
//! entries a text stands for, and computes the entry of one pair of lines.

use crate::m3u8::{ChannelEntry, M3u8};
use crate::text::{
    chars_of, find_first, find_last, first_occurrence, last_index_of, starts_with, str_eq,
    string_of, trimmed_lines,
};
use std::rc::Rc;
use vstd::prelude::*;
use vstd::slice::slice_subrange;

verus! {

/// The header line of a playlist, with its line feed.
pub open spec fn header() -> Seq<char> {
    "#EXTM3U\n"@
}

/// `text` without the header line, if it begins with one.
pub open spec fn without_header(text: Seq<char>) -> Seq<char> {
    if starts_with(text, header()) {
        text.skip(header().len() as int)
    } else {
        text
    }
}

/// The lines of a playlist that make up its entries: all lines after the
/// header, each one trimmed.
pub open spec fn playlist_lines(text: Seq<char>) -> Seq<Seq<char>> {
    trimmed_lines(without_header(text))
}

/// The value of the attribute `name` in a metadata line: what stands between
/// the first `name=` and the end of the last `=` of the line.
pub open spec fn attribute(line: Seq<char>, name: Seq<char>) -> Option<Seq<char>> {
    match (first_occurrence(line, name.push('=')), last_index_of(line, '=')) {
        (Some(k), Some(e)) => Some(line.subrange(k + name.len() + 1, e + 1)),
        _ => None,
    }
}

/// The title in a metadata line: what follows its last comma.
pub open spec fn display_name(line: Seq<char>) -> Option<Seq<char>> {
    match last_index_of(line, ',') {
        Some(k) => Some(line.skip(k + 1)),
        None => None,
    }
}

/// The entry that a metadata line and the line of the link stand for, if the
/// metadata line holds the four attributes and a title.
pub open spec fn entry_of(meta: Seq<char>, uri: Seq<char>, watched: Set<Seq<char>>) -> Option<
    ChannelEntry,
> {
    match (
        attribute(meta, "tvg-id"@),
        attribute(meta, "tvg-name"@),
        attribute(meta, "tvg-logo"@),
        attribute(meta, "group-title"@),
        display_name(meta),
    ) {
        (Some(tvg_id), Some(tvg_name), Some(tvg_logo), Some(group_title), Some(name)) => Some(
            ChannelEntry {
                tvg_id,
                tvg_name,
                tvg_logo,
                group_title,
                name,
                link: uri,
                watched: watched.contains(uri),
            },
        ),
        _ => None,
    }
}

/// Whether a line holds what an entry needs of its metadata line: the four
/// attributes and a title.
pub open spec fn is_metadata(line: Seq<char>) -> bool {
    &&& attribute(line, "tvg-id"@) is Some
    &&& attribute(line, "tvg-name"@) is Some
    &&& attribute(line, "tvg-logo"@) is Some
    &&& attribute(line, "group-title"@) is Some
    &&& display_name(line) is Some
}

/// Whether the four attributes of a metadata line stand in their usual
/// order: `tvg-id`, `tvg-name`, `tvg-logo`, `group-title`. The value of an
/// attribute runs on through the last `=` of the line, so it holds all that
/// follows it; where the attributes stand in another order, the values are
/// not what the writer of the line meant.
pub open spec fn in_usual_order(line: Seq<char>) -> bool {
    match (
        first_occurrence(line, "tvg-id"@.push('=')),
        first_occurrence(line, "tvg-name"@.push('=')),
        first_occurrence(line, "tvg-logo"@.push('=')),
        first_occurrence(line, "group-title"@.push('=')),
    ) {
        (Some(a), Some(b), Some(c), Some(d)) => a < b < c < d,
        _ => false,
    }
}

/// The places, among the first `pairs` pairs of lines, of the metadata lines
/// whose attributes do not stand in their usual order.
pub open spec fn out_of_order(lines: Seq<Seq<char>>, pairs: nat) -> Seq<int>
    decreases pairs,
{
    if pairs == 0 {
        Seq::empty()
    } else {
        let before = out_of_order(lines, (pairs - 1) as nat);
        if in_usual_order(lines[2 * (pairs - 1)]) {
            before
        } else {
            before.push(pairs - 1)
        }
    }
}

/// Whether the lines pair up, a metadata line before each line of a link.
pub open spec fn well_formed(lines: Seq<Seq<char>>) -> bool {
    &&& lines.len() % 2 == 0
    &&& forall|j: int| 0 <= j < lines.len() && j % 2 == 0 ==> is_metadata(#[trigger] lines[j])
}

/// The entries of well-formed lines, in the order of the lines.
pub open spec fn entries_of(lines: Seq<Seq<char>>, watched: Set<Seq<char>>) -> Seq<ChannelEntry> {
    Seq::new(
        (lines.len() / 2) as nat,
        |i: int| entry_of(lines[2 * i], lines[2 * i + 1], watched).unwrap(),
    )
}

/// The entries that a playlist text stands for, or `None` where it is malformed.
/// `watched` holds the links that the user has played.
pub open spec fn decoded(text: Seq<char>, watched: Set<Seq<char>>) -> Option<Seq<ChannelEntry>> {
    let lines = playlist_lines(text);
    if well_formed(lines) {
        Some(entries_of(lines, watched))
    } else {
        None
    }
}

/// The character sequences of a list of strings.
pub open spec fn texts(v: Seq<&str>) -> Seq<Seq<char>> {
    v.map_values(|s: &str| s@)
}

/// The set of links that a list of links holds.
pub open spec fn link_set(v: Seq<&str>) -> Set<Seq<char>> {
    texts(v).to_set()
}

/// The patterns by which the four attributes are found in a metadata line.
pub(crate) struct AttributeKeys {
    tvg_id: Vec<char>,
    tvg_name: Vec<char>,
    tvg_logo: Vec<char>,
    group_title: Vec<char>,
}

impl AttributeKeys {
    /// Whether each pattern is the name of its attribute followed by `=`.
    pub(crate) closed spec fn wf(&self) -> bool {
        &&& self.tvg_id@ == "tvg-id"@.push('=')
        &&& self.tvg_name@ == "tvg-name"@.push('=')
        &&& self.tvg_logo@ == "tvg-logo"@.push('=')
        &&& self.group_title@ == "group-title"@.push('=')
    }

    pub(crate) fn new() -> (r: Self)
        ensures
            r.wf(),
    {
        AttributeKeys {
            tvg_id: key_of("tvg-id"),
            tvg_name: key_of("tvg-name"),
            tvg_logo: key_of("tvg-logo"),
            group_title: key_of("group-title"),
        }
    }
}

/// The pattern by which the attribute `name` is found.
fn key_of(name: &str) -> (r: Vec<char>)
    ensures
        r@ == name@.push('='),
{
    let mut key = chars_of(name);
    key.push('=');
    key
}

/// The value of the attribute whose pattern is `key`.
fn attribute_of(line: &[char], key: &[char]) -> (r: Option<String>)
    requires
        key@.len() > 0,
        key@.last() == '=',
    ensures
        match r {
            Some(value) => attribute(line@, key@.drop_last()) == Some(value@),
            None => attribute(line@, key@.drop_last()) is None,
        },
{
    assert(key@.drop_last().push('=') =~= key@);
    let n: usize = line.len();
    match find_first(line, key) {
        None => None,
        Some(k) => match find_last(line, '=') {
            None => None,
            Some(e) => {
                proof {
                    let at = k + key@.len() - 1;
                    assert(line@.subrange(k as int, k + key@.len())[key@.len() - 1] == line@[at]);
                    assert(line@[at] == '=');
                    assert(at <= e < n);
                    assert(k + key@.len() <= n);
                }
                Some(string_of(slice_subrange(line, k + key.len(), e + 1)))
            },
        },
    }
}

/// Whether the four attributes of a metadata line stand in their usual order.
pub(crate) fn usual_order(keys: &AttributeKeys, line: &[char]) -> (r: bool)
    requires
        keys.wf(),
    ensures
        r == in_usual_order(line@),
{
    let a = match find_first(line, keys.tvg_id.as_slice()) {
        Some(at) => at,
        None => { return false; },
    };
    let b = match find_first(line, keys.tvg_name.as_slice()) {
        Some(at) => at,
        None => { return false; },
    };
    let c = match find_first(line, keys.tvg_logo.as_slice()) {
        Some(at) => at,
        None => { return false; },
    };
    let d = match find_first(line, keys.group_title.as_slice()) {
        Some(at) => at,
        None => { return false; },
    };
    a < b && b < c && c < d
}

/// The title in a metadata line.
fn display_name_of(line: &[char]) -> (r: Option<String>)
    ensures
        match r {
            Some(name) => display_name(line@) == Some(name@),
            None => display_name(line@) is None,
        },
{
    let n: usize = line.len();
    match find_last(line, ',') {
        None => None,
        Some(k) => {
            assert(k < n);
            assert(line@.skip(k + 1) =~= line@.subrange(k + 1, n as int));
            Some(string_of(slice_subrange(line, k + 1, n)))
        },
    }
}

/// Whether `link` is one of `watched_links`.
pub fn is_watched(watched_links: &Vec<&str>, link: &[char]) -> (r: bool)
    ensures
        r == link_set(watched_links@).contains(link@),
{
    let mut i: usize = 0;
    while i < watched_links.len()
        invariant
            i <= watched_links.len(),
            forall|j: int| 0 <= j < i ==> texts(watched_links@)[j] != link@,
        decreases watched_links.len() - i,
    {
        if str_eq(watched_links[i], link) {
            assert(texts(watched_links@)[i as int] == link@);
            return true;
        }
        i += 1;
    }
    false
}

/// The entry of one pair of lines.
pub(crate) fn parse_entry(keys: &AttributeKeys, meta: &[char], uri: &[char], watched_links: &Vec<&str>) -> (r:
    Option<M3u8>)
    requires
        keys.wf(),
    ensures
        match r {
            Some(entry) => entry_of(meta@, uri@, link_set(watched_links@)) == Some(entry@),
            None => entry_of(meta@, uri@, link_set(watched_links@)) is None,
        },
{
    proof {
        assert("tvg-id"@.push('=').drop_last() =~= "tvg-id"@);
        assert("tvg-name"@.push('=').drop_last() =~= "tvg-name"@);
        assert("tvg-logo"@.push('=').drop_last() =~= "tvg-logo"@);
        assert("group-title"@.push('=').drop_last() =~= "group-title"@);
    }
    let tvg_id = match attribute_of(meta, keys.tvg_id.as_slice()) {
        Some(value) => value,
        None => { return None; },
    };
    let tvg_name = match attribute_of(meta, keys.tvg_name.as_slice()) {
        Some(value) => value,
        None => { return None; },
    };
    let tvg_logo = match attribute_of(meta, keys.tvg_logo.as_slice()) {
        Some(value) => value,
        None => { return None; },
    };
    let group_title = match attribute_of(meta, keys.group_title.as_slice()) {
        Some(value) => value,
        None => { return None; },
    };
    let name = match display_name_of(meta) {
        Some(value) => value,
        None => { return None; },
    };
    let watched = is_watched(watched_links, uri);
    Some(
        M3u8 {
            tvg_id,
            tvg_name,
            tvg_logo,
            group_title,
            name,
            link: Rc::new(string_of(uri)),
            watched,
        },
    )
}

} // verus!

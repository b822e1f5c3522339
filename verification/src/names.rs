//! The names of the files that downloads are written to, and the arguments
//! that the player is started with.

use crate::text::{chars_of, find_last, last_index_of, string_of};
use vstd::prelude::*;
use vstd::slice::slice_subrange;
use vstd::string::StringExecFns;
use vstd::utf8::encode_utf8;

verus! {

/// The ending that a download gets where its link suggests none.
pub open spec fn standard_ending() -> Seq<char> {
    ".mkv"@
}

/// The ending of the file that the media behind `link` is written to: what
/// the link holds from its last dot on, unless that is longer than six bytes,
/// where the standard ending takes its place. A link without a dot has no
/// ending.
pub open spec fn ending_of(link: Seq<char>) -> Option<Seq<char>> {
    match last_index_of(link, '.') {
        Some(k) => if encode_utf8(link.skip(k)).len() > 6 {
            Some(standard_ending())
        } else {
            Some(link.skip(k))
        },
        None => None,
    }
}

/// The ending of the file that an entry is archived in, by its title: what
/// the title holds from its last dot on where fewer than six bytes stand
/// before that dot, and the standard ending otherwise.
pub open spec fn archive_ending_of(name: Seq<char>) -> Seq<char> {
    match last_index_of(name, '.') {
        Some(k) => if encode_utf8(name.take(k)).len() < 6 {
            name.skip(k)
        } else {
            standard_ending()
        },
        None => standard_ending(),
    }
}

/// The arguments that the player is started with.
pub open spec fn player_args_of(link: Seq<char>, fullscreen: bool) -> Seq<Seq<char>> {
    if fullscreen {
        seq![link, "--fs"@]
    } else {
        seq![link]
    }
}

/// The ending of the file that the media behind `link` is written to.
pub fn file_ending(link: &str) -> (r: Option<String>)
    ensures
        match r {
            Some(ending) => ending_of(link@) == Some(ending@),
            None => ending_of(link@) is None,
        },
{
    let text = chars_of(link);
    let n: usize = text.len();
    match find_last(text.as_slice(), '.') {
        None => None,
        Some(k) => {
            assert(text@.skip(k as int) =~= text@.subrange(k as int, n as int));
            let tail = string_of(slice_subrange(text.as_slice(), k, n));
            if tail.as_str().as_bytes().len() > 6 {
                Some(".mkv".to_owned())
            } else {
                Some(tail)
            }
        },
    }
}

/// The name of the file that an entry is downloaded to: its title, then the
/// ending that its link gives.
pub fn download_file_name(name: &str, link: &str) -> (r: Option<String>)
    ensures
        match r {
            Some(file) => ending_of(link@) matches Some(ending) && file@ == name@ + ending,
            None => ending_of(link@) is None,
        },
{
    match file_ending(link) {
        Some(ending) => Some(name.to_owned().concat(ending.as_str())),
        None => None,
    }
}

/// The name of the file that an entry is archived in: its title, then the
/// ending that its title gives.
pub fn archive_file_name(name: &str) -> (r: String)
    ensures
        r@ == name@ + archive_ending_of(name@),
{
    let text = chars_of(name);
    let n: usize = text.len();
    let ending = match find_last(text.as_slice(), '.') {
        None => ".mkv".to_owned(),
        Some(k) => {
            assert(text@.take(k as int) =~= text@.subrange(0, k as int));
            assert(text@.skip(k as int) =~= text@.subrange(k as int, n as int));
            let front = string_of(slice_subrange(text.as_slice(), 0, k));
            if front.as_str().as_bytes().len() < 6 {
                string_of(slice_subrange(text.as_slice(), k, n))
            } else {
                ".mkv".to_owned()
            }
        },
    };
    name.to_owned().concat(ending.as_str())
}

/// The arguments that the player is started with: the place to play from,
/// and the switch for the full screen where that is wanted.
pub fn player_args(link: &str, fullscreen: bool) -> (r: Vec<String>)
    ensures
        r.deep_view() == player_args_of(link@, fullscreen),
{
    let mut args: Vec<String> = Vec::new();
    args.push(link.to_owned());
    if fullscreen {
        args.push("--fs".to_owned());
    }
    assert(args.deep_view() =~= player_args_of(link@, fullscreen));
    args
}

} // verus!

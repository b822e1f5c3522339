//! Text as sequences of characters.
//!
//! Playlists, queries and commands are all described over `Seq<char>`, the view
//! of `str` and `String`. This module holds the vocabulary of those descriptions
//! (white space, trimming, lines, occurrences of one sequence in another) and the
//! executable functions that compute them on `Vec<char>`.

use vstd::prelude::*;
use vstd::slice::{slice_subrange, slice_to_vec};

verus! {

/// Whether `c` has the Unicode property `White_Space`.
pub open spec fn is_space(c: char) -> bool {
    let u = c as u32;
    ||| 0x09 <= u <= 0x0D
    ||| u == 0x20
    ||| u == 0x85
    ||| u == 0xA0
    ||| u == 0x1680
    ||| 0x2000 <= u <= 0x200A
    ||| u == 0x2028
    ||| u == 0x2029
    ||| u == 0x202F
    ||| u == 0x205F
    ||| u == 0x3000
}

/// `s` without its leading white space.
pub open spec fn trim_start(s: Seq<char>) -> Seq<char>
    decreases s.len(),
{
    if s.len() > 0 && is_space(s[0]) {
        trim_start(s.drop_first())
    } else {
        s
    }
}

/// `s` without its trailing white space.
pub open spec fn trim_end(s: Seq<char>) -> Seq<char>
    decreases s.len(),
{
    if s.len() > 0 && is_space(s.last()) {
        trim_end(s.drop_last())
    } else {
        s
    }
}

/// `s` without leading and trailing white space.
pub open spec fn trimmed(s: Seq<char>) -> Seq<char> {
    trim_end(trim_start(s))
}

/// Number of characters of `s` before the first `stop`, or the length of `s`
/// if it holds none.
pub open spec fn until(s: Seq<char>, stop: char) -> nat
    decreases s.len(),
{
    if s.len() == 0 || s[0] == stop {
        0
    } else {
        1 + until(s.drop_first(), stop)
    }
}

/// The lines of `s`: the pieces between line feeds. A line feed at the very
/// end of `s` closes the last line and opens no empty one after it.
pub open spec fn split_lines(s: Seq<char>) -> Seq<Seq<char>>
    decreases s.len(),
{
    if s.len() == 0 {
        Seq::empty()
    } else {
        let k = until(s, '\n') as int;
        if k < s.len() {
            seq![s.take(k)] + split_lines(s.skip(k + 1))
        } else {
            seq![s]
        }
    }
}

/// The pieces of `s` between the separators; one piece where it holds none.
pub open spec fn split_on(s: Seq<char>, sep: char) -> Seq<Seq<char>>
    decreases s.len(),
{
    let k = until(s, sep) as int;
    if k < s.len() {
        seq![s.take(k)] + split_on(s.skip(k + 1), sep)
    } else {
        seq![s]
    }
}

/// The lines of `s`, each one trimmed.
pub open spec fn trimmed_lines(s: Seq<char>) -> Seq<Seq<char>> {
    split_lines(s).map_values(|line: Seq<char>| trimmed(line))
}

/// Whether `needle` stands in `hay` at index `i`.
pub open spec fn occurs_at(hay: Seq<char>, needle: Seq<char>, i: int) -> bool {
    &&& 0 <= i
    &&& i + needle.len() <= hay.len()
    &&& hay.subrange(i, i + needle.len()) == needle
}

/// Whether `needle` stands somewhere in `hay`.
pub open spec fn contains_sub(hay: Seq<char>, needle: Seq<char>) -> bool {
    exists|i: int| occurs_at(hay, needle, i)
}

/// Whether `i` is the least index at which `needle` stands in `hay`.
pub open spec fn is_first_occurrence(hay: Seq<char>, needle: Seq<char>, i: int) -> bool {
    &&& occurs_at(hay, needle, i)
    &&& forall|j: int| 0 <= j < i ==> !occurs_at(hay, needle, j)
}

/// The least index at which `needle` stands in `hay`, if it stands there at all.
pub open spec fn first_occurrence(hay: Seq<char>, needle: Seq<char>) -> Option<int> {
    if contains_sub(hay, needle) {
        Some(choose|i: int| is_first_occurrence(hay, needle, i))
    } else {
        None
    }
}

/// Whether `i` is the greatest index of `s` that holds `c`.
pub open spec fn is_last_index_of(s: Seq<char>, c: char, i: int) -> bool {
    &&& 0 <= i < s.len()
    &&& s[i] == c
    &&& forall|j: int| i < j < s.len() ==> s[j] != c
}

/// The greatest index of `s` that holds `c`, if any does.
pub open spec fn last_index_of(s: Seq<char>, c: char) -> Option<int> {
    if s.contains(c) {
        Some(choose|i: int| is_last_index_of(s, c, i))
    } else {
        None
    }
}

/// Whether `s` begins with `prefix`.
pub open spec fn starts_with(s: Seq<char>, prefix: Seq<char>) -> bool {
    occurs_at(s, prefix, 0)
}

/// Decides `is_space`.
pub fn space(c: char) -> (r: bool)
    ensures
        r == is_space(c),
{
    let u: u32 = c as u32;
    (0x09 <= u && u <= 0x0D) || u == 0x20 || u == 0x85 || u == 0xA0 || u == 0x1680 || (0x2000 <= u
        && u <= 0x200A) || u == 0x2028 || u == 0x2029 || u == 0x202F || u == 0x205F || u == 0x3000
}

/// The characters of `s`.
pub fn chars_of(s: &str) -> (v: Vec<char>)
    ensures
        v@ == s@,
{
    let mut v: Vec<char> = Vec::new();
    for c in it: s.chars()
        invariant
            v@ == it.seq().take(it.index() as int),
            it.seq() == s@,
    {
        v.push(c);
    }
    v
}

/// Whether `needle` stands in `hay` at index `i`.
pub fn stands_at(hay: &[char], needle: &[char], i: usize) -> (r: bool)
    ensures
        r == occurs_at(hay@, needle@, i as int),
{
    if needle.len() > hay.len() || i > hay.len() - needle.len() {
        return false;
    }
    let mut k: usize = 0;
    while k < needle.len()
        invariant
            k <= needle.len(),
            i + needle.len() <= hay.len(),
            forall|j: int| 0 <= j < k ==> hay@[i + j] == needle@[j],
        decreases needle.len() - k,
    {
        if hay[i + k] != needle[k] {
            proof {
                let sub = hay@.subrange(i as int, i + needle@.len());
                assert(sub[k as int] == hay@[i + k]);
            }
            return false;
        }
        k += 1;
    }
    assert(hay@.subrange(i as int, i + needle@.len()) =~= needle@);
    true
}

/// The least index at which `needle` stands in `hay`.
pub fn find_first(hay: &[char], needle: &[char]) -> (r: Option<usize>)
    ensures
        match r {
            Some(i) => first_occurrence(hay@, needle@) == Some(i as int) && is_first_occurrence(
                hay@,
                needle@,
                i as int,
            ),
            None => first_occurrence(hay@, needle@) is None,
        },
{
    if needle.len() > hay.len() {
        return None;
    }
    let last: usize = hay.len() - needle.len();
    let mut i: usize = 0;
    loop
        invariant
            i <= last,
            last == hay.len() - needle.len(),
            forall|j: int| 0 <= j < i ==> !occurs_at(hay@, needle@, j),
        decreases last - i,
    {
        if stands_at(hay, needle, i) {
            proof {
                lemma_first_occurrence(hay@, needle@, i as int);
            }
            return Some(i);
        }
        if i == last {
            return None;
        }
        i += 1;
    }
}

/// An index that is a first occurrence is the first occurrence.
pub proof fn lemma_first_occurrence(hay: Seq<char>, needle: Seq<char>, i: int)
    requires
        is_first_occurrence(hay, needle, i),
    ensures
        first_occurrence(hay, needle) == Some(i),
{
    let k = choose|k: int| is_first_occurrence(hay, needle, k);
    assert(is_first_occurrence(hay, needle, k));
    assert(occurs_at(hay, needle, k));
    assert(occurs_at(hay, needle, i));
    if k < i {
        assert(!occurs_at(hay, needle, k));
    }
    if i < k {
        assert(!occurs_at(hay, needle, i));
    }
}

/// An index that is a last index is the last index.
pub proof fn lemma_last_index_of(s: Seq<char>, c: char, i: int)
    requires
        is_last_index_of(s, c, i),
    ensures
        last_index_of(s, c) == Some(i),
{
    let k = choose|k: int| is_last_index_of(s, c, k);
    assert(s.contains(c));
    assert(is_last_index_of(s, c, k));
}

/// The greatest index of `s` that holds `c`.
pub fn find_last(s: &[char], c: char) -> (r: Option<usize>)
    ensures
        match r {
            Some(i) => last_index_of(s@, c) == Some(i as int) && is_last_index_of(s@, c, i as int),
            None => last_index_of(s@, c) is None,
        },
{
    let mut i: usize = s.len();
    while i > 0
        invariant
            i <= s.len(),
            forall|j: int| i <= j < s.len() ==> s@[j] != c,
        decreases i,
    {
        i -= 1;
        if s[i] == c {
            proof {
                lemma_last_index_of(s@, c, i as int);
            }
            return Some(i);
        }
    }
    None
}

/// The bounds of `s` without its leading and trailing white space.
pub fn trim_range(s: &[char]) -> (r: (usize, usize))
    ensures
        r.0 <= r.1 <= s.len(),
        s@.subrange(r.0 as int, r.1 as int) == trimmed(s@),
{
    let n: usize = s.len();
    let mut a: usize = 0;
    assert(s@.skip(0) =~= s@);
    while a < n && space(s[a])
        invariant
            a <= n,
            n == s.len(),
            trim_start(s@) == trim_start(s@.skip(a as int)),
        decreases n - a,
    {
        assert(s@.skip(a as int).drop_first() =~= s@.skip(a + 1));
        a += 1;
    }
    assert(trim_start(s@) == s@.skip(a as int));
    assert(s@.skip(a as int) =~= s@.subrange(a as int, n as int));
    let mut b: usize = n;
    while b > a && space(s[b - 1])
        invariant
            a <= b <= n,
            n == s.len(),
            trimmed(s@) == trim_end(s@.subrange(a as int, b as int)),
        decreases b,
    {
        assert(s@.subrange(a as int, b as int).drop_last() =~= s@.subrange(a as int, b - 1));
        b -= 1;
    }
    (a, b)
}

/// The sequences that the rows of `v` hold.
pub open spec fn rows(v: Seq<Vec<char>>) -> Seq<Seq<char>> {
    v.map_values(|row: Vec<char>| row@)
}

/// The run before the first `stop` ends where the first `stop` stands.
pub proof fn lemma_until(s: Seq<char>, stop: char, j: int)
    requires
        0 <= j <= s.len(),
        forall|k: int| 0 <= k < j ==> s[k] != stop,
        j == s.len() || s[j] == stop,
    ensures
        until(s, stop) == j,
    decreases j,
{
    if j > 0 {
        lemma_until(s.drop_first(), stop, j - 1);
    }
}

/// The trimmed lines of `text`.
pub fn lines_of(text: &[char]) -> (lines: Vec<Vec<char>>)
    ensures
        rows(lines@) == trimmed_lines(text@),
{
    let n: usize = text.len();
    let mut lines: Vec<Vec<char>> = Vec::new();
    let mut pos: usize = 0;
    assert(text@.skip(0) =~= text@);
    assert(rows(lines@) + trimmed_lines(text@.skip(0)) =~= trimmed_lines(text@));
    while pos < n
        invariant
            pos <= n,
            n == text.len(),
            trimmed_lines(text@) == rows(lines@) + trimmed_lines(text@.skip(pos as int)),
        decreases n - pos,
    {
        let mut j: usize = pos;
        while j < n && text[j] != '\n'
            invariant
                pos <= j <= n,
                n == text.len(),
                forall|k: int| pos <= k < j ==> text@[k] != '\n',
            decreases n - j,
        {
            j += 1;
        }
        let raw = slice_subrange(text, pos, j);
        let (a, b) = trim_range(raw);
        let line = slice_to_vec(slice_subrange(raw, a, b));
        let next: usize = if j < n { j + 1 } else { n };
        proof {
            let rest = text@.skip(pos as int);
            lemma_until(rest, '\n', j - pos);
            assert(rest.take(j - pos) =~= raw@);
            if j < n {
                assert(rest.skip(j - pos + 1) =~= text@.skip(j + 1));
            } else {
                assert(rest =~= raw@);
                assert(split_lines(text@.skip(n as int)) =~= Seq::empty());
            }
            assert(split_lines(rest) == seq![raw@] + split_lines(text@.skip(next as int)));
            assert(trimmed_lines(rest) =~= seq![trimmed(raw@)] + trimmed_lines(
                text@.skip(next as int),
            ));
            assert(rows(lines@.push(line)) =~= rows(lines@) + seq![trimmed(raw@)]);
        }
        lines.push(line);
        pos = next;
    }
    assert(trimmed_lines(text@.skip(n as int)) =~= Seq::empty());
    lines
}

/// The string that holds the characters of `s`, in their order.
///
/// Trusted: the body collects the characters with `String::from_iter`, which
/// appends each `char` it is given to an empty `String`.
#[verifier::external_body]
pub(crate) fn string_of(s: &[char]) -> (r: String)
    ensures
        r@ == s@,
{
    String::from_iter(s.iter())
}

/// Whether `s` holds exactly the characters of `v`.
pub fn str_eq(s: &str, v: &[char]) -> (r: bool)
    ensures
        r == (s@ == v@),
{
    let n: usize = v.len();
    let mut i: usize = 0;
    for c in it: s.chars()
        invariant
            it.seq() == s@,
            i == it.index(),
            n == v.len(),
            i <= n,
            forall|j: int| 0 <= j < i ==> s@[j] == v@[j],
    {
        if i == n || v[i] != c {
            return false;
        }
        i += 1;
    }
    assert(i == n ==> s@ =~= v@);
    i == n
}

/// What `str::to_lowercase` makes of a text: each character replaced by its
/// lower case after the Unicode tables, which may be several characters.
pub uninterp spec fn lowercase_of(s: Seq<char>) -> Seq<char>;

/// `s` in lower case.
///
/// Trusted: the body calls `str::to_lowercase`, whose result depends on the
/// characters of `s` alone.
#[verifier::external_body]
pub(crate) fn lowercase(s: &str) -> (r: String)
    ensures
        r@ == lowercase_of(s@),
{
    s.to_lowercase()
}

/// The pieces of `text` between the separators.
pub fn pieces_of(text: &[char], sep: char) -> (pieces: Vec<Vec<char>>)
    ensures
        rows(pieces@) == split_on(text@, sep),
{
    let n: usize = text.len();
    let mut pieces: Vec<Vec<char>> = Vec::new();
    let mut pos: usize = 0;
    assert(text@.skip(0) =~= text@);
    assert(rows(pieces@) + split_on(text@.skip(0), sep) =~= split_on(text@, sep));
    loop
        invariant
            pos <= n,
            n == text.len(),
            split_on(text@, sep) == rows(pieces@) + split_on(text@.skip(pos as int), sep),
        decreases n - pos,
    {
        let mut j: usize = pos;
        while j < n && text[j] != sep
            invariant
                pos <= j <= n,
                n == text.len(),
                forall|k: int| pos <= k < j ==> text@[k] != sep,
            decreases n - j,
        {
            j += 1;
        }
        let piece = slice_to_vec(slice_subrange(text, pos, j));
        proof {
            let rest = text@.skip(pos as int);
            lemma_until(rest, sep, j - pos);
            assert(rest.take(j - pos) =~= piece@);
            if j < n {
                assert(rest.skip(j - pos + 1) =~= text@.skip(j + 1));
                assert(split_on(rest, sep) == seq![piece@] + split_on(text@.skip(j + 1), sep));
                assert(rows(pieces@.push(piece)) + split_on(text@.skip(j + 1), sep) =~= rows(
                    pieces@,
                ) + split_on(rest, sep));
            } else {
                assert(rest =~= piece@);
                assert(rows(pieces@.push(piece)) =~= rows(pieces@) + split_on(rest, sep));
            }
        }
        pieces.push(piece);
        if j == n {
            return pieces;
        }
        pos = j + 1;
    }
}

/// `s` without leading and trailing white space.
pub fn trim(s: &str) -> (r: String)
    ensures
        r@ == trimmed(s@),
{
    let text = chars_of(s);
    let (a, b) = trim_range(text.as_slice());
    string_of(slice_subrange(text.as_slice(), a, b))
}

} // verus!

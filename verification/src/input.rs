//! What the user types: numbers, selections of entries, answers to questions.

use crate::opt::{mode_chosen, Mode};
use crate::text::{
    chars_of, lowercase, lowercase_of, pieces_of, rows, split_on, str_eq, trim, trim_range,
    trimmed,
};
use vstd::prelude::*;
use vstd::slice::slice_subrange;

verus! {

/// The value of a decimal digit.
pub open spec fn digit_of(c: char) -> Option<nat> {
    if '0' <= c <= '9' {
        Some((c as u32 - '0' as u32) as nat)
    } else {
        None
    }
}

/// The number that a text of decimal digits stands for. The empty text and
/// a text that holds anything but digits stand for none.
pub open spec fn decimal(s: Seq<char>) -> Option<nat>
    decreases s.len(),
{
    if s.len() == 0 {
        None
    } else if s.len() == 1 {
        digit_of(s[0])
    } else {
        match (decimal(s.drop_last()), digit_of(s.last())) {
            (Some(high), Some(low)) => Some(10 * high + low),
            _ => None,
        }
    }
}

/// The number that a text stands for: decimal digits, with or without a plus
/// sign before them.
pub open spec fn number_of(s: Seq<char>) -> Option<nat> {
    if s.len() > 0 && s[0] == '+' {
        decimal(s.drop_first())
    } else {
        decimal(s)
    }
}

/// The place in a list of `count` entries that a piece of a selection picks:
/// the piece, trimmed, is a number from 1 to `count`, and the place is one
/// less.
pub open spec fn place_of(piece: Seq<char>, count: nat) -> Option<nat> {
    match number_of(trimmed(piece)) {
        Some(n) => if 1 <= n <= count {
            Some((n - 1) as nat)
        } else {
            None
        },
        None => None,
    }
}

/// Which entries a user picked.
#[derive(Debug, PartialEq, Eq)]
pub enum Selection {
    /// All of them.
    All,
    /// Those at the given places, in the order in which they were picked.
    Picked(Vec<usize>),
    /// The answer was no selection.
    Invalid,
}

/// A `Selection` as mathematical values.
pub ghost enum SelectionView {
    All,
    Picked(Seq<nat>),
    Invalid,
}

impl View for Selection {
    type V = SelectionView;

    open spec fn view(&self) -> SelectionView {
        match self {
            Selection::All => SelectionView::All,
            Selection::Picked(places) => SelectionView::Picked(
                places@.map_values(|p: usize| p as nat),
            ),
            Selection::Invalid => SelectionView::Invalid,
        }
    }
}

/// The selection that an answer in lower case stands for, among `count`
/// entries: `a` for all of them, or numbers from 1 to `count` with commas
/// between them. White space around the answer and around each number does
/// not count.
pub open spec fn selection_of(lowered: Seq<char>, count: nat) -> SelectionView {
    let answer = trimmed(lowered);
    let pieces = split_on(answer, ',');
    if answer == "a"@ {
        SelectionView::All
    } else if forall|i: int| 0 <= i < pieces.len() ==> place_of(#[trigger] pieces[i], count) is Some {
        SelectionView::Picked(pieces.map_values(|p: Seq<char>| place_of(p, count).unwrap()))
    } else {
        SelectionView::Invalid
    }
}

/// What a user answered when asked for a mode.
#[derive(Clone, Copy, Debug, PartialEq, Eq, Structural)]
pub enum ModeAnswer {
    /// A mode.
    Chosen(Mode),
    /// A number that stands for no mode.
    Neither,
    /// No number that fits in a byte.
    NotANumber,
}

/// The answer that a text stands for, white space around it not counting.
pub open spec fn mode_answer_of(input: Seq<char>) -> ModeAnswer {
    match number_of(trimmed(input)) {
        Some(n) => if n > u8::MAX {
            ModeAnswer::NotANumber
        } else {
            match mode_chosen(n as u8) {
                Some(mode) => ModeAnswer::Chosen(mode),
                None => ModeAnswer::Neither,
            }
        },
        None => ModeAnswer::NotANumber,
    }
}

/// The front of a number is a number, and not a greater one.
proof fn lemma_decimal_front(s: Seq<char>, k: int)
    requires
        0 < k <= s.len(),
        decimal(s) is Some,
    ensures
        decimal(s.take(k)) is Some,
        decimal(s.take(k)).unwrap() <= decimal(s).unwrap(),
        digit_of(s[k - 1]) is Some,
    decreases s.len(),
{
    if k == s.len() {
        assert(s.take(k) =~= s);
    } else {
        lemma_decimal_front(s.drop_last(), k);
        assert(s.drop_last().take(k) =~= s.take(k));
    }
}

/// The value of a decimal digit.
fn digit(c: char) -> (r: Option<usize>)
    ensures
        match r {
            Some(d) => digit_of(c) == Some(d as nat) && d <= 9,
            None => digit_of(c) is None,
        },
{
    if '0' <= c && c <= '9' {
        Some((c as u32 - '0' as u32) as usize)
    } else {
        None
    }
}

/// The number that a text stands for, if it fits.
pub fn parse_number(s: &[char]) -> (r: Option<usize>)
    ensures
        match r {
            Some(n) => number_of(s@) == Some(n as nat),
            None => number_of(s@) is None || number_of(s@).unwrap() > usize::MAX,
        },
{
    let n: usize = s.len();
    let start: usize = if n > 0 && s[0] == '+' {
        1
    } else {
        0
    };
    let ghost digits = s@.subrange(start as int, n as int);
    assert(start == 1 ==> s@.drop_first() =~= digits);
    assert(start == 0 ==> s@ =~= digits);
    if start == n {
        return None;
    }
    let mut acc: usize = 0;
    let mut i: usize = start;
    while i < n
        invariant
            start <= i <= n,
            n == s.len(),
            digits == s@.subrange(start as int, n as int),
            number_of(s@) == decimal(digits),
            i == start ==> acc == 0,
            i > start ==> decimal(digits.take(i - start)) == Some(acc as nat),
        decreases n - i,
    {
        let ghost front = digits.take(i + 1 - start);
        assert(front.last() == s@[i as int]);
        assert(digits[i - start] == s@[i as int]);
        assert(front.drop_last() =~= digits.take(i - start));
        match digit(s[i]) {
            None => {
                proof {
                    if decimal(digits) is Some {
                        lemma_decimal_front(digits, i + 1 - start);
                    }
                }
                return None;
            },
            Some(d) => {
                assert(decimal(front) == Some((10 * acc + d) as nat));
                if acc > (usize::MAX - d) / 10 {
                    proof {
                        if decimal(digits) is Some {
                            lemma_decimal_front(digits, i + 1 - start);
                        }
                    }
                    return None;
                }
                acc = acc * 10 + d;
            },
        }
        i += 1;
    }
    assert(digits.take(n - start) =~= digits);
    Some(acc)
}

/// The place that a piece of a selection picks among `count` entries.
pub fn parse_place(piece: &[char], count: usize) -> (r: Option<usize>)
    ensures
        match r {
            Some(place) => place_of(piece@, count as nat) == Some(place as nat),
            None => place_of(piece@, count as nat) is None,
        },
{
    let (a, b) = trim_range(piece);
    match parse_number(slice_subrange(piece, a, b)) {
        Some(n) => if 1 <= n && n <= count {
            Some(n - 1)
        } else {
            None
        },
        None => None,
    }
}

/// The selection that an answer in lower case stands for, among `count`
/// entries.
pub fn parse_selection(lowered: &str, count: usize) -> (r: Selection)
    ensures
        r@ == selection_of(lowered@, count as nat),
{
    let text = chars_of(lowered);
    let (a, b) = trim_range(text.as_slice());
    let answer = slice_subrange(text.as_slice(), a, b);
    if str_eq("a", answer) {
        return Selection::All;
    }
    let pieces = pieces_of(answer, ',');
    let ghost all = split_on(answer@, ',');
    let mut places: Vec<usize> = Vec::new();
    let mut i: usize = 0;
    while i < pieces.len()
        invariant
            i <= pieces.len(),
            all == rows(pieces@),
            all == split_on(trimmed(lowered@), ','),
            trimmed(lowered@) != "a"@,
            places.len() == i,
            forall|k: int|
                0 <= k < i ==> place_of(#[trigger] all[k], count as nat) == Some(
                    places[k] as nat,
                ),
        decreases pieces.len() - i,
    {
        match parse_place(pieces[i].as_slice(), count) {
            Some(place) => {
                places.push(place);
            },
            None => {
                assert(place_of(all[i as int], count as nat) is None);
                return Selection::Invalid;
            },
        }
        i += 1;
    }
    assert(places@.map_values(|p: usize| p as nat) =~= all.map_values(
        |p: Seq<char>| place_of(p, count as nat).unwrap(),
    ));
    Selection::Picked(places)
}

/// The selection that an answer stands for, whatever its case.
pub fn which_to_download(answer: &str, count: usize) -> (r: Selection)
    ensures
        r@ == selection_of(lowercase_of(answer@), count as nat),
{
    let lowered = lowercase(answer);
    parse_selection(lowered.as_str(), count)
}

/// The place that an answer picks among `count` entries.
pub fn which_to_stream(answer: &str, count: usize) -> (r: Option<usize>)
    ensures
        match r {
            Some(place) => place_of(answer@, count as nat) == Some(place as nat),
            None => place_of(answer@, count as nat) is None,
        },
{
    let text = chars_of(answer);
    parse_place(text.as_slice(), count)
}

/// What a user answered when asked for a mode.
pub fn mode_answer(input: &str) -> (r: ModeAnswer)
    ensures
        r == mode_answer_of(input@),
{
    let text = chars_of(input);
    let (a, b) = trim_range(text.as_slice());
    match parse_number(slice_subrange(text.as_slice(), a, b)) {
        Some(n) => if n > 255 {
            ModeAnswer::NotANumber
        } else {
            match Mode::from_choice(n as u8) {
                Some(mode) => ModeAnswer::Chosen(mode),
                None => ModeAnswer::Neither,
            }
        },
        None => ModeAnswer::NotANumber,
    }
}

/// Whether an answer in lower case confirms: anything does but `n`.
pub fn confirms_lowered(lowered: &str) -> (r: bool)
    ensures
        r == (lowered@ != "n"@),
{
    let text = chars_of(lowered);
    !str_eq("n", text.as_slice())
}

/// Whether an answer confirms: anything does but `n` or `N`, white space
/// around it not counting.
pub fn confirms(answer: &str) -> (r: bool)
    ensures
        r == (lowercase_of(trimmed(answer@)) != "n"@),
{
    let answer = trim(answer);
    let lowered = lowercase(answer.as_str());
    confirms_lowered(lowered.as_str())
}

} // verus!

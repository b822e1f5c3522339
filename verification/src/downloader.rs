//! The decisions of one transfer: whether anything is left to transfer, and
//! how far the transfer has come.

use crate::text::string_of;
use vstd::prelude::*;
use vstd::string::StringExecFns;

verus! {

/// How far a transfer has come.
#[derive(Clone, Copy, Debug, PartialEq, Eq, Structural)]
pub struct Progress {
    /// How many bytes have come so far, never more than `total`.
    pub downloaded: u64,
    /// How many bytes the server announced.
    pub total: u64,
}

/// Whether a transfer has anything to bring: the server announced a length,
/// and it is not zero. A resumed transfer of a file that is already complete
/// has nothing to bring.
pub open spec fn anything_left(content_length: Option<u64>) -> bool {
    content_length matches Some(n) && n > 0
}

/// The smaller of two numbers.
pub open spec fn smaller(a: int, b: int) -> int {
    if a <= b {
        a
    } else {
        b
    }
}

impl Progress {
    /// Whether no more bytes have come than were announced.
    pub open spec fn wf(&self) -> bool {
        self.downloaded <= self.total
    }

    /// The progress at the beginning of a transfer of the announced length,
    /// or `None` where nothing is left to transfer and the destination is
    /// complete as it stands.
    pub fn begin(content_length: Option<u64>) -> (r: Option<Progress>)
        ensures
            match r {
                Some(progress) => anything_left(content_length) && progress == (Progress {
                    downloaded: 0,
                    total: content_length.unwrap(),
                }),
                None => !anything_left(content_length),
            },
    {
        match content_length {
            Some(total) => if total == 0 {
                None
            } else {
                Some(Progress { downloaded: 0, total })
            },
            None => None,
        }
    }

    /// Counts a chunk of `chunk_len` bytes. The count never passes the
    /// announced length.
    pub fn advance(&mut self, chunk_len: usize)
        ensures
            final(self).total == old(self).total,
            final(self).downloaded == smaller(
                old(self).downloaded + chunk_len,
                old(self).total as int,
            ),
            final(self).wf(),
    {
        if self.downloaded >= self.total {
            self.downloaded = self.total;
        } else {
            let left: u64 = self.total - self.downloaded;
            if chunk_len as u64 >= left {
                self.downloaded = self.total;
            } else {
                self.downloaded = self.downloaded + chunk_len as u64;
            }
        }
    }
}

/// The character of a decimal digit.
pub open spec fn digit_char(d: nat) -> char {
    ((48 + d) as u8) as char
}

/// A number in decimal digits, without leading zeros.
pub open spec fn digits_of(n: nat) -> Seq<char>
    decreases n,
{
    if n < 10 {
        seq![digit_char(n)]
    } else {
        digits_of(n / 10).push(digit_char(n % 10))
    }
}

/// The value of the `Range` header that asks for what follows the first
/// `already` bytes.
pub open spec fn range_of(already: u64) -> Seq<char> {
    "bytes="@ + digits_of(already as nat) + "-"@
}

/// A number in decimal digits.
fn digits(n: u64) -> (r: Vec<char>)
    ensures
        r@ == digits_of(n as nat),
    decreases n,
{
    let low: u8 = (n % 10) as u8;
    let c: char = (48u8 + low) as char;
    if n < 10 {
        let mut out: Vec<char> = Vec::new();
        out.push(c);
        assert(out@ =~= seq![digit_char(n as nat)]);
        out
    } else {
        let mut out = digits(n / 10);
        out.push(c);
        out
    }
}

/// The value of the `Range` header with which a transfer is resumed after
/// the bytes that the destination already holds.
pub fn range_header(already: u64) -> (r: String)
    ensures
        r@ == range_of(already),
{
    let number = string_of(digits(already).as_slice());
    "bytes=".to_owned().concat(number.as_str()).concat("-")
}

} // verus!

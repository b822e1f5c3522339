//! The mode in which the program starts.

use crate::text::{chars_of, lowercase, lowercase_of, str_eq};
use std::str::FromStr;
use vstd::prelude::*;

verus! {

/// Which catalog the program starts with.
#[derive(Clone, Copy, Debug, PartialEq, Eq, Structural)]
pub enum Mode {
    /// The live catalog.
    Online,
    /// The archived catalog.
    Offline,
    /// Whichever the user picks when asked.
    Ask,
}

/// The mode that a name in lower case stands for.
pub open spec fn mode_named(lowered: Seq<char>) -> Option<Mode> {
    if lowered == "online"@ {
        Some(Mode::Online)
    } else if lowered == "offline"@ {
        Some(Mode::Offline)
    } else if lowered == "ask"@ || lowered == "default"@ {
        Some(Mode::Ask)
    } else {
        None
    }
}

/// The mode that the user's answer to the question "online or offline?"
/// stands for: `1` for the live catalog, `2` for the archived one.
pub open spec fn mode_chosen(number: u8) -> Option<Mode> {
    if number == 1 {
        Some(Mode::Online)
    } else if number == 2 {
        Some(Mode::Offline)
    } else {
        None
    }
}

impl Default for Mode {
    fn default() -> (r: Self)
        ensures
            r == Mode::Ask,
    {
        Mode::Ask
    }
}

impl Mode {
    /// The mode that a name in lower case stands for.
    pub fn from_lowercase(name: &str) -> (r: Result<Mode, &'static str>)
        ensures
            match r {
                Ok(mode) => mode_named(name@) == Some(mode),
                Err(e) => mode_named(name@) is None && e@ == "No such enum"@,
            },
    {
        let name = chars_of(name);
        if str_eq("online", name.as_slice()) {
            Ok(Mode::Online)
        } else if str_eq("offline", name.as_slice()) {
            Ok(Mode::Offline)
        } else if str_eq("ask", name.as_slice()) || str_eq("default", name.as_slice()) {
            Ok(Mode::Ask)
        } else {
            Err("No such enum")
        }
    }

    /// The mode that the user picked by number.
    pub fn from_choice(number: u8) -> (r: Option<Mode>)
        ensures
            r == mode_chosen(number),
    {
        if number == 1 {
            Some(Mode::Online)
        } else if number == 2 {
            Some(Mode::Offline)
        } else {
            None
        }
    }
}

impl FromStr for Mode {
    type Err = &'static str;

    /// The mode that a name stands for, whatever its case.
    fn from_str(s: &str) -> (r: Result<Self, Self::Err>)
        ensures
            match r {
                Ok(mode) => mode_named(lowercase_of(s@)) == Some(mode),
                Err(e) => mode_named(lowercase_of(s@)) is None && e@ == "No such enum"@,
            },
    {
        let lowered = lowercase(s);
        Mode::from_lowercase(lowered.as_str())
    }
}

} // verus!

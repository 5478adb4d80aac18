//! Values of player properties that are written as words.

use crate::text::str_eq;
use vstd::prelude::*;

verus! {

pub const YES: &'static str = "yes";

pub const NO: &'static str = "no";

pub const ALWAYS: &'static str = "always";

/// A property that is on or off.
#[derive(Clone, Copy, Debug, PartialEq, Eq, Structural)]
pub enum YesNo {
    Yes,
    No,
}

/// A property that is on, off, or always on.
#[derive(Clone, Copy, Debug, PartialEq, Eq, Structural)]
pub enum YesNoAlways {
    Yes,
    No,
    Always,
}

/// The word of a [`YesNo`].
pub open spec fn yes_no_word(v: YesNo) -> Seq<char> {
    match v {
        YesNo::Yes => YES@,
        YesNo::No => NO@,
    }
}

/// The word of a [`YesNoAlways`].
pub open spec fn yes_no_always_word(v: YesNoAlways) -> Seq<char> {
    match v {
        YesNoAlways::Yes => YES@,
        YesNoAlways::No => NO@,
        YesNoAlways::Always => ALWAYS@,
    }
}

impl YesNo {
    /// The word that the player uses for the value.
    pub fn with_c(self) -> (w: &'static str)
        ensures
            w@ == yes_no_word(self),
    {
        match self {
            YesNo::Yes => YES,
            YesNo::No => NO,
        }
    }

    /// The value that the word stands for, if it is one of the two words.
    pub fn from_c(src: &str) -> (v: Option<YesNo>)
        ensures
            src@ == YES@ ==> v == Some(YesNo::Yes),
            src@ != YES@ && src@ == NO@ ==> v == Some(YesNo::No),
            src@ != YES@ && src@ != NO@ ==> v is None,
    {
        if str_eq(src, YES) {
            Some(YesNo::Yes)
        } else if str_eq(src, NO) {
            Some(YesNo::No)
        } else {
            None
        }
    }
}

impl YesNoAlways {
    /// The word that the player uses for the value.
    pub fn with_c(self) -> (w: &'static str)
        ensures
            w@ == yes_no_always_word(self),
    {
        match self {
            YesNoAlways::Yes => YES,
            YesNoAlways::No => NO,
            YesNoAlways::Always => ALWAYS,
        }
    }

    /// The value that the word stands for, if it is one of the three words.
    pub fn from_c(src: &str) -> (v: Option<YesNoAlways>)
        ensures
            src@ == YES@ ==> v == Some(YesNoAlways::Yes),
            src@ != YES@ && src@ == NO@ ==> v == Some(YesNoAlways::No),
            src@ != YES@ && src@ != NO@ && src@ == ALWAYS@ ==> v == Some(YesNoAlways::Always),
            src@ != YES@ && src@ != NO@ && src@ != ALWAYS@ ==> v is None,
    {
        if str_eq(src, YES) {
            Some(YesNoAlways::Yes)
        } else if str_eq(src, NO) {
            Some(YesNoAlways::No)
        } else if str_eq(src, ALWAYS) {
            Some(YesNoAlways::Always)
        } else {
            None
        }
    }
}

/// The flag that the player uses for a truth value: 1 or 0.
pub fn flag_of(value: bool) -> (flag: i32)
    ensures
        flag == if value {
            1i32
        } else {
            0i32
        },
{
    if value {
        1
    } else {
        0
    }
}

/// The truth value of a flag of the player, if the flag is 1 or 0.
pub fn bool_of_flag(flag: i32) -> (value: Option<bool>)
    ensures
        flag == 1 ==> value == Some(true),
        flag == 0 ==> value == Some(false),
        flag != 0 && flag != 1 ==> value is None,
{
    if flag == 1 {
        Some(true)
    } else if flag == 0 {
        Some(false)
    } else {
        None
    }
}

} // verus!

//! The gender field: a two-value domain stored in one bit.

use vstd::prelude::*;
use crate::mon_field::{BitCount, FromRepresentation, FromStringInput};

verus! {

#[derive(Debug, Clone, Copy, PartialEq, Eq, Structural)]
pub enum BoxMonGender {
    Male,
    Female,
}

impl Default for BoxMonGender {
    fn default() -> (r: Self)
        ensures
            r == BoxMonGender::Male,
    {
        BoxMonGender::Male
    }
}

impl BitCount for BoxMonGender {
    open spec fn spec_bit_count() -> usize {
        1
    }

    fn bit_count() -> (r: usize) {
        1
    }
}

impl FromRepresentation for BoxMonGender {
    open spec fn spec_ord(&self) -> u8 {
        match *self {
            BoxMonGender::Male => 0,
            BoxMonGender::Female => 1,
        }
    }

    open spec fn spec_from(repr: u8) -> Option<Self> {
        if repr == 0 {
            Some(BoxMonGender::Male)
        } else if repr == 1 {
            Some(BoxMonGender::Female)
        } else {
            None
        }
    }

    proof fn lemma_ord_bound(&self) {
        vstd::arithmetic::power2::lemma2_to64();
    }

    proof fn lemma_from_total(repr: u8) {
        vstd::arithmetic::power2::lemma2_to64();
    }

    proof fn lemma_width_le_8() {
    }

    fn from_repr(repr: u8) -> (r: Option<Self>) {
        if repr == 0 {
            Some(BoxMonGender::Male)
        } else if repr == 1 {
            Some(BoxMonGender::Female)
        } else {
            None
        }
    }

    fn to_u8(&self) -> (r: u8) {
        match *self {
            BoxMonGender::Male => 0,
            BoxMonGender::Female => 1,
        }
    }
}

impl FromStringInput for BoxMonGender {
    open spec fn spec_from_string(s: Seq<char>) -> Option<Self> {
        if s == "M"@ {
            Some(BoxMonGender::Male)
        } else if s == "F"@ {
            Some(BoxMonGender::Female)
        } else {
            None
        }
    }

    fn try_from_string(input: &str) -> (r: Option<Self>) {
        let inp = String::from_str(input);
        if inp == String::from_str("M") {
            Some(BoxMonGender::Male)
        } else if inp == String::from_str("F") {
            Some(BoxMonGender::Female)
        } else {
            None
        }
    }
}

impl BoxMonGender {
    /// The gender's display name, as the persisted form spells it.
    pub open spec fn spec_to_string(self) -> Seq<char> {
        match self {
            BoxMonGender::Male => "Male"@,
            BoxMonGender::Female => "Female"@,
        }
    }

    /// The gender's display name.
    pub fn to_string(&self) -> (r: String)
        ensures
            r@ == self.spec_to_string(),
    {
        match *self {
            BoxMonGender::Male => String::from_str("Male"),
            BoxMonGender::Female => String::from_str("Female"),
        }
    }

    /// The gender a display name denotes.
    pub open spec fn spec_from_display_name(s: Seq<char>) -> Option<BoxMonGender> {
        if s == "Male"@ {
            Some(BoxMonGender::Male)
        } else if s == "Female"@ {
            Some(BoxMonGender::Female)
        } else {
            None
        }
    }

    /// The gender a display name denotes.
    pub fn from_display_name(input: &str) -> (r: Option<BoxMonGender>)
        ensures
            r == Self::spec_from_display_name(input@),
    {
        let inp = String::from_str(input);
        if inp == String::from_str("Male") {
            Some(BoxMonGender::Male)
        } else if inp == String::from_str("Female") {
            Some(BoxMonGender::Female)
        } else {
            None
        }
    }
}

} // verus!

//! The species field: a four-value domain stored in two bits.

use vstd::prelude::*;
use crate::mon_field::{BitCount, FromRepresentation, FromStringInput};

verus! {

#[derive(Debug, Clone, Copy, PartialEq, Eq, Structural)]
pub enum BoxMonSpecies {
    POOCHYENA,
    NINCADA,
    WHISMUR,
    TAILLOW,
}

impl BitCount for BoxMonSpecies {
    open spec fn spec_bit_count() -> usize {
        2
    }

    fn bit_count() -> (r: usize) {
        2
    }
}

impl FromRepresentation for BoxMonSpecies {
    open spec fn spec_ord(&self) -> u8 {
        match *self {
            BoxMonSpecies::POOCHYENA => 0,
            BoxMonSpecies::NINCADA => 1,
            BoxMonSpecies::WHISMUR => 2,
            BoxMonSpecies::TAILLOW => 3,
        }
    }

    open spec fn spec_from(repr: u8) -> Option<Self> {
        if repr == 0 {
            Some(BoxMonSpecies::POOCHYENA)
        } else if repr == 1 {
            Some(BoxMonSpecies::NINCADA)
        } else if repr == 2 {
            Some(BoxMonSpecies::WHISMUR)
        } else if repr == 3 {
            Some(BoxMonSpecies::TAILLOW)
        } else {
            None
        }
    }

    proof fn lemma_ord_bound(&self) {
        vstd::arithmetic::power2::lemma2_to64();
    }

    proof fn lemma_from_total(repr: u8) {
        vstd::arithmetic::power2::lemma2_to64();
    }

    proof fn lemma_width_le_8() {
    }

    fn from_repr(repr: u8) -> (r: Option<Self>) {
        if repr == 0 {
            Some(BoxMonSpecies::POOCHYENA)
        } else if repr == 1 {
            Some(BoxMonSpecies::NINCADA)
        } else if repr == 2 {
            Some(BoxMonSpecies::WHISMUR)
        } else if repr == 3 {
            Some(BoxMonSpecies::TAILLOW)
        } else {
            None
        }
    }

    fn to_u8(&self) -> (r: u8) {
        match *self {
            BoxMonSpecies::POOCHYENA => 0,
            BoxMonSpecies::NINCADA => 1,
            BoxMonSpecies::WHISMUR => 2,
            BoxMonSpecies::TAILLOW => 3,
        }
    }
}

impl FromStringInput for BoxMonSpecies {
    open spec fn spec_from_string(s: Seq<char>) -> Option<Self> {
        if s == "POOCHYENA"@ {
            Some(BoxMonSpecies::POOCHYENA)
        } else if s == "NINCADA"@ {
            Some(BoxMonSpecies::NINCADA)
        } else if s == "WHISMUR"@ {
            Some(BoxMonSpecies::WHISMUR)
        } else if s == "TAILLOW"@ {
            Some(BoxMonSpecies::TAILLOW)
        } else {
            None
        }
    }

    fn try_from_string(input: &str) -> (r: Option<Self>) {
        let inp = String::from_str(input);
        if inp == String::from_str("POOCHYENA") {
            Some(BoxMonSpecies::POOCHYENA)
        } else if inp == String::from_str("NINCADA") {
            Some(BoxMonSpecies::NINCADA)
        } else if inp == String::from_str("WHISMUR") {
            Some(BoxMonSpecies::WHISMUR)
        } else if inp == String::from_str("TAILLOW") {
            Some(BoxMonSpecies::TAILLOW)
        } else {
            None
        }
    }
}

impl BoxMonSpecies {
    /// The species' display name: the same spelling the free-text
    /// parse accepts.
    pub open spec fn spec_to_string(self) -> Seq<char> {
        match self {
            BoxMonSpecies::POOCHYENA => "POOCHYENA"@,
            BoxMonSpecies::NINCADA => "NINCADA"@,
            BoxMonSpecies::WHISMUR => "WHISMUR"@,
            BoxMonSpecies::TAILLOW => "TAILLOW"@,
        }
    }

    /// The species' display name.
    pub fn to_string(&self) -> (r: String)
        ensures
            r@ == self.spec_to_string(),
    {
        match *self {
            BoxMonSpecies::POOCHYENA => String::from_str("POOCHYENA"),
            BoxMonSpecies::NINCADA => String::from_str("NINCADA"),
            BoxMonSpecies::WHISMUR => String::from_str("WHISMUR"),
            BoxMonSpecies::TAILLOW => String::from_str("TAILLOW"),
        }
    }
}

} // verus!

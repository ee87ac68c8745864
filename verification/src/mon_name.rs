//! The nickname field: ten characters from a 64-symbol alphabet, each
//! stored in six bits.

use vstd::prelude::*;
use crate::mon_field::{BitCount, FromRepresentation, FromStringInput, GameSerializer,
    ToGameValueError, FromGameValueError, lemma_repr_bits_injective};
use crate::BoxMonBitVec;
use crate::{bits_to_nat, lemma_bits_to_nat_bound, lemma_nat_to_bits_len};

verus! {

broadcast use vstd::array::group_array_axioms;

/// One storable name symbol. The alphabet is the game font's 64 symbols:
/// the upper- and lower-case letters it offers, the digits 2 through 9,
/// and a few punctuation marks.
#[derive(Debug, Clone, Copy, PartialEq, Eq, Structural)]
pub enum BoxMonCharacter {
    LowerA,
    UpperA,
    LowerB,
    UpperB,
    LowerC,
    UpperC,
    LowerD,
    UpperD,
    LowerE,
    UpperE,
    LowerF,
    UpperF,
    LowerG,
    UpperG,
    LowerH,
    UpperH,
    LowerI,
    UpperI,
    LowerJ,
    UpperJ,
    LowerK,
    UpperK,
    LowerM,
    UpperM,
    LowerN,
    UpperN,
    LowerO,
    UpperO,
    LowerP,
    UpperP,
    LowerQ,
    UpperQ,
    LowerR,
    UpperR,
    LowerS,
    UpperS,
    LowerT,
    UpperT,
    LowerU,
    UpperU,
    LowerV,
    UpperV,
    LowerW,
    UpperW,
    LowerX,
    UpperX,
    LowerY,
    UpperY,
    LowerZ,
    UpperZ,
    Two,
    Three,
    Four,
    Five,
    Six,
    Seven,
    Eight,
    Nine,
    ExclamationMark,
    QuestionMark,
    ForwardSlash,
    Dash,
    Ellipsis,
    Male,
}

impl Default for BoxMonCharacter {
    fn default() -> (r: Self)
        ensures
            r == BoxMonCharacter::LowerA,
    {
        BoxMonCharacter::LowerA
    }
}

impl BitCount for BoxMonCharacter {
    open spec fn spec_bit_count() -> usize {
        6
    }

    fn bit_count() -> (r: usize) {
        6
    }
}

impl FromRepresentation for BoxMonCharacter {
    open spec fn spec_ord(&self) -> u8 {
        match *self {
            BoxMonCharacter::LowerA => 0,
            BoxMonCharacter::UpperA => 1,
            BoxMonCharacter::LowerB => 2,
            BoxMonCharacter::UpperB => 3,
            BoxMonCharacter::LowerC => 4,
            BoxMonCharacter::UpperC => 5,
            BoxMonCharacter::LowerD => 6,
            BoxMonCharacter::UpperD => 7,
            BoxMonCharacter::LowerE => 8,
            BoxMonCharacter::UpperE => 9,
            BoxMonCharacter::LowerF => 10,
            BoxMonCharacter::UpperF => 11,
            BoxMonCharacter::LowerG => 12,
            BoxMonCharacter::UpperG => 13,
            BoxMonCharacter::LowerH => 14,
            BoxMonCharacter::UpperH => 15,
            BoxMonCharacter::LowerI => 16,
            BoxMonCharacter::UpperI => 17,
            BoxMonCharacter::LowerJ => 18,
            BoxMonCharacter::UpperJ => 19,
            BoxMonCharacter::LowerK => 20,
            BoxMonCharacter::UpperK => 21,
            BoxMonCharacter::LowerM => 22,
            BoxMonCharacter::UpperM => 23,
            BoxMonCharacter::LowerN => 24,
            BoxMonCharacter::UpperN => 25,
            BoxMonCharacter::LowerO => 26,
            BoxMonCharacter::UpperO => 27,
            BoxMonCharacter::LowerP => 28,
            BoxMonCharacter::UpperP => 29,
            BoxMonCharacter::LowerQ => 30,
            BoxMonCharacter::UpperQ => 31,
            BoxMonCharacter::LowerR => 32,
            BoxMonCharacter::UpperR => 33,
            BoxMonCharacter::LowerS => 34,
            BoxMonCharacter::UpperS => 35,
            BoxMonCharacter::LowerT => 36,
            BoxMonCharacter::UpperT => 37,
            BoxMonCharacter::LowerU => 38,
            BoxMonCharacter::UpperU => 39,
            BoxMonCharacter::LowerV => 40,
            BoxMonCharacter::UpperV => 41,
            BoxMonCharacter::LowerW => 42,
            BoxMonCharacter::UpperW => 43,
            BoxMonCharacter::LowerX => 44,
            BoxMonCharacter::UpperX => 45,
            BoxMonCharacter::LowerY => 46,
            BoxMonCharacter::UpperY => 47,
            BoxMonCharacter::LowerZ => 48,
            BoxMonCharacter::UpperZ => 49,
            BoxMonCharacter::Two => 50,
            BoxMonCharacter::Three => 51,
            BoxMonCharacter::Four => 52,
            BoxMonCharacter::Five => 53,
            BoxMonCharacter::Six => 54,
            BoxMonCharacter::Seven => 55,
            BoxMonCharacter::Eight => 56,
            BoxMonCharacter::Nine => 57,
            BoxMonCharacter::ExclamationMark => 58,
            BoxMonCharacter::QuestionMark => 59,
            BoxMonCharacter::ForwardSlash => 60,
            BoxMonCharacter::Dash => 61,
            BoxMonCharacter::Ellipsis => 62,
            BoxMonCharacter::Male => 63,
        }
    }

    open spec fn spec_from(repr: u8) -> Option<Self> {
        if repr == 0 {
            Some(BoxMonCharacter::LowerA)
        } else if repr == 1 {
            Some(BoxMonCharacter::UpperA)
        } else if repr == 2 {
            Some(BoxMonCharacter::LowerB)
        } else if repr == 3 {
            Some(BoxMonCharacter::UpperB)
        } else if repr == 4 {
            Some(BoxMonCharacter::LowerC)
        } else if repr == 5 {
            Some(BoxMonCharacter::UpperC)
        } else if repr == 6 {
            Some(BoxMonCharacter::LowerD)
        } else if repr == 7 {
            Some(BoxMonCharacter::UpperD)
        } else if repr == 8 {
            Some(BoxMonCharacter::LowerE)
        } else if repr == 9 {
            Some(BoxMonCharacter::UpperE)
        } else if repr == 10 {
            Some(BoxMonCharacter::LowerF)
        } else if repr == 11 {
            Some(BoxMonCharacter::UpperF)
        } else if repr == 12 {
            Some(BoxMonCharacter::LowerG)
        } else if repr == 13 {
            Some(BoxMonCharacter::UpperG)
        } else if repr == 14 {
            Some(BoxMonCharacter::LowerH)
        } else if repr == 15 {
            Some(BoxMonCharacter::UpperH)
        } else if repr == 16 {
            Some(BoxMonCharacter::LowerI)
        } else if repr == 17 {
            Some(BoxMonCharacter::UpperI)
        } else if repr == 18 {
            Some(BoxMonCharacter::LowerJ)
        } else if repr == 19 {
            Some(BoxMonCharacter::UpperJ)
        } else if repr == 20 {
            Some(BoxMonCharacter::LowerK)
        } else if repr == 21 {
            Some(BoxMonCharacter::UpperK)
        } else if repr == 22 {
            Some(BoxMonCharacter::LowerM)
        } else if repr == 23 {
            Some(BoxMonCharacter::UpperM)
        } else if repr == 24 {
            Some(BoxMonCharacter::LowerN)
        } else if repr == 25 {
            Some(BoxMonCharacter::UpperN)
        } else if repr == 26 {
            Some(BoxMonCharacter::LowerO)
        } else if repr == 27 {
            Some(BoxMonCharacter::UpperO)
        } else if repr == 28 {
            Some(BoxMonCharacter::LowerP)
        } else if repr == 29 {
            Some(BoxMonCharacter::UpperP)
        } else if repr == 30 {
            Some(BoxMonCharacter::LowerQ)
        } else if repr == 31 {
            Some(BoxMonCharacter::UpperQ)
        } else if repr == 32 {
            Some(BoxMonCharacter::LowerR)
        } else if repr == 33 {
            Some(BoxMonCharacter::UpperR)
        } else if repr == 34 {
            Some(BoxMonCharacter::LowerS)
        } else if repr == 35 {
            Some(BoxMonCharacter::UpperS)
        } else if repr == 36 {
            Some(BoxMonCharacter::LowerT)
        } else if repr == 37 {
            Some(BoxMonCharacter::UpperT)
        } else if repr == 38 {
            Some(BoxMonCharacter::LowerU)
        } else if repr == 39 {
            Some(BoxMonCharacter::UpperU)
        } else if repr == 40 {
            Some(BoxMonCharacter::LowerV)
        } else if repr == 41 {
            Some(BoxMonCharacter::UpperV)
        } else if repr == 42 {
            Some(BoxMonCharacter::LowerW)
        } else if repr == 43 {
            Some(BoxMonCharacter::UpperW)
        } else if repr == 44 {
            Some(BoxMonCharacter::LowerX)
        } else if repr == 45 {
            Some(BoxMonCharacter::UpperX)
        } else if repr == 46 {
            Some(BoxMonCharacter::LowerY)
        } else if repr == 47 {
            Some(BoxMonCharacter::UpperY)
        } else if repr == 48 {
            Some(BoxMonCharacter::LowerZ)
        } else if repr == 49 {
            Some(BoxMonCharacter::UpperZ)
        } else if repr == 50 {
            Some(BoxMonCharacter::Two)
        } else if repr == 51 {
            Some(BoxMonCharacter::Three)
        } else if repr == 52 {
            Some(BoxMonCharacter::Four)
        } else if repr == 53 {
            Some(BoxMonCharacter::Five)
        } else if repr == 54 {
            Some(BoxMonCharacter::Six)
        } else if repr == 55 {
            Some(BoxMonCharacter::Seven)
        } else if repr == 56 {
            Some(BoxMonCharacter::Eight)
        } else if repr == 57 {
            Some(BoxMonCharacter::Nine)
        } else if repr == 58 {
            Some(BoxMonCharacter::ExclamationMark)
        } else if repr == 59 {
            Some(BoxMonCharacter::QuestionMark)
        } else if repr == 60 {
            Some(BoxMonCharacter::ForwardSlash)
        } else if repr == 61 {
            Some(BoxMonCharacter::Dash)
        } else if repr == 62 {
            Some(BoxMonCharacter::Ellipsis)
        } else if repr == 63 {
            Some(BoxMonCharacter::Male)
        } else {
            None
        }
    }

    proof fn lemma_ord_bound(&self) {
        vstd::arithmetic::power2::lemma2_to64();
    }

    proof fn lemma_from_total(repr: u8) {
        vstd::arithmetic::power2::lemma2_to64();
    }

    proof fn lemma_width_le_8() {
    }

    fn from_repr(repr: u8) -> (r: Option<Self>) {
        if repr == 0 {
            Some(BoxMonCharacter::LowerA)
        } else if repr == 1 {
            Some(BoxMonCharacter::UpperA)
        } else if repr == 2 {
            Some(BoxMonCharacter::LowerB)
        } else if repr == 3 {
            Some(BoxMonCharacter::UpperB)
        } else if repr == 4 {
            Some(BoxMonCharacter::LowerC)
        } else if repr == 5 {
            Some(BoxMonCharacter::UpperC)
        } else if repr == 6 {
            Some(BoxMonCharacter::LowerD)
        } else if repr == 7 {
            Some(BoxMonCharacter::UpperD)
        } else if repr == 8 {
            Some(BoxMonCharacter::LowerE)
        } else if repr == 9 {
            Some(BoxMonCharacter::UpperE)
        } else if repr == 10 {
            Some(BoxMonCharacter::LowerF)
        } else if repr == 11 {
            Some(BoxMonCharacter::UpperF)
        } else if repr == 12 {
            Some(BoxMonCharacter::LowerG)
        } else if repr == 13 {
            Some(BoxMonCharacter::UpperG)
        } else if repr == 14 {
            Some(BoxMonCharacter::LowerH)
        } else if repr == 15 {
            Some(BoxMonCharacter::UpperH)
        } else if repr == 16 {
            Some(BoxMonCharacter::LowerI)
        } else if repr == 17 {
            Some(BoxMonCharacter::UpperI)
        } else if repr == 18 {
            Some(BoxMonCharacter::LowerJ)
        } else if repr == 19 {
            Some(BoxMonCharacter::UpperJ)
        } else if repr == 20 {
            Some(BoxMonCharacter::LowerK)
        } else if repr == 21 {
            Some(BoxMonCharacter::UpperK)
        } else if repr == 22 {
            Some(BoxMonCharacter::LowerM)
        } else if repr == 23 {
            Some(BoxMonCharacter::UpperM)
        } else if repr == 24 {
            Some(BoxMonCharacter::LowerN)
        } else if repr == 25 {
            Some(BoxMonCharacter::UpperN)
        } else if repr == 26 {
            Some(BoxMonCharacter::LowerO)
        } else if repr == 27 {
            Some(BoxMonCharacter::UpperO)
        } else if repr == 28 {
            Some(BoxMonCharacter::LowerP)
        } else if repr == 29 {
            Some(BoxMonCharacter::UpperP)
        } else if repr == 30 {
            Some(BoxMonCharacter::LowerQ)
        } else if repr == 31 {
            Some(BoxMonCharacter::UpperQ)
        } else if repr == 32 {
            Some(BoxMonCharacter::LowerR)
        } else if repr == 33 {
            Some(BoxMonCharacter::UpperR)
        } else if repr == 34 {
            Some(BoxMonCharacter::LowerS)
        } else if repr == 35 {
            Some(BoxMonCharacter::UpperS)
        } else if repr == 36 {
            Some(BoxMonCharacter::LowerT)
        } else if repr == 37 {
            Some(BoxMonCharacter::UpperT)
        } else if repr == 38 {
            Some(BoxMonCharacter::LowerU)
        } else if repr == 39 {
            Some(BoxMonCharacter::UpperU)
        } else if repr == 40 {
            Some(BoxMonCharacter::LowerV)
        } else if repr == 41 {
            Some(BoxMonCharacter::UpperV)
        } else if repr == 42 {
            Some(BoxMonCharacter::LowerW)
        } else if repr == 43 {
            Some(BoxMonCharacter::UpperW)
        } else if repr == 44 {
            Some(BoxMonCharacter::LowerX)
        } else if repr == 45 {
            Some(BoxMonCharacter::UpperX)
        } else if repr == 46 {
            Some(BoxMonCharacter::LowerY)
        } else if repr == 47 {
            Some(BoxMonCharacter::UpperY)
        } else if repr == 48 {
            Some(BoxMonCharacter::LowerZ)
        } else if repr == 49 {
            Some(BoxMonCharacter::UpperZ)
        } else if repr == 50 {
            Some(BoxMonCharacter::Two)
        } else if repr == 51 {
            Some(BoxMonCharacter::Three)
        } else if repr == 52 {
            Some(BoxMonCharacter::Four)
        } else if repr == 53 {
            Some(BoxMonCharacter::Five)
        } else if repr == 54 {
            Some(BoxMonCharacter::Six)
        } else if repr == 55 {
            Some(BoxMonCharacter::Seven)
        } else if repr == 56 {
            Some(BoxMonCharacter::Eight)
        } else if repr == 57 {
            Some(BoxMonCharacter::Nine)
        } else if repr == 58 {
            Some(BoxMonCharacter::ExclamationMark)
        } else if repr == 59 {
            Some(BoxMonCharacter::QuestionMark)
        } else if repr == 60 {
            Some(BoxMonCharacter::ForwardSlash)
        } else if repr == 61 {
            Some(BoxMonCharacter::Dash)
        } else if repr == 62 {
            Some(BoxMonCharacter::Ellipsis)
        } else if repr == 63 {
            Some(BoxMonCharacter::Male)
        } else {
            None
        }
    }

    fn to_u8(&self) -> (r: u8) {
        match *self {
            BoxMonCharacter::LowerA => 0,
            BoxMonCharacter::UpperA => 1,
            BoxMonCharacter::LowerB => 2,
            BoxMonCharacter::UpperB => 3,
            BoxMonCharacter::LowerC => 4,
            BoxMonCharacter::UpperC => 5,
            BoxMonCharacter::LowerD => 6,
            BoxMonCharacter::UpperD => 7,
            BoxMonCharacter::LowerE => 8,
            BoxMonCharacter::UpperE => 9,
            BoxMonCharacter::LowerF => 10,
            BoxMonCharacter::UpperF => 11,
            BoxMonCharacter::LowerG => 12,
            BoxMonCharacter::UpperG => 13,
            BoxMonCharacter::LowerH => 14,
            BoxMonCharacter::UpperH => 15,
            BoxMonCharacter::LowerI => 16,
            BoxMonCharacter::UpperI => 17,
            BoxMonCharacter::LowerJ => 18,
            BoxMonCharacter::UpperJ => 19,
            BoxMonCharacter::LowerK => 20,
            BoxMonCharacter::UpperK => 21,
            BoxMonCharacter::LowerM => 22,
            BoxMonCharacter::UpperM => 23,
            BoxMonCharacter::LowerN => 24,
            BoxMonCharacter::UpperN => 25,
            BoxMonCharacter::LowerO => 26,
            BoxMonCharacter::UpperO => 27,
            BoxMonCharacter::LowerP => 28,
            BoxMonCharacter::UpperP => 29,
            BoxMonCharacter::LowerQ => 30,
            BoxMonCharacter::UpperQ => 31,
            BoxMonCharacter::LowerR => 32,
            BoxMonCharacter::UpperR => 33,
            BoxMonCharacter::LowerS => 34,
            BoxMonCharacter::UpperS => 35,
            BoxMonCharacter::LowerT => 36,
            BoxMonCharacter::UpperT => 37,
            BoxMonCharacter::LowerU => 38,
            BoxMonCharacter::UpperU => 39,
            BoxMonCharacter::LowerV => 40,
            BoxMonCharacter::UpperV => 41,
            BoxMonCharacter::LowerW => 42,
            BoxMonCharacter::UpperW => 43,
            BoxMonCharacter::LowerX => 44,
            BoxMonCharacter::UpperX => 45,
            BoxMonCharacter::LowerY => 46,
            BoxMonCharacter::UpperY => 47,
            BoxMonCharacter::LowerZ => 48,
            BoxMonCharacter::UpperZ => 49,
            BoxMonCharacter::Two => 50,
            BoxMonCharacter::Three => 51,
            BoxMonCharacter::Four => 52,
            BoxMonCharacter::Five => 53,
            BoxMonCharacter::Six => 54,
            BoxMonCharacter::Seven => 55,
            BoxMonCharacter::Eight => 56,
            BoxMonCharacter::Nine => 57,
            BoxMonCharacter::ExclamationMark => 58,
            BoxMonCharacter::QuestionMark => 59,
            BoxMonCharacter::ForwardSlash => 60,
            BoxMonCharacter::Dash => 61,
            BoxMonCharacter::Ellipsis => 62,
            BoxMonCharacter::Male => 63,
        }
    }
}

impl BoxMonCharacter {
    /// The symbol a single character of free text denotes, if any.
    pub open spec fn spec_from_char(c: char) -> Option<Self> {
        if c == 'a' {
            Some(BoxMonCharacter::LowerA)
        } else if c == 'A' {
            Some(BoxMonCharacter::UpperA)
        } else if c == 'b' {
            Some(BoxMonCharacter::LowerB)
        } else if c == 'B' {
            Some(BoxMonCharacter::UpperB)
        } else if c == 'c' {
            Some(BoxMonCharacter::LowerC)
        } else if c == 'C' {
            Some(BoxMonCharacter::UpperC)
        } else if c == 'd' {
            Some(BoxMonCharacter::LowerD)
        } else if c == 'D' {
            Some(BoxMonCharacter::UpperD)
        } else if c == 'e' {
            Some(BoxMonCharacter::LowerE)
        } else if c == 'E' {
            Some(BoxMonCharacter::UpperE)
        } else if c == 'f' {
            Some(BoxMonCharacter::LowerF)
        } else if c == 'F' {
            Some(BoxMonCharacter::UpperF)
        } else if c == 'g' {
            Some(BoxMonCharacter::LowerG)
        } else if c == 'G' {
            Some(BoxMonCharacter::UpperG)
        } else if c == 'h' {
            Some(BoxMonCharacter::LowerH)
        } else if c == 'H' {
            Some(BoxMonCharacter::UpperH)
        } else if c == 'i' {
            Some(BoxMonCharacter::LowerI)
        } else if c == 'I' {
            Some(BoxMonCharacter::UpperI)
        } else if c == 'j' {
            Some(BoxMonCharacter::LowerJ)
        } else if c == 'J' {
            Some(BoxMonCharacter::UpperJ)
        } else if c == 'k' {
            Some(BoxMonCharacter::LowerK)
        } else if c == 'K' {
            Some(BoxMonCharacter::UpperK)
        } else if c == 'm' {
            Some(BoxMonCharacter::LowerM)
        } else if c == 'M' {
            Some(BoxMonCharacter::UpperM)
        } else if c == 'n' {
            Some(BoxMonCharacter::LowerN)
        } else if c == 'N' {
            Some(BoxMonCharacter::UpperN)
        } else if c == 'o' {
            Some(BoxMonCharacter::LowerO)
        } else if c == 'O' {
            Some(BoxMonCharacter::UpperO)
        } else if c == 'p' {
            Some(BoxMonCharacter::LowerP)
        } else if c == 'P' {
            Some(BoxMonCharacter::UpperP)
        } else if c == 'q' {
            Some(BoxMonCharacter::LowerQ)
        } else if c == 'Q' {
            Some(BoxMonCharacter::UpperQ)
        } else if c == 'r' {
            Some(BoxMonCharacter::LowerR)
        } else if c == 'R' {
            Some(BoxMonCharacter::UpperR)
        } else if c == 's' {
            Some(BoxMonCharacter::LowerS)
        } else if c == 'S' {
            Some(BoxMonCharacter::UpperS)
        } else if c == 't' {
            Some(BoxMonCharacter::LowerT)
        } else if c == 'T' {
            Some(BoxMonCharacter::UpperT)
        } else if c == 'u' {
            Some(BoxMonCharacter::LowerU)
        } else if c == 'U' {
            Some(BoxMonCharacter::UpperU)
        } else if c == 'v' {
            Some(BoxMonCharacter::LowerV)
        } else if c == 'V' {
            Some(BoxMonCharacter::UpperV)
        } else if c == 'w' {
            Some(BoxMonCharacter::LowerW)
        } else if c == 'W' {
            Some(BoxMonCharacter::UpperW)
        } else if c == 'x' {
            Some(BoxMonCharacter::LowerX)
        } else if c == 'X' {
            Some(BoxMonCharacter::UpperX)
        } else if c == 'y' {
            Some(BoxMonCharacter::LowerY)
        } else if c == 'Y' {
            Some(BoxMonCharacter::UpperY)
        } else if c == 'z' {
            Some(BoxMonCharacter::LowerZ)
        } else if c == 'Z' {
            Some(BoxMonCharacter::UpperZ)
        } else if c == '2' {
            Some(BoxMonCharacter::Two)
        } else if c == '3' {
            Some(BoxMonCharacter::Three)
        } else if c == '4' {
            Some(BoxMonCharacter::Four)
        } else if c == '5' {
            Some(BoxMonCharacter::Five)
        } else if c == '6' {
            Some(BoxMonCharacter::Six)
        } else if c == '7' {
            Some(BoxMonCharacter::Seven)
        } else if c == '8' {
            Some(BoxMonCharacter::Eight)
        } else if c == '9' {
            Some(BoxMonCharacter::Nine)
        } else if c == '!' {
            Some(BoxMonCharacter::ExclamationMark)
        } else if c == '?' {
            Some(BoxMonCharacter::QuestionMark)
        } else if c == '/' {
            Some(BoxMonCharacter::ForwardSlash)
        } else if c == '-' {
            Some(BoxMonCharacter::Dash)
        } else if c == '…' {
            Some(BoxMonCharacter::Ellipsis)
        } else if c == '♂' {
            Some(BoxMonCharacter::Male)
        } else {
            None
        }
    }

    pub fn from_char(c: char) -> (r: Option<Self>)
        ensures
            r == Self::spec_from_char(c),
    {
        if c == 'a' {
            Some(BoxMonCharacter::LowerA)
        } else if c == 'A' {
            Some(BoxMonCharacter::UpperA)
        } else if c == 'b' {
            Some(BoxMonCharacter::LowerB)
        } else if c == 'B' {
            Some(BoxMonCharacter::UpperB)
        } else if c == 'c' {
            Some(BoxMonCharacter::LowerC)
        } else if c == 'C' {
            Some(BoxMonCharacter::UpperC)
        } else if c == 'd' {
            Some(BoxMonCharacter::LowerD)
        } else if c == 'D' {
            Some(BoxMonCharacter::UpperD)
        } else if c == 'e' {
            Some(BoxMonCharacter::LowerE)
        } else if c == 'E' {
            Some(BoxMonCharacter::UpperE)
        } else if c == 'f' {
            Some(BoxMonCharacter::LowerF)
        } else if c == 'F' {
            Some(BoxMonCharacter::UpperF)
        } else if c == 'g' {
            Some(BoxMonCharacter::LowerG)
        } else if c == 'G' {
            Some(BoxMonCharacter::UpperG)
        } else if c == 'h' {
            Some(BoxMonCharacter::LowerH)
        } else if c == 'H' {
            Some(BoxMonCharacter::UpperH)
        } else if c == 'i' {
            Some(BoxMonCharacter::LowerI)
        } else if c == 'I' {
            Some(BoxMonCharacter::UpperI)
        } else if c == 'j' {
            Some(BoxMonCharacter::LowerJ)
        } else if c == 'J' {
            Some(BoxMonCharacter::UpperJ)
        } else if c == 'k' {
            Some(BoxMonCharacter::LowerK)
        } else if c == 'K' {
            Some(BoxMonCharacter::UpperK)
        } else if c == 'm' {
            Some(BoxMonCharacter::LowerM)
        } else if c == 'M' {
            Some(BoxMonCharacter::UpperM)
        } else if c == 'n' {
            Some(BoxMonCharacter::LowerN)
        } else if c == 'N' {
            Some(BoxMonCharacter::UpperN)
        } else if c == 'o' {
            Some(BoxMonCharacter::LowerO)
        } else if c == 'O' {
            Some(BoxMonCharacter::UpperO)
        } else if c == 'p' {
            Some(BoxMonCharacter::LowerP)
        } else if c == 'P' {
            Some(BoxMonCharacter::UpperP)
        } else if c == 'q' {
            Some(BoxMonCharacter::LowerQ)
        } else if c == 'Q' {
            Some(BoxMonCharacter::UpperQ)
        } else if c == 'r' {
            Some(BoxMonCharacter::LowerR)
        } else if c == 'R' {
            Some(BoxMonCharacter::UpperR)
        } else if c == 's' {
            Some(BoxMonCharacter::LowerS)
        } else if c == 'S' {
            Some(BoxMonCharacter::UpperS)
        } else if c == 't' {
            Some(BoxMonCharacter::LowerT)
        } else if c == 'T' {
            Some(BoxMonCharacter::UpperT)
        } else if c == 'u' {
            Some(BoxMonCharacter::LowerU)
        } else if c == 'U' {
            Some(BoxMonCharacter::UpperU)
        } else if c == 'v' {
            Some(BoxMonCharacter::LowerV)
        } else if c == 'V' {
            Some(BoxMonCharacter::UpperV)
        } else if c == 'w' {
            Some(BoxMonCharacter::LowerW)
        } else if c == 'W' {
            Some(BoxMonCharacter::UpperW)
        } else if c == 'x' {
            Some(BoxMonCharacter::LowerX)
        } else if c == 'X' {
            Some(BoxMonCharacter::UpperX)
        } else if c == 'y' {
            Some(BoxMonCharacter::LowerY)
        } else if c == 'Y' {
            Some(BoxMonCharacter::UpperY)
        } else if c == 'z' {
            Some(BoxMonCharacter::LowerZ)
        } else if c == 'Z' {
            Some(BoxMonCharacter::UpperZ)
        } else if c == '2' {
            Some(BoxMonCharacter::Two)
        } else if c == '3' {
            Some(BoxMonCharacter::Three)
        } else if c == '4' {
            Some(BoxMonCharacter::Four)
        } else if c == '5' {
            Some(BoxMonCharacter::Five)
        } else if c == '6' {
            Some(BoxMonCharacter::Six)
        } else if c == '7' {
            Some(BoxMonCharacter::Seven)
        } else if c == '8' {
            Some(BoxMonCharacter::Eight)
        } else if c == '9' {
            Some(BoxMonCharacter::Nine)
        } else if c == '!' {
            Some(BoxMonCharacter::ExclamationMark)
        } else if c == '?' {
            Some(BoxMonCharacter::QuestionMark)
        } else if c == '/' {
            Some(BoxMonCharacter::ForwardSlash)
        } else if c == '-' {
            Some(BoxMonCharacter::Dash)
        } else if c == '…' {
            Some(BoxMonCharacter::Ellipsis)
        } else if c == '♂' {
            Some(BoxMonCharacter::Male)
        } else {
            None
        }
    }
}

impl FromStringInput for BoxMonCharacter {
    open spec fn spec_from_string(s: Seq<char>) -> Option<Self> {
        if s.len() == 1 {
            Self::spec_from_char(s[0])
        } else {
            None
        }
    }

    fn try_from_string(input: &str) -> (r: Option<Self>) {
        if input.unicode_len() == 1 {
            Self::from_char(input.get_char(0))
        } else {
            None
        }
    }
}

/// The bit pattern of a character sequence: each symbol's six bits in order.
pub open spec fn chars_bits(cs: Seq<BoxMonCharacter>) -> Seq<bool>
    decreases cs.len(),
{
    if cs.len() == 0 {
        Seq::empty()
    } else {
        cs[0].spec_bits() + chars_bits(cs.skip(1))
    }
}

pub proof fn lemma_char_bits_len(c: BoxMonCharacter)
    ensures
        c.spec_bits().len() == 6,
{
    lemma_nat_to_bits_len(6, c.spec_ord() as nat);
}

pub proof fn lemma_chars_bits_len(cs: Seq<BoxMonCharacter>)
    ensures
        chars_bits(cs).len() == 6 * cs.len(),
    decreases cs.len(),
{
    if cs.len() > 0 {
        lemma_char_bits_len(cs[0]);
        lemma_chars_bits_len(cs.skip(1));
    }
}

pub proof fn lemma_chars_bits_push(cs: Seq<BoxMonCharacter>, c: BoxMonCharacter)
    ensures
        chars_bits(cs.push(c)) =~= chars_bits(cs) + c.spec_bits(),
    decreases cs.len(),
{
    if cs.len() == 0 {
        assert(cs.push(c) =~= seq![c]);
        assert(seq![c].skip(1) =~= Seq::<BoxMonCharacter>::empty());
        assert(chars_bits(seq![c]) == c.spec_bits() + chars_bits(Seq::<BoxMonCharacter>::empty()));
        assert(c.spec_bits() + Seq::<bool>::empty() =~= c.spec_bits());
        assert(chars_bits(cs) + c.spec_bits() =~= c.spec_bits());
    } else {
        assert(cs.push(c)[0] == cs[0]);
        assert(cs.push(c).skip(1) =~= cs.skip(1).push(c));
        lemma_chars_bits_push(cs.skip(1), c);
        assert(chars_bits(cs.push(c)) == cs[0].spec_bits() + chars_bits(cs.skip(1).push(c)));
        assert(cs[0].spec_bits() + (chars_bits(cs.skip(1)) + c.spec_bits()) =~= (cs[0].spec_bits()
            + chars_bits(cs.skip(1))) + c.spec_bits());
    }
}

/// Equal bit patterns come from equal character sequences.
#[verifier::spinoff_prover]
#[verifier::rlimit(60)]
pub proof fn lemma_chars_bits_injective(a: Seq<BoxMonCharacter>, b: Seq<BoxMonCharacter>)
    requires
        a.len() == b.len(),
        chars_bits(a) == chars_bits(b),
    ensures
        a =~= b,
    decreases a.len(),
{
    if a.len() > 0 {
        lemma_char_bits_len(a[0]);
        lemma_char_bits_len(b[0]);
        lemma_chars_bits_len(a.skip(1));
        lemma_chars_bits_len(b.skip(1));
        assert(chars_bits(a).take(6) =~= a[0].spec_bits());
        assert(chars_bits(b).take(6) =~= b[0].spec_bits());
        lemma_repr_bits_injective(a[0], b[0]);
        assert(chars_bits(a).skip(6) =~= chars_bits(a.skip(1)));
        assert(chars_bits(b).skip(6) =~= chars_bits(b.skip(1)));
        lemma_chars_bits_injective(a.skip(1), b.skip(1));
        assert forall|i: int| 0 <= i < a.len() implies a[i] == b[i] by {
            if i > 0 {
                assert(a.skip(1)[i - 1] == a[i]);
                assert(b.skip(1)[i - 1] == b[i]);
            }
        }
    }
}

/// If every six-bit slice of `s` decodes to the matching entry of `cs`,
/// then `cs` re-encodes to `s` exactly.
pub proof fn lemma_chars_bits_reconstruct(s: Seq<bool>, cs: Seq<BoxMonCharacter>)
    requires
        s.len() == 6 * cs.len(),
        forall|i: int|
            0 <= i < cs.len() ==> <BoxMonCharacter as GameSerializer>::spec_decode(
                s.subrange(6 * i, 6 * i + 6),
            ) == Some(cs[i]),
    ensures
        chars_bits(cs) =~= s,
    decreases cs.len(),
{
    if cs.len() > 0 {
        assert(<BoxMonCharacter as GameSerializer>::spec_decode(s.subrange(0, 6)) == Some(cs[0]));
        <BoxMonCharacter as GameSerializer>::lemma_decode_encode(s.subrange(0, 6));
        assert(cs[0].spec_bits() == s.subrange(0, 6));
        let s2 = s.skip(6);
        assert forall|i: int| 0 <= i < cs.skip(1).len() implies <BoxMonCharacter as GameSerializer>::spec_decode(
            s2.subrange(6 * i, 6 * i + 6),
        ) == Some(cs.skip(1)[i]) by {
            assert(s2.subrange(6 * i, 6 * i + 6) =~= s.subrange(6 * (i + 1), 6 * (i + 1) + 6));
            assert(cs.skip(1)[i] == cs[i + 1]);
        }
        lemma_chars_bits_reconstruct(s2, cs.skip(1));
        assert(chars_bits(cs) == cs[0].spec_bits() + chars_bits(cs.skip(1)));
        assert(s.subrange(0, 6) + s.skip(6) =~= s);
    }
}

/// A full nickname: exactly ten symbols.
#[derive(Debug, Clone, Copy)]
pub struct BoxMonName {
    pub name: [BoxMonCharacter; 10],
}

impl PartialEq for BoxMonName {
    fn eq(&self, other: &Self) -> (r: bool) {
        let mut i: usize = 0;
        while i < 10
            invariant
                0 <= i <= 10,
                forall|j: int| 0 <= j < i ==> self.name@[j] == other.name@[j],
            decreases 10 - i,
        {
            if self.name[i] != other.name[i] {
                return false;
            }
            i = i + 1;
        }
        proof {
            assert(self.name@ =~= other.name@);
        }
        true
    }
}

impl Eq for BoxMonName {

}

impl vstd::std_specs::cmp::PartialEqSpecImpl for BoxMonName {
    open spec fn obeys_eq_spec() -> bool {
        true
    }

    open spec fn eq_spec(&self, other: &BoxMonName) -> bool {
        self.name@ == other.name@
    }
}

/// The 60-bit pattern of a name.
pub open spec fn name_bits(n: BoxMonName) -> Seq<bool> {
    chars_bits(n.name@)
}

/// The symbols of a name, as a sequence.
pub open spec fn name_view(n: BoxMonName) -> Seq<BoxMonCharacter> {
    n.name@
}

impl BoxMonName {
    pub fn new(name: [BoxMonCharacter; 10]) -> (r: Self)
        ensures
            r.name@ == name@,
            r == (BoxMonName { name }),
    {
        BoxMonName { name }
    }
}

impl BitCount for BoxMonName {
    open spec fn spec_bit_count() -> usize {
        60
    }

    fn bit_count() -> (r: usize) {
        60
    }
}

/// Names with equal bit patterns are equal.
pub proof fn lemma_name_bits_injective(a: BoxMonName, b: BoxMonName)
    requires
        name_bits(a) == name_bits(b),
    ensures
        a == b,
{
    lemma_chars_bits_injective(a.name@, b.name@);
    assert(a.name@ =~= b.name@);
    assert(a.name == b.name);
}

impl GameSerializer for BoxMonName {
    open spec fn spec_bits(&self) -> Seq<bool> {
        name_bits(*self)
    }

    open spec fn spec_decode(s: Seq<bool>) -> Option<BoxMonName> {
        if s.len() == 60 && (exists|n: BoxMonName| name_bits(n) == s) {
            Some(choose|n: BoxMonName| name_bits(n) == s)
        } else {
            None
        }
    }

    proof fn lemma_encode_decode(&self) {
        lemma_chars_bits_len(self.name@);
        assert(name_bits(*self) == self.spec_bits());
        let n = choose|n: BoxMonName| name_bits(n) == name_bits(*self);
        lemma_name_bits_injective(n, *self);
    }

    proof fn lemma_decode_encode(s: Seq<bool>) {
    }

    fn bits_to_game_value(value: &BoxMonBitVec) -> (r: Result<BoxMonName, ToGameValueError>) {
        if value.0.len() != 60 {
            return Err(ToGameValueError::BadBitsLength);
        }
        let name = [
            decode_char(value, 0),
            decode_char(value, 1),
            decode_char(value, 2),
            decode_char(value, 3),
            decode_char(value, 4),
            decode_char(value, 5),
            decode_char(value, 6),
            decode_char(value, 7),
            decode_char(value, 8),
            decode_char(value, 9),
        ];
        let built = BoxMonName { name };
        proof {
            assert forall|i: int| 0 <= i < 10 implies <BoxMonCharacter as GameSerializer>::spec_decode(
                value@.subrange(6 * i, 6 * i + 6),
            ) == Some(built.name@[i]) by {
            }
            lemma_chars_bits_reconstruct(value@, built.name@);
            assert(name_bits(built) == value@);
            let n = choose|n: BoxMonName| name_bits(n) == value@;
            lemma_name_bits_injective(n, built);
        }
        Ok(built)
    }

    fn game_value_to_bits(&self) -> (r: Result<BoxMonBitVec, FromGameValueError>) {
        let mut bits: Vec<bool> = Vec::new();
        let mut i: usize = 0;
        while i < 10
            invariant
                0 <= i <= 10,
                bits@ =~= chars_bits(self.name@.take(i as int)),
            decreases 10 - i,
        {
            let c = self.name[i];
            let ord = c.to_u8();
            let cbits = BoxMonBitVec::new(6, ord as u64);
            proof {
                lemma_nat_to_bits_len(6, ord as nat);
                assert(cbits@ == c.spec_bits());
            }
            let mut j: usize = 0;
            while j < 6
                invariant
                    0 <= j <= 6,
                    cbits@ == c.spec_bits(),
                    cbits@.len() == 6,
                    bits@ =~= chars_bits(self.name@.take(i as int)) + c.spec_bits().take(j as int),
                decreases 6 - j,
            {
                bits.push(cbits.0[j]);
                proof {
                    assert(c.spec_bits().take(j + 1) =~= c.spec_bits().take(j as int).push(
                        c.spec_bits()[j as int],
                    ));
                }
                j = j + 1;
            }
            proof {
                assert(c.spec_bits().take(6) =~= c.spec_bits());
                lemma_chars_bits_push(self.name@.take(i as int), c);
                assert(self.name@.take(i as int).push(self.name@[i as int]) =~= self.name@.take(
                    i + 1,
                ));
            }
            i = i + 1;
        }
        proof {
            assert(self.name@.take(10) =~= self.name@);
        }
        Ok(BoxMonBitVec(bits))
    }
}

/// Decodes the `i`-th six-bit slice of a 60-bit name pattern. Every
/// six-bit pattern is a valid symbol, so this cannot fail.
fn decode_char(value: &BoxMonBitVec, i: usize) -> (r: BoxMonCharacter)
    requires
        value@.len() == 60,
        i < 10,
    ensures
        <BoxMonCharacter as GameSerializer>::spec_decode(
            value@.subrange(6 * i as int, 6 * i as int + 6),
        ) == Some(r),
{
    let chunk = value.chunk(6 * i, 6 * i + 6);
    proof {
        lemma_bits_to_nat_bound(chunk@);
        vstd::arithmetic::power2::lemma2_to64();
        assert(bits_to_nat(chunk@) < 64);
    }
    match BoxMonCharacter::bits_to_game_value(&chunk) {
        Ok(c) => c,
        Err(_) => {
            proof {
                assert(false);
            }
            BoxMonCharacter::LowerA
        },
    }
}

/// The symbols of a run of free-text characters, if every character is
/// in the alphabet.
pub open spec fn parse_chars(s: Seq<char>) -> Option<Seq<BoxMonCharacter>>
    decreases s.len(),
{
    if s.len() == 0 {
        Some(Seq::empty())
    } else {
        match BoxMonCharacter::spec_from_char(s[0]) {
            None => None,
            Some(c) => match parse_chars(s.skip(1)) {
                None => None,
                Some(rest) => Some(seq![c] + rest),
            },
        }
    }
}

pub proof fn lemma_parse_chars(s: Seq<char>)
    ensures
        match parse_chars(s) {
            Some(cs) => cs.len() == s.len() && forall|i: int|
                0 <= i < s.len() ==> BoxMonCharacter::spec_from_char(s[i]) == Some(cs[i]),
            None => exists|i: int|
                0 <= i < s.len() && BoxMonCharacter::spec_from_char(#[trigger] s[i]) is None,
        },
    decreases s.len(),
{
    if s.len() > 0 {
        lemma_parse_chars(s.skip(1));
        match BoxMonCharacter::spec_from_char(s[0]) {
            None => {
                assert(BoxMonCharacter::spec_from_char(s[0]) is None);
            },
            Some(c) => {
                match parse_chars(s.skip(1)) {
                    None => {
                        let j = choose|i: int|
                            0 <= i < s.skip(1).len() && BoxMonCharacter::spec_from_char(
                                #[trigger] s.skip(1)[i],
                            ) is None;
                        assert(s.skip(1)[j] == s[j + 1]);
                        assert(BoxMonCharacter::spec_from_char(s[j + 1]) is None);
                    },
                    Some(rest) => {
                        let cs = seq![c] + rest;
                        assert forall|i: int| 0 <= i < s.len() implies BoxMonCharacter::spec_from_char(
                            s[i],
                        ) == Some(cs[i]) by {
                            if i > 0 {
                                assert(s.skip(1)[i - 1] == s[i]);
                                assert(cs[i] == rest[i - 1]);
                            }
                        }
                    },
                }
            },
        }
    }
}

impl FromStringInput for BoxMonName {
    open spec fn spec_from_string(s: Seq<char>) -> Option<Self> {
        if s.len() == 10 {
            match parse_chars(s) {
                Some(cs) => if exists|n: BoxMonName| name_view(n) == cs {
                    Some(choose|n: BoxMonName| name_view(n) == cs)
                } else {
                    None
                },
                None => None,
            }
        } else {
            None
        }
    }

    fn try_from_string(input: &str) -> (r: Option<Self>) {
        if input.unicode_len() != 10 {
            return None;
        }
        let mut parsed: Vec<BoxMonCharacter> = Vec::new();
        let mut i: usize = 0;
        proof {
            lemma_parse_chars(input@);
        }
        while i < 10
            invariant
                0 <= i <= 10,
                input@.len() == 10,
                parsed@.len() == i,
                forall|j: int|
                    0 <= j < i ==> BoxMonCharacter::spec_from_char(input@[j]) == Some(parsed@[j]),
            decreases 10 - i,
        {
            match BoxMonCharacter::from_char(input.get_char(i)) {
                Some(c) => {
                    parsed.push(c);
                },
                None => {
                    proof {
                        lemma_parse_chars(input@);
                    }
                    return None;
                },
            }
            i = i + 1;
        }
        let name = [
            parsed[0],
            parsed[1],
            parsed[2],
            parsed[3],
            parsed[4],
            parsed[5],
            parsed[6],
            parsed[7],
            parsed[8],
            parsed[9],
        ];
        let built = BoxMonName { name };
        proof {
            lemma_parse_chars(input@);
            match parse_chars(input@) {
                Some(cs) => {
                    assert(built.name@ =~= cs);
                    let n = choose|n: BoxMonName| name_view(n) == cs;
                    assert(name_view(built) == cs);
                    assert(n.name@ =~= built.name@);
                    assert(n.name == built.name);
                },
                None => {
                    let j = choose|i: int|
                        0 <= i < input@.len() && BoxMonCharacter::spec_from_char(
                            #[trigger] input@[i],
                        ) is None;
                    assert(BoxMonCharacter::spec_from_char(input@[j]) == Some(parsed@[j]));
                    assert(false);
                },
            }
        }
        Some(built)
    }
}


/// The value the `i`-th six-bit slice of a 60-bit pattern decodes to.
pub open spec fn char_slice_value(s: Seq<bool>, i: int) -> BoxMonCharacter {
    match <BoxMonCharacter as GameSerializer>::spec_decode(s.subrange(6 * i, 6 * i + 6)) {
        Some(c) => c,
        None => BoxMonCharacter::LowerA,
    }
}

/// Every 60-bit pattern decodes to a name: each six-bit slice is a
/// valid symbol.
pub proof fn lemma_name_decode_total(s: Seq<bool>)
    requires
        s.len() == 60,
    ensures
        <BoxMonName as GameSerializer>::spec_decode(s) is Some,
{
    vstd::arithmetic::power2::lemma2_to64();
    assert forall|i: int| 0 <= i < 10 implies <BoxMonCharacter as GameSerializer>::spec_decode(
        s.subrange(6 * i, 6 * i + 6),
    ) == Some(char_slice_value(s, i)) by {
        lemma_bits_to_nat_bound(s.subrange(6 * i, 6 * i + 6));
        assert(bits_to_nat(s.subrange(6 * i, 6 * i + 6)) < 64);
    }
    let a0 = vstd::array::spec_array_fill_for_copy_type::<BoxMonCharacter, 10>(
        BoxMonCharacter::LowerA,
    );
    let a1 = vstd::array::spec_array_update(a0, 0, char_slice_value(s, 0));
    let a2 = vstd::array::spec_array_update(a1, 1, char_slice_value(s, 1));
    let a3 = vstd::array::spec_array_update(a2, 2, char_slice_value(s, 2));
    let a4 = vstd::array::spec_array_update(a3, 3, char_slice_value(s, 3));
    let a5 = vstd::array::spec_array_update(a4, 4, char_slice_value(s, 4));
    let a6 = vstd::array::spec_array_update(a5, 5, char_slice_value(s, 5));
    let a7 = vstd::array::spec_array_update(a6, 6, char_slice_value(s, 6));
    let a8 = vstd::array::spec_array_update(a7, 7, char_slice_value(s, 7));
    let a9 = vstd::array::spec_array_update(a8, 8, char_slice_value(s, 8));
    let a10 = vstd::array::spec_array_update(a9, 9, char_slice_value(s, 9));
    let n = BoxMonName { name: a10 };
    assert forall|i: int| 0 <= i < 10 implies n.name@[i] == char_slice_value(s, i) by {
    }
    lemma_chars_bits_reconstruct(s, n.name@);
    assert(name_bits(n) == s);
}


impl BoxMonCharacter {
    /// The free-text spelling of this symbol.
    pub open spec fn spec_to_string(self) -> Seq<char> {
        match self {
            BoxMonCharacter::LowerA => "a"@,
            BoxMonCharacter::UpperA => "A"@,
            BoxMonCharacter::LowerB => "b"@,
            BoxMonCharacter::UpperB => "B"@,
            BoxMonCharacter::LowerC => "c"@,
            BoxMonCharacter::UpperC => "C"@,
            BoxMonCharacter::LowerD => "d"@,
            BoxMonCharacter::UpperD => "D"@,
            BoxMonCharacter::LowerE => "e"@,
            BoxMonCharacter::UpperE => "E"@,
            BoxMonCharacter::LowerF => "f"@,
            BoxMonCharacter::UpperF => "F"@,
            BoxMonCharacter::LowerG => "g"@,
            BoxMonCharacter::UpperG => "G"@,
            BoxMonCharacter::LowerH => "h"@,
            BoxMonCharacter::UpperH => "H"@,
            BoxMonCharacter::LowerI => "i"@,
            BoxMonCharacter::UpperI => "I"@,
            BoxMonCharacter::LowerJ => "j"@,
            BoxMonCharacter::UpperJ => "J"@,
            BoxMonCharacter::LowerK => "k"@,
            BoxMonCharacter::UpperK => "K"@,
            BoxMonCharacter::LowerM => "m"@,
            BoxMonCharacter::UpperM => "M"@,
            BoxMonCharacter::LowerN => "n"@,
            BoxMonCharacter::UpperN => "N"@,
            BoxMonCharacter::LowerO => "o"@,
            BoxMonCharacter::UpperO => "O"@,
            BoxMonCharacter::LowerP => "p"@,
            BoxMonCharacter::UpperP => "P"@,
            BoxMonCharacter::LowerQ => "q"@,
            BoxMonCharacter::UpperQ => "Q"@,
            BoxMonCharacter::LowerR => "r"@,
            BoxMonCharacter::UpperR => "R"@,
            BoxMonCharacter::LowerS => "s"@,
            BoxMonCharacter::UpperS => "S"@,
            BoxMonCharacter::LowerT => "t"@,
            BoxMonCharacter::UpperT => "T"@,
            BoxMonCharacter::LowerU => "u"@,
            BoxMonCharacter::UpperU => "U"@,
            BoxMonCharacter::LowerV => "v"@,
            BoxMonCharacter::UpperV => "V"@,
            BoxMonCharacter::LowerW => "w"@,
            BoxMonCharacter::UpperW => "W"@,
            BoxMonCharacter::LowerX => "x"@,
            BoxMonCharacter::UpperX => "X"@,
            BoxMonCharacter::LowerY => "y"@,
            BoxMonCharacter::UpperY => "Y"@,
            BoxMonCharacter::LowerZ => "z"@,
            BoxMonCharacter::UpperZ => "Z"@,
            BoxMonCharacter::Two => "2"@,
            BoxMonCharacter::Three => "3"@,
            BoxMonCharacter::Four => "4"@,
            BoxMonCharacter::Five => "5"@,
            BoxMonCharacter::Six => "6"@,
            BoxMonCharacter::Seven => "7"@,
            BoxMonCharacter::Eight => "8"@,
            BoxMonCharacter::Nine => "9"@,
            BoxMonCharacter::ExclamationMark => "!"@,
            BoxMonCharacter::QuestionMark => "?"@,
            BoxMonCharacter::ForwardSlash => "/"@,
            BoxMonCharacter::Dash => "-"@,
            BoxMonCharacter::Ellipsis => "…"@,
            BoxMonCharacter::Male => "♂"@,
        }
    }

    /// The free-text spelling of this symbol.
    pub fn to_string(&self) -> (r: String)
        ensures
            r@ == self.spec_to_string(),
    {
        match *self {
            BoxMonCharacter::LowerA => String::from_str("a"),
            BoxMonCharacter::UpperA => String::from_str("A"),
            BoxMonCharacter::LowerB => String::from_str("b"),
            BoxMonCharacter::UpperB => String::from_str("B"),
            BoxMonCharacter::LowerC => String::from_str("c"),
            BoxMonCharacter::UpperC => String::from_str("C"),
            BoxMonCharacter::LowerD => String::from_str("d"),
            BoxMonCharacter::UpperD => String::from_str("D"),
            BoxMonCharacter::LowerE => String::from_str("e"),
            BoxMonCharacter::UpperE => String::from_str("E"),
            BoxMonCharacter::LowerF => String::from_str("f"),
            BoxMonCharacter::UpperF => String::from_str("F"),
            BoxMonCharacter::LowerG => String::from_str("g"),
            BoxMonCharacter::UpperG => String::from_str("G"),
            BoxMonCharacter::LowerH => String::from_str("h"),
            BoxMonCharacter::UpperH => String::from_str("H"),
            BoxMonCharacter::LowerI => String::from_str("i"),
            BoxMonCharacter::UpperI => String::from_str("I"),
            BoxMonCharacter::LowerJ => String::from_str("j"),
            BoxMonCharacter::UpperJ => String::from_str("J"),
            BoxMonCharacter::LowerK => String::from_str("k"),
            BoxMonCharacter::UpperK => String::from_str("K"),
            BoxMonCharacter::LowerM => String::from_str("m"),
            BoxMonCharacter::UpperM => String::from_str("M"),
            BoxMonCharacter::LowerN => String::from_str("n"),
            BoxMonCharacter::UpperN => String::from_str("N"),
            BoxMonCharacter::LowerO => String::from_str("o"),
            BoxMonCharacter::UpperO => String::from_str("O"),
            BoxMonCharacter::LowerP => String::from_str("p"),
            BoxMonCharacter::UpperP => String::from_str("P"),
            BoxMonCharacter::LowerQ => String::from_str("q"),
            BoxMonCharacter::UpperQ => String::from_str("Q"),
            BoxMonCharacter::LowerR => String::from_str("r"),
            BoxMonCharacter::UpperR => String::from_str("R"),
            BoxMonCharacter::LowerS => String::from_str("s"),
            BoxMonCharacter::UpperS => String::from_str("S"),
            BoxMonCharacter::LowerT => String::from_str("t"),
            BoxMonCharacter::UpperT => String::from_str("T"),
            BoxMonCharacter::LowerU => String::from_str("u"),
            BoxMonCharacter::UpperU => String::from_str("U"),
            BoxMonCharacter::LowerV => String::from_str("v"),
            BoxMonCharacter::UpperV => String::from_str("V"),
            BoxMonCharacter::LowerW => String::from_str("w"),
            BoxMonCharacter::UpperW => String::from_str("W"),
            BoxMonCharacter::LowerX => String::from_str("x"),
            BoxMonCharacter::UpperX => String::from_str("X"),
            BoxMonCharacter::LowerY => String::from_str("y"),
            BoxMonCharacter::UpperY => String::from_str("Y"),
            BoxMonCharacter::LowerZ => String::from_str("z"),
            BoxMonCharacter::UpperZ => String::from_str("Z"),
            BoxMonCharacter::Two => String::from_str("2"),
            BoxMonCharacter::Three => String::from_str("3"),
            BoxMonCharacter::Four => String::from_str("4"),
            BoxMonCharacter::Five => String::from_str("5"),
            BoxMonCharacter::Six => String::from_str("6"),
            BoxMonCharacter::Seven => String::from_str("7"),
            BoxMonCharacter::Eight => String::from_str("8"),
            BoxMonCharacter::Nine => String::from_str("9"),
            BoxMonCharacter::ExclamationMark => String::from_str("!"),
            BoxMonCharacter::QuestionMark => String::from_str("?"),
            BoxMonCharacter::ForwardSlash => String::from_str("/"),
            BoxMonCharacter::Dash => String::from_str("-"),
            BoxMonCharacter::Ellipsis => String::from_str("…"),
            BoxMonCharacter::Male => String::from_str("♂"),
        }
    }
}

impl BoxMonName {
    /// The ten symbols' spellings, concatenated.
    pub open spec fn spec_to_string(self) -> Seq<char> {
        chars_string(self.name@)
    }

    /// The ten symbols' spellings, concatenated.
    pub fn to_string(&self) -> (r: String)
        ensures
            r@ == self.spec_to_string(),
    {
        let mut out = String::new();
        let mut i: usize = 0;
        while i < 10
            invariant
                0 <= i <= 10,
                out@ =~= chars_string(self.name@.take(i as int)),
            decreases 10 - i,
        {
            let part = self.name[i].to_string();
            out.append(part.as_str());
            proof {
                lemma_chars_string_push(self.name@.take(i as int), self.name@[i as int]);
                assert(self.name@.take(i as int).push(self.name@[i as int]) =~= self.name@.take(
                    i + 1,
                ));
            }
            i = i + 1;
        }
        proof {
            assert(self.name@.take(10) =~= self.name@);
        }
        out
    }
}

/// The concatenated spellings of a symbol sequence.
pub open spec fn chars_string(cs: Seq<BoxMonCharacter>) -> Seq<char>
    decreases cs.len(),
{
    if cs.len() == 0 {
        Seq::empty()
    } else {
        cs[0].spec_to_string() + chars_string(cs.skip(1))
    }
}

pub proof fn lemma_chars_string_push(cs: Seq<BoxMonCharacter>, c: BoxMonCharacter)
    ensures
        chars_string(cs.push(c)) =~= chars_string(cs) + c.spec_to_string(),
    decreases cs.len(),
{
    if cs.len() == 0 {
        assert(cs.push(c) =~= seq![c]);
        assert(seq![c].skip(1) =~= Seq::<BoxMonCharacter>::empty());
        assert(chars_string(seq![c]) == c.spec_to_string() + chars_string(
            Seq::<BoxMonCharacter>::empty(),
        ));
        assert(c.spec_to_string() + Seq::<char>::empty() =~= c.spec_to_string());
        assert(chars_string(cs) + c.spec_to_string() =~= c.spec_to_string());
    } else {
        assert(cs.push(c)[0] == cs[0]);
        assert(cs.push(c).skip(1) =~= cs.skip(1).push(c));
        lemma_chars_string_push(cs.skip(1), c);
        assert(chars_string(cs.push(c)) == cs[0].spec_to_string() + chars_string(
            cs.skip(1).push(c),
        ));
        assert(cs[0].spec_to_string() + (chars_string(cs.skip(1)) + c.spec_to_string()) =~= (
        cs[0].spec_to_string() + chars_string(cs.skip(1))) + c.spec_to_string());
    }
}

} // verus!

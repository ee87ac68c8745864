//! The captured-ball field: an eight-value domain stored in three bits.

use vstd::prelude::*;
use crate::mon_field::{BitCount, FromRepresentation};

verus! {

#[derive(Debug, Clone, Copy, PartialEq, Eq, Structural)]
pub enum BoxMonCapturedBall {
    ItemDiveBall,
    ItemGreatBall,
    ItemNestBall,
    ItemNetBall,
    ItemPokeBall,
    ItemRepeatBall,
    ItemTimerBall,
    ItemUltraBall,
}

impl BitCount for BoxMonCapturedBall {
    open spec fn spec_bit_count() -> usize {
        3
    }

    fn bit_count() -> (r: usize) {
        3
    }
}

impl FromRepresentation for BoxMonCapturedBall {
    open spec fn spec_ord(&self) -> u8 {
        match *self {
            BoxMonCapturedBall::ItemDiveBall => 0,
            BoxMonCapturedBall::ItemGreatBall => 1,
            BoxMonCapturedBall::ItemNestBall => 2,
            BoxMonCapturedBall::ItemNetBall => 3,
            BoxMonCapturedBall::ItemPokeBall => 4,
            BoxMonCapturedBall::ItemRepeatBall => 5,
            BoxMonCapturedBall::ItemTimerBall => 6,
            BoxMonCapturedBall::ItemUltraBall => 7,
        }
    }

    open spec fn spec_from(repr: u8) -> Option<Self> {
        if repr == 0 {
            Some(BoxMonCapturedBall::ItemDiveBall)
        } else if repr == 1 {
            Some(BoxMonCapturedBall::ItemGreatBall)
        } else if repr == 2 {
            Some(BoxMonCapturedBall::ItemNestBall)
        } else if repr == 3 {
            Some(BoxMonCapturedBall::ItemNetBall)
        } else if repr == 4 {
            Some(BoxMonCapturedBall::ItemPokeBall)
        } else if repr == 5 {
            Some(BoxMonCapturedBall::ItemRepeatBall)
        } else if repr == 6 {
            Some(BoxMonCapturedBall::ItemTimerBall)
        } else if repr == 7 {
            Some(BoxMonCapturedBall::ItemUltraBall)
        } else {
            None
        }
    }

    proof fn lemma_ord_bound(&self) {
        vstd::arithmetic::power2::lemma2_to64();
    }

    proof fn lemma_from_total(repr: u8) {
        vstd::arithmetic::power2::lemma2_to64();
    }

    proof fn lemma_width_le_8() {
    }

    fn from_repr(repr: u8) -> (r: Option<Self>) {
        if repr == 0 {
            Some(BoxMonCapturedBall::ItemDiveBall)
        } else if repr == 1 {
            Some(BoxMonCapturedBall::ItemGreatBall)
        } else if repr == 2 {
            Some(BoxMonCapturedBall::ItemNestBall)
        } else if repr == 3 {
            Some(BoxMonCapturedBall::ItemNetBall)
        } else if repr == 4 {
            Some(BoxMonCapturedBall::ItemPokeBall)
        } else if repr == 5 {
            Some(BoxMonCapturedBall::ItemRepeatBall)
        } else if repr == 6 {
            Some(BoxMonCapturedBall::ItemTimerBall)
        } else if repr == 7 {
            Some(BoxMonCapturedBall::ItemUltraBall)
        } else {
            None
        }
    }

    fn to_u8(&self) -> (r: u8) {
        match *self {
            BoxMonCapturedBall::ItemDiveBall => 0,
            BoxMonCapturedBall::ItemGreatBall => 1,
            BoxMonCapturedBall::ItemNestBall => 2,
            BoxMonCapturedBall::ItemNetBall => 3,
            BoxMonCapturedBall::ItemPokeBall => 4,
            BoxMonCapturedBall::ItemRepeatBall => 5,
            BoxMonCapturedBall::ItemTimerBall => 6,
            BoxMonCapturedBall::ItemUltraBall => 7,
        }
    }
}

} // verus!

//! The held-item field: a 32-value domain stored in five bits, with a
//! free-text lookup that falls back to the nearest table entry by edit
//! distance.

use vstd::prelude::*;
use crate::mon_field::{BitCount, FromRepresentation, FromStringInput};

verus! {

#[derive(Debug, Clone, Copy, PartialEq, Eq, Structural)]
pub enum BoxMonHeldItem {
    Empty,
    Antidote,
    Awakening,
    BurnHeal,
    DireHit,
    EnergyPower,
    EnergyRoot,
    EscapeRope,
    FluffyTail,
    FullHeal,
    FullRestore,
    GreatBall,
    GuardSpec,
    HealPowder,
    HyperPotion,
    IceHeal,
    MaxPotion,
    MaxRepel,
    ParlyzHeal,
    PokeBall,
    Potion,
    NestBall,
    Repel,
    RevivalHerb,
    Revive,
    SuperPotion,
    SuperRepel,
    TimerBall,
    XAccuracy,
    XAttack,
    XDefend,
    XSpecial,
}

impl Default for BoxMonHeldItem {
    fn default() -> (r: Self)
        ensures
            r == BoxMonHeldItem::Empty,
    {
        BoxMonHeldItem::Empty
    }
}

impl BitCount for BoxMonHeldItem {
    open spec fn spec_bit_count() -> usize {
        5
    }

    fn bit_count() -> (r: usize) {
        5
    }
}

impl FromRepresentation for BoxMonHeldItem {
    open spec fn spec_ord(&self) -> u8 {
        match *self {
            BoxMonHeldItem::Empty => 0,
            BoxMonHeldItem::Antidote => 1,
            BoxMonHeldItem::Awakening => 2,
            BoxMonHeldItem::BurnHeal => 3,
            BoxMonHeldItem::DireHit => 4,
            BoxMonHeldItem::EnergyPower => 5,
            BoxMonHeldItem::EnergyRoot => 6,
            BoxMonHeldItem::EscapeRope => 7,
            BoxMonHeldItem::FluffyTail => 8,
            BoxMonHeldItem::FullHeal => 9,
            BoxMonHeldItem::FullRestore => 10,
            BoxMonHeldItem::GreatBall => 11,
            BoxMonHeldItem::GuardSpec => 12,
            BoxMonHeldItem::HealPowder => 13,
            BoxMonHeldItem::HyperPotion => 14,
            BoxMonHeldItem::IceHeal => 15,
            BoxMonHeldItem::MaxPotion => 16,
            BoxMonHeldItem::MaxRepel => 17,
            BoxMonHeldItem::ParlyzHeal => 18,
            BoxMonHeldItem::PokeBall => 19,
            BoxMonHeldItem::Potion => 20,
            BoxMonHeldItem::NestBall => 21,
            BoxMonHeldItem::Repel => 22,
            BoxMonHeldItem::RevivalHerb => 23,
            BoxMonHeldItem::Revive => 24,
            BoxMonHeldItem::SuperPotion => 25,
            BoxMonHeldItem::SuperRepel => 26,
            BoxMonHeldItem::TimerBall => 27,
            BoxMonHeldItem::XAccuracy => 28,
            BoxMonHeldItem::XAttack => 29,
            BoxMonHeldItem::XDefend => 30,
            BoxMonHeldItem::XSpecial => 31,
        }
    }

    open spec fn spec_from(repr: u8) -> Option<Self> {
        if repr == 0 {
            Some(BoxMonHeldItem::Empty)
        } else if repr == 1 {
            Some(BoxMonHeldItem::Antidote)
        } else if repr == 2 {
            Some(BoxMonHeldItem::Awakening)
        } else if repr == 3 {
            Some(BoxMonHeldItem::BurnHeal)
        } else if repr == 4 {
            Some(BoxMonHeldItem::DireHit)
        } else if repr == 5 {
            Some(BoxMonHeldItem::EnergyPower)
        } else if repr == 6 {
            Some(BoxMonHeldItem::EnergyRoot)
        } else if repr == 7 {
            Some(BoxMonHeldItem::EscapeRope)
        } else if repr == 8 {
            Some(BoxMonHeldItem::FluffyTail)
        } else if repr == 9 {
            Some(BoxMonHeldItem::FullHeal)
        } else if repr == 10 {
            Some(BoxMonHeldItem::FullRestore)
        } else if repr == 11 {
            Some(BoxMonHeldItem::GreatBall)
        } else if repr == 12 {
            Some(BoxMonHeldItem::GuardSpec)
        } else if repr == 13 {
            Some(BoxMonHeldItem::HealPowder)
        } else if repr == 14 {
            Some(BoxMonHeldItem::HyperPotion)
        } else if repr == 15 {
            Some(BoxMonHeldItem::IceHeal)
        } else if repr == 16 {
            Some(BoxMonHeldItem::MaxPotion)
        } else if repr == 17 {
            Some(BoxMonHeldItem::MaxRepel)
        } else if repr == 18 {
            Some(BoxMonHeldItem::ParlyzHeal)
        } else if repr == 19 {
            Some(BoxMonHeldItem::PokeBall)
        } else if repr == 20 {
            Some(BoxMonHeldItem::Potion)
        } else if repr == 21 {
            Some(BoxMonHeldItem::NestBall)
        } else if repr == 22 {
            Some(BoxMonHeldItem::Repel)
        } else if repr == 23 {
            Some(BoxMonHeldItem::RevivalHerb)
        } else if repr == 24 {
            Some(BoxMonHeldItem::Revive)
        } else if repr == 25 {
            Some(BoxMonHeldItem::SuperPotion)
        } else if repr == 26 {
            Some(BoxMonHeldItem::SuperRepel)
        } else if repr == 27 {
            Some(BoxMonHeldItem::TimerBall)
        } else if repr == 28 {
            Some(BoxMonHeldItem::XAccuracy)
        } else if repr == 29 {
            Some(BoxMonHeldItem::XAttack)
        } else if repr == 30 {
            Some(BoxMonHeldItem::XDefend)
        } else if repr == 31 {
            Some(BoxMonHeldItem::XSpecial)
        } else {
            None
        }
    }

    proof fn lemma_ord_bound(&self) {
        vstd::arithmetic::power2::lemma2_to64();
    }

    proof fn lemma_from_total(repr: u8) {
        vstd::arithmetic::power2::lemma2_to64();
    }

    proof fn lemma_width_le_8() {
    }

    fn from_repr(repr: u8) -> (r: Option<Self>) {
        if repr == 0 {
            Some(BoxMonHeldItem::Empty)
        } else if repr == 1 {
            Some(BoxMonHeldItem::Antidote)
        } else if repr == 2 {
            Some(BoxMonHeldItem::Awakening)
        } else if repr == 3 {
            Some(BoxMonHeldItem::BurnHeal)
        } else if repr == 4 {
            Some(BoxMonHeldItem::DireHit)
        } else if repr == 5 {
            Some(BoxMonHeldItem::EnergyPower)
        } else if repr == 6 {
            Some(BoxMonHeldItem::EnergyRoot)
        } else if repr == 7 {
            Some(BoxMonHeldItem::EscapeRope)
        } else if repr == 8 {
            Some(BoxMonHeldItem::FluffyTail)
        } else if repr == 9 {
            Some(BoxMonHeldItem::FullHeal)
        } else if repr == 10 {
            Some(BoxMonHeldItem::FullRestore)
        } else if repr == 11 {
            Some(BoxMonHeldItem::GreatBall)
        } else if repr == 12 {
            Some(BoxMonHeldItem::GuardSpec)
        } else if repr == 13 {
            Some(BoxMonHeldItem::HealPowder)
        } else if repr == 14 {
            Some(BoxMonHeldItem::HyperPotion)
        } else if repr == 15 {
            Some(BoxMonHeldItem::IceHeal)
        } else if repr == 16 {
            Some(BoxMonHeldItem::MaxPotion)
        } else if repr == 17 {
            Some(BoxMonHeldItem::MaxRepel)
        } else if repr == 18 {
            Some(BoxMonHeldItem::ParlyzHeal)
        } else if repr == 19 {
            Some(BoxMonHeldItem::PokeBall)
        } else if repr == 20 {
            Some(BoxMonHeldItem::Potion)
        } else if repr == 21 {
            Some(BoxMonHeldItem::NestBall)
        } else if repr == 22 {
            Some(BoxMonHeldItem::Repel)
        } else if repr == 23 {
            Some(BoxMonHeldItem::RevivalHerb)
        } else if repr == 24 {
            Some(BoxMonHeldItem::Revive)
        } else if repr == 25 {
            Some(BoxMonHeldItem::SuperPotion)
        } else if repr == 26 {
            Some(BoxMonHeldItem::SuperRepel)
        } else if repr == 27 {
            Some(BoxMonHeldItem::TimerBall)
        } else if repr == 28 {
            Some(BoxMonHeldItem::XAccuracy)
        } else if repr == 29 {
            Some(BoxMonHeldItem::XAttack)
        } else if repr == 30 {
            Some(BoxMonHeldItem::XDefend)
        } else if repr == 31 {
            Some(BoxMonHeldItem::XSpecial)
        } else {
            None
        }
    }

    fn to_u8(&self) -> (r: u8) {
        match *self {
            BoxMonHeldItem::Empty => 0,
            BoxMonHeldItem::Antidote => 1,
            BoxMonHeldItem::Awakening => 2,
            BoxMonHeldItem::BurnHeal => 3,
            BoxMonHeldItem::DireHit => 4,
            BoxMonHeldItem::EnergyPower => 5,
            BoxMonHeldItem::EnergyRoot => 6,
            BoxMonHeldItem::EscapeRope => 7,
            BoxMonHeldItem::FluffyTail => 8,
            BoxMonHeldItem::FullHeal => 9,
            BoxMonHeldItem::FullRestore => 10,
            BoxMonHeldItem::GreatBall => 11,
            BoxMonHeldItem::GuardSpec => 12,
            BoxMonHeldItem::HealPowder => 13,
            BoxMonHeldItem::HyperPotion => 14,
            BoxMonHeldItem::IceHeal => 15,
            BoxMonHeldItem::MaxPotion => 16,
            BoxMonHeldItem::MaxRepel => 17,
            BoxMonHeldItem::ParlyzHeal => 18,
            BoxMonHeldItem::PokeBall => 19,
            BoxMonHeldItem::Potion => 20,
            BoxMonHeldItem::NestBall => 21,
            BoxMonHeldItem::Repel => 22,
            BoxMonHeldItem::RevivalHerb => 23,
            BoxMonHeldItem::Revive => 24,
            BoxMonHeldItem::SuperPotion => 25,
            BoxMonHeldItem::SuperRepel => 26,
            BoxMonHeldItem::TimerBall => 27,
            BoxMonHeldItem::XAccuracy => 28,
            BoxMonHeldItem::XAttack => 29,
            BoxMonHeldItem::XDefend => 30,
            BoxMonHeldItem::XSpecial => 31,
        }
    }
}

/// The Levenshtein distance between two character sequences, as the
/// `edit-distance` crate computes it. A function of the two sequences
/// alone.
pub uninterp spec fn edit_distance_of(a: Seq<char>, b: Seq<char>) -> nat;

/// Relies on edit_distance::edit_distance: the Levenshtein distance
/// between the characters of `a` and `b`, depending on them alone.
#[verifier::external_body]
fn edit_distance_call(a: &str, b: &str) -> (r: usize)
    ensures
        r as nat == edit_distance_of(a@, b@),
{
    edit_distance::edit_distance(a, b)
}

/// Number of entries in the free-text lookup table.
pub open spec fn item_table_len() -> int {
    33
}

/// The `i`-th key of the lookup table: the recognizer's upper-case
/// spelling of each item name, plus one alternative spelling.
pub open spec fn item_table_name(i: int) -> Seq<char> {
        if i == 0 {
            ""@
        } else if i == 1 {
            "ANTIDOTE"@
        } else if i == 2 {
            "AWAKENING"@
        } else if i == 3 {
            "BURNHEAL"@
        } else if i == 4 {
            "DIREHIT"@
        } else if i == 5 {
            "ENERGYPOWDER"@
        } else if i == 6 {
            "ENERGYROOT"@
        } else if i == 7 {
            "ESCAPEROPE"@
        } else if i == 8 {
            "FLUFFYTAIL"@
        } else if i == 9 {
            "FULLHEAL"@
        } else if i == 10 {
            "FULLRESTORE"@
        } else if i == 11 {
            "GREATBALL"@
        } else if i == 12 {
            "GUARDSPEC."@
        } else if i == 13 {
            "HEALPOWDER"@
        } else if i == 14 {
            "HYPERPOTION"@
        } else if i == 15 {
            "ICEHEAL"@
        } else if i == 16 {
            "MAXPOTION"@
        } else if i == 17 {
            "MAXREPEL"@
        } else if i == 18 {
            "PARLYZHEAL"@
        } else if i == 19 {
            "POKEBALL"@
        } else if i == 20 {
            "POTION"@
        } else if i == 21 {
            "PROTEIN"@
        } else if i == 22 {
            "NESTBALL"@
        } else if i == 23 {
            "REPEL"@
        } else if i == 24 {
            "REVIVALHERB"@
        } else if i == 25 {
            "REVIVE"@
        } else if i == 26 {
            "SUPERPOTION"@
        } else if i == 27 {
            "SUPERREPEL"@
        } else if i == 28 {
            "TIMERBALL"@
        } else if i == 29 {
            "XACCURACY"@
        } else if i == 30 {
            "XATTACK"@
        } else if i == 31 {
            "XDEFEND"@
        } else if i == 32 {
            "XSPECIAL"@
        } else {
            ""@
        }
}

/// The item the `i`-th table entry stands for.
pub open spec fn item_table_item(i: int) -> BoxMonHeldItem {
        if i == 0 {
            BoxMonHeldItem::Empty
        } else if i == 1 {
            BoxMonHeldItem::Antidote
        } else if i == 2 {
            BoxMonHeldItem::Awakening
        } else if i == 3 {
            BoxMonHeldItem::BurnHeal
        } else if i == 4 {
            BoxMonHeldItem::DireHit
        } else if i == 5 {
            BoxMonHeldItem::EnergyPower
        } else if i == 6 {
            BoxMonHeldItem::EnergyRoot
        } else if i == 7 {
            BoxMonHeldItem::EscapeRope
        } else if i == 8 {
            BoxMonHeldItem::FluffyTail
        } else if i == 9 {
            BoxMonHeldItem::FullHeal
        } else if i == 10 {
            BoxMonHeldItem::FullRestore
        } else if i == 11 {
            BoxMonHeldItem::GreatBall
        } else if i == 12 {
            BoxMonHeldItem::GuardSpec
        } else if i == 13 {
            BoxMonHeldItem::HealPowder
        } else if i == 14 {
            BoxMonHeldItem::HyperPotion
        } else if i == 15 {
            BoxMonHeldItem::IceHeal
        } else if i == 16 {
            BoxMonHeldItem::MaxPotion
        } else if i == 17 {
            BoxMonHeldItem::MaxRepel
        } else if i == 18 {
            BoxMonHeldItem::ParlyzHeal
        } else if i == 19 {
            BoxMonHeldItem::PokeBall
        } else if i == 20 {
            BoxMonHeldItem::Potion
        } else if i == 21 {
            BoxMonHeldItem::NestBall
        } else if i == 22 {
            BoxMonHeldItem::NestBall
        } else if i == 23 {
            BoxMonHeldItem::Repel
        } else if i == 24 {
            BoxMonHeldItem::RevivalHerb
        } else if i == 25 {
            BoxMonHeldItem::Revive
        } else if i == 26 {
            BoxMonHeldItem::SuperPotion
        } else if i == 27 {
            BoxMonHeldItem::SuperRepel
        } else if i == 28 {
            BoxMonHeldItem::TimerBall
        } else if i == 29 {
            BoxMonHeldItem::XAccuracy
        } else if i == 30 {
            BoxMonHeldItem::XAttack
        } else if i == 31 {
            BoxMonHeldItem::XDefend
        } else if i == 32 {
            BoxMonHeldItem::XSpecial
        } else {
            BoxMonHeldItem::Empty
        }
}

/// The item an exact table key denotes, scanning keys in table order.
pub open spec fn spec_item_exact(s: Seq<char>) -> Option<BoxMonHeldItem> {
        if s == ""@ {
            Some(BoxMonHeldItem::Empty)
        } else if s == "ANTIDOTE"@ {
            Some(BoxMonHeldItem::Antidote)
        } else if s == "AWAKENING"@ {
            Some(BoxMonHeldItem::Awakening)
        } else if s == "BURNHEAL"@ {
            Some(BoxMonHeldItem::BurnHeal)
        } else if s == "DIREHIT"@ {
            Some(BoxMonHeldItem::DireHit)
        } else if s == "ENERGYPOWDER"@ {
            Some(BoxMonHeldItem::EnergyPower)
        } else if s == "ENERGYROOT"@ {
            Some(BoxMonHeldItem::EnergyRoot)
        } else if s == "ESCAPEROPE"@ {
            Some(BoxMonHeldItem::EscapeRope)
        } else if s == "FLUFFYTAIL"@ {
            Some(BoxMonHeldItem::FluffyTail)
        } else if s == "FULLHEAL"@ {
            Some(BoxMonHeldItem::FullHeal)
        } else if s == "FULLRESTORE"@ {
            Some(BoxMonHeldItem::FullRestore)
        } else if s == "GREATBALL"@ {
            Some(BoxMonHeldItem::GreatBall)
        } else if s == "GUARDSPEC."@ {
            Some(BoxMonHeldItem::GuardSpec)
        } else if s == "HEALPOWDER"@ {
            Some(BoxMonHeldItem::HealPowder)
        } else if s == "HYPERPOTION"@ {
            Some(BoxMonHeldItem::HyperPotion)
        } else if s == "ICEHEAL"@ {
            Some(BoxMonHeldItem::IceHeal)
        } else if s == "MAXPOTION"@ {
            Some(BoxMonHeldItem::MaxPotion)
        } else if s == "MAXREPEL"@ {
            Some(BoxMonHeldItem::MaxRepel)
        } else if s == "PARLYZHEAL"@ {
            Some(BoxMonHeldItem::ParlyzHeal)
        } else if s == "POKEBALL"@ {
            Some(BoxMonHeldItem::PokeBall)
        } else if s == "POTION"@ {
            Some(BoxMonHeldItem::Potion)
        } else if s == "PROTEIN"@ {
            Some(BoxMonHeldItem::NestBall)
        } else if s == "NESTBALL"@ {
            Some(BoxMonHeldItem::NestBall)
        } else if s == "REPEL"@ {
            Some(BoxMonHeldItem::Repel)
        } else if s == "REVIVALHERB"@ {
            Some(BoxMonHeldItem::RevivalHerb)
        } else if s == "REVIVE"@ {
            Some(BoxMonHeldItem::Revive)
        } else if s == "SUPERPOTION"@ {
            Some(BoxMonHeldItem::SuperPotion)
        } else if s == "SUPERREPEL"@ {
            Some(BoxMonHeldItem::SuperRepel)
        } else if s == "TIMERBALL"@ {
            Some(BoxMonHeldItem::TimerBall)
        } else if s == "XACCURACY"@ {
            Some(BoxMonHeldItem::XAccuracy)
        } else if s == "XATTACK"@ {
            Some(BoxMonHeldItem::XAttack)
        } else if s == "XDEFEND"@ {
            Some(BoxMonHeldItem::XDefend)
        } else if s == "XSPECIAL"@ {
            Some(BoxMonHeldItem::XSpecial)
        } else {
            None
        }
}

/// The index of the table entry nearest to `s` among the first `i`
/// entries, by edit distance; the earliest entry wins ties.
pub open spec fn item_best_upto(s: Seq<char>, i: int) -> int
    decreases i,
{
    if i <= 1 {
        0
    } else {
        let prev = item_best_upto(s, i - 1);
        if edit_distance_of(s, item_table_name(i - 1)) < edit_distance_of(
            s,
            item_table_name(prev),
        ) {
            i - 1
        } else {
            prev
        }
    }
}

/// The nearest-entry index is in range, minimizes the distance, and is
/// the first index to reach that minimum.
pub proof fn lemma_item_best_upto(s: Seq<char>, i: int)
    requires
        i >= 1,
    ensures
        0 <= item_best_upto(s, i) < i,
        forall|j: int|
            0 <= j < i ==> edit_distance_of(s, item_table_name(item_best_upto(s, i)))
                <= edit_distance_of(s, #[trigger] item_table_name(j)),
        forall|j: int|
            0 <= j < item_best_upto(s, i) ==> edit_distance_of(s, #[trigger] item_table_name(j))
                > edit_distance_of(s, item_table_name(item_best_upto(s, i))),
    decreases i,
{
    if i > 1 {
        lemma_item_best_upto(s, i - 1);
    }
}

fn item_table_name_at(i: usize) -> (r: String)
    requires
        i < 33,
    ensures
        r@ == item_table_name(i as int),
{
        if i == 0 {
            String::from_str("")
        } else if i == 1 {
            String::from_str("ANTIDOTE")
        } else if i == 2 {
            String::from_str("AWAKENING")
        } else if i == 3 {
            String::from_str("BURNHEAL")
        } else if i == 4 {
            String::from_str("DIREHIT")
        } else if i == 5 {
            String::from_str("ENERGYPOWDER")
        } else if i == 6 {
            String::from_str("ENERGYROOT")
        } else if i == 7 {
            String::from_str("ESCAPEROPE")
        } else if i == 8 {
            String::from_str("FLUFFYTAIL")
        } else if i == 9 {
            String::from_str("FULLHEAL")
        } else if i == 10 {
            String::from_str("FULLRESTORE")
        } else if i == 11 {
            String::from_str("GREATBALL")
        } else if i == 12 {
            String::from_str("GUARDSPEC.")
        } else if i == 13 {
            String::from_str("HEALPOWDER")
        } else if i == 14 {
            String::from_str("HYPERPOTION")
        } else if i == 15 {
            String::from_str("ICEHEAL")
        } else if i == 16 {
            String::from_str("MAXPOTION")
        } else if i == 17 {
            String::from_str("MAXREPEL")
        } else if i == 18 {
            String::from_str("PARLYZHEAL")
        } else if i == 19 {
            String::from_str("POKEBALL")
        } else if i == 20 {
            String::from_str("POTION")
        } else if i == 21 {
            String::from_str("PROTEIN")
        } else if i == 22 {
            String::from_str("NESTBALL")
        } else if i == 23 {
            String::from_str("REPEL")
        } else if i == 24 {
            String::from_str("REVIVALHERB")
        } else if i == 25 {
            String::from_str("REVIVE")
        } else if i == 26 {
            String::from_str("SUPERPOTION")
        } else if i == 27 {
            String::from_str("SUPERREPEL")
        } else if i == 28 {
            String::from_str("TIMERBALL")
        } else if i == 29 {
            String::from_str("XACCURACY")
        } else if i == 30 {
            String::from_str("XATTACK")
        } else if i == 31 {
            String::from_str("XDEFEND")
        } else if i == 32 {
            String::from_str("XSPECIAL")
        } else {
            String::from_str("")
        }
}

fn item_table_item_at(i: usize) -> (r: BoxMonHeldItem)
    requires
        i < 33,
    ensures
        r == item_table_item(i as int),
{
        if i == 0 {
            BoxMonHeldItem::Empty
        } else if i == 1 {
            BoxMonHeldItem::Antidote
        } else if i == 2 {
            BoxMonHeldItem::Awakening
        } else if i == 3 {
            BoxMonHeldItem::BurnHeal
        } else if i == 4 {
            BoxMonHeldItem::DireHit
        } else if i == 5 {
            BoxMonHeldItem::EnergyPower
        } else if i == 6 {
            BoxMonHeldItem::EnergyRoot
        } else if i == 7 {
            BoxMonHeldItem::EscapeRope
        } else if i == 8 {
            BoxMonHeldItem::FluffyTail
        } else if i == 9 {
            BoxMonHeldItem::FullHeal
        } else if i == 10 {
            BoxMonHeldItem::FullRestore
        } else if i == 11 {
            BoxMonHeldItem::GreatBall
        } else if i == 12 {
            BoxMonHeldItem::GuardSpec
        } else if i == 13 {
            BoxMonHeldItem::HealPowder
        } else if i == 14 {
            BoxMonHeldItem::HyperPotion
        } else if i == 15 {
            BoxMonHeldItem::IceHeal
        } else if i == 16 {
            BoxMonHeldItem::MaxPotion
        } else if i == 17 {
            BoxMonHeldItem::MaxRepel
        } else if i == 18 {
            BoxMonHeldItem::ParlyzHeal
        } else if i == 19 {
            BoxMonHeldItem::PokeBall
        } else if i == 20 {
            BoxMonHeldItem::Potion
        } else if i == 21 {
            BoxMonHeldItem::NestBall
        } else if i == 22 {
            BoxMonHeldItem::NestBall
        } else if i == 23 {
            BoxMonHeldItem::Repel
        } else if i == 24 {
            BoxMonHeldItem::RevivalHerb
        } else if i == 25 {
            BoxMonHeldItem::Revive
        } else if i == 26 {
            BoxMonHeldItem::SuperPotion
        } else if i == 27 {
            BoxMonHeldItem::SuperRepel
        } else if i == 28 {
            BoxMonHeldItem::TimerBall
        } else if i == 29 {
            BoxMonHeldItem::XAccuracy
        } else if i == 30 {
            BoxMonHeldItem::XAttack
        } else if i == 31 {
            BoxMonHeldItem::XDefend
        } else if i == 32 {
            BoxMonHeldItem::XSpecial
        } else {
            BoxMonHeldItem::Empty
        }
}

impl FromStringInput for BoxMonHeldItem {
    /// An exact table key resolves directly; anything else resolves to
    /// the table entry nearest by edit distance, the earliest on ties.
    open spec fn spec_from_string(s: Seq<char>) -> Option<Self> {
        match spec_item_exact(s) {
            Some(it) => Some(it),
            None => Some(item_table_item(item_best_upto(s, item_table_len()))),
        }
    }

    fn try_from_string(input: &str) -> (r: Option<Self>) {
        let inp = String::from_str(input);
        let exact: Option<BoxMonHeldItem> =
        if inp == String::from_str("") {
            Some(BoxMonHeldItem::Empty)
        } else if inp == String::from_str("ANTIDOTE") {
            Some(BoxMonHeldItem::Antidote)
        } else if inp == String::from_str("AWAKENING") {
            Some(BoxMonHeldItem::Awakening)
        } else if inp == String::from_str("BURNHEAL") {
            Some(BoxMonHeldItem::BurnHeal)
        } else if inp == String::from_str("DIREHIT") {
            Some(BoxMonHeldItem::DireHit)
        } else if inp == String::from_str("ENERGYPOWDER") {
            Some(BoxMonHeldItem::EnergyPower)
        } else if inp == String::from_str("ENERGYROOT") {
            Some(BoxMonHeldItem::EnergyRoot)
        } else if inp == String::from_str("ESCAPEROPE") {
            Some(BoxMonHeldItem::EscapeRope)
        } else if inp == String::from_str("FLUFFYTAIL") {
            Some(BoxMonHeldItem::FluffyTail)
        } else if inp == String::from_str("FULLHEAL") {
            Some(BoxMonHeldItem::FullHeal)
        } else if inp == String::from_str("FULLRESTORE") {
            Some(BoxMonHeldItem::FullRestore)
        } else if inp == String::from_str("GREATBALL") {
            Some(BoxMonHeldItem::GreatBall)
        } else if inp == String::from_str("GUARDSPEC.") {
            Some(BoxMonHeldItem::GuardSpec)
        } else if inp == String::from_str("HEALPOWDER") {
            Some(BoxMonHeldItem::HealPowder)
        } else if inp == String::from_str("HYPERPOTION") {
            Some(BoxMonHeldItem::HyperPotion)
        } else if inp == String::from_str("ICEHEAL") {
            Some(BoxMonHeldItem::IceHeal)
        } else if inp == String::from_str("MAXPOTION") {
            Some(BoxMonHeldItem::MaxPotion)
        } else if inp == String::from_str("MAXREPEL") {
            Some(BoxMonHeldItem::MaxRepel)
        } else if inp == String::from_str("PARLYZHEAL") {
            Some(BoxMonHeldItem::ParlyzHeal)
        } else if inp == String::from_str("POKEBALL") {
            Some(BoxMonHeldItem::PokeBall)
        } else if inp == String::from_str("POTION") {
            Some(BoxMonHeldItem::Potion)
        } else if inp == String::from_str("PROTEIN") {
            Some(BoxMonHeldItem::NestBall)
        } else if inp == String::from_str("NESTBALL") {
            Some(BoxMonHeldItem::NestBall)
        } else if inp == String::from_str("REPEL") {
            Some(BoxMonHeldItem::Repel)
        } else if inp == String::from_str("REVIVALHERB") {
            Some(BoxMonHeldItem::RevivalHerb)
        } else if inp == String::from_str("REVIVE") {
            Some(BoxMonHeldItem::Revive)
        } else if inp == String::from_str("SUPERPOTION") {
            Some(BoxMonHeldItem::SuperPotion)
        } else if inp == String::from_str("SUPERREPEL") {
            Some(BoxMonHeldItem::SuperRepel)
        } else if inp == String::from_str("TIMERBALL") {
            Some(BoxMonHeldItem::TimerBall)
        } else if inp == String::from_str("XACCURACY") {
            Some(BoxMonHeldItem::XAccuracy)
        } else if inp == String::from_str("XATTACK") {
            Some(BoxMonHeldItem::XAttack)
        } else if inp == String::from_str("XDEFEND") {
            Some(BoxMonHeldItem::XDefend)
        } else if inp == String::from_str("XSPECIAL") {
            Some(BoxMonHeldItem::XSpecial)
        } else {
            None
        }
        ;
        if let Some(it) = exact {
            return Some(it);
        }
        let first = item_table_name_at(0);
        let mut best_idx: usize = 0;
        let mut best_dist: usize = edit_distance_call(input, first.as_str());
        let mut i: usize = 1;
        while i < 33
            invariant
                1 <= i <= 33,
                best_idx < i,
                best_idx as int == item_best_upto(input@, i as int),
                best_dist as nat == edit_distance_of(input@, item_table_name(best_idx as int)),
            decreases 33 - i,
        {
            let cand = item_table_name_at(i);
            let dist = edit_distance_call(input, cand.as_str());
            if dist < best_dist {
                best_idx = i;
                best_dist = dist;
            }
            i = i + 1;
        }
        Some(item_table_item_at(best_idx))
    }
}


impl BoxMonHeldItem {
    /// The item's display name.
    pub open spec fn spec_to_string(self) -> Seq<char> {
        match self {
            BoxMonHeldItem::Empty => ""@,
            BoxMonHeldItem::Antidote => "Antidote"@,
            BoxMonHeldItem::Awakening => "Awakening"@,
            BoxMonHeldItem::BurnHeal => "Burn Heal"@,
            BoxMonHeldItem::DireHit => "Dire Hit"@,
            BoxMonHeldItem::EnergyPower => "Energypowder"@,
            BoxMonHeldItem::EnergyRoot => "Energy Root"@,
            BoxMonHeldItem::EscapeRope => "Escape Rope"@,
            BoxMonHeldItem::FluffyTail => "Fluffy Tail"@,
            BoxMonHeldItem::FullHeal => "Full Heal"@,
            BoxMonHeldItem::FullRestore => "Full Restore"@,
            BoxMonHeldItem::GreatBall => "Great Ball"@,
            BoxMonHeldItem::GuardSpec => "Guard Spec."@,
            BoxMonHeldItem::HealPowder => "Heal Powder"@,
            BoxMonHeldItem::HyperPotion => "Hyper Potion"@,
            BoxMonHeldItem::IceHeal => "Ice Heal"@,
            BoxMonHeldItem::MaxPotion => "Max Potion"@,
            BoxMonHeldItem::MaxRepel => "Max Repel"@,
            BoxMonHeldItem::ParlyzHeal => "Parlyz Heal"@,
            BoxMonHeldItem::PokeBall => "Poké Ball"@,
            BoxMonHeldItem::Potion => "Potion"@,
            BoxMonHeldItem::NestBall => "Nest Ball"@,
            BoxMonHeldItem::Repel => "Repel"@,
            BoxMonHeldItem::RevivalHerb => "Revival Herb"@,
            BoxMonHeldItem::Revive => "Revive"@,
            BoxMonHeldItem::SuperPotion => "Super Potion"@,
            BoxMonHeldItem::SuperRepel => "Super Repel"@,
            BoxMonHeldItem::TimerBall => "Timer Ball"@,
            BoxMonHeldItem::XAccuracy => "X Accuracy"@,
            BoxMonHeldItem::XAttack => "X Attack"@,
            BoxMonHeldItem::XDefend => "X Defend"@,
            BoxMonHeldItem::XSpecial => "X Special"@,
        }
    }

    /// The item's display name.
    pub fn to_string(&self) -> (r: String)
        ensures
            r@ == self.spec_to_string(),
    {
        match *self {
            BoxMonHeldItem::Empty => String::from_str(""),
            BoxMonHeldItem::Antidote => String::from_str("Antidote"),
            BoxMonHeldItem::Awakening => String::from_str("Awakening"),
            BoxMonHeldItem::BurnHeal => String::from_str("Burn Heal"),
            BoxMonHeldItem::DireHit => String::from_str("Dire Hit"),
            BoxMonHeldItem::EnergyPower => String::from_str("Energypowder"),
            BoxMonHeldItem::EnergyRoot => String::from_str("Energy Root"),
            BoxMonHeldItem::EscapeRope => String::from_str("Escape Rope"),
            BoxMonHeldItem::FluffyTail => String::from_str("Fluffy Tail"),
            BoxMonHeldItem::FullHeal => String::from_str("Full Heal"),
            BoxMonHeldItem::FullRestore => String::from_str("Full Restore"),
            BoxMonHeldItem::GreatBall => String::from_str("Great Ball"),
            BoxMonHeldItem::GuardSpec => String::from_str("Guard Spec."),
            BoxMonHeldItem::HealPowder => String::from_str("Heal Powder"),
            BoxMonHeldItem::HyperPotion => String::from_str("Hyper Potion"),
            BoxMonHeldItem::IceHeal => String::from_str("Ice Heal"),
            BoxMonHeldItem::MaxPotion => String::from_str("Max Potion"),
            BoxMonHeldItem::MaxRepel => String::from_str("Max Repel"),
            BoxMonHeldItem::ParlyzHeal => String::from_str("Parlyz Heal"),
            BoxMonHeldItem::PokeBall => String::from_str("Poké Ball"),
            BoxMonHeldItem::Potion => String::from_str("Potion"),
            BoxMonHeldItem::NestBall => String::from_str("Nest Ball"),
            BoxMonHeldItem::Repel => String::from_str("Repel"),
            BoxMonHeldItem::RevivalHerb => String::from_str("Revival Herb"),
            BoxMonHeldItem::Revive => String::from_str("Revive"),
            BoxMonHeldItem::SuperPotion => String::from_str("Super Potion"),
            BoxMonHeldItem::SuperRepel => String::from_str("Super Repel"),
            BoxMonHeldItem::TimerBall => String::from_str("Timer Ball"),
            BoxMonHeldItem::XAccuracy => String::from_str("X Accuracy"),
            BoxMonHeldItem::XAttack => String::from_str("X Attack"),
            BoxMonHeldItem::XDefend => String::from_str("X Defend"),
            BoxMonHeldItem::XSpecial => String::from_str("X Special"),
        }
    }
}


impl BoxMonHeldItem {
    /// The item a display name denotes: the inverse of the display
    /// names, scanned in declared order.
    pub open spec fn spec_from_display_name(s: Seq<char>) -> Option<BoxMonHeldItem> {
        if s == ""@ {
            Some(BoxMonHeldItem::Empty)
        } else if s == "Antidote"@ {
            Some(BoxMonHeldItem::Antidote)
        } else if s == "Awakening"@ {
            Some(BoxMonHeldItem::Awakening)
        } else if s == "Burn Heal"@ {
            Some(BoxMonHeldItem::BurnHeal)
        } else if s == "Dire Hit"@ {
            Some(BoxMonHeldItem::DireHit)
        } else if s == "Energypowder"@ {
            Some(BoxMonHeldItem::EnergyPower)
        } else if s == "Energy Root"@ {
            Some(BoxMonHeldItem::EnergyRoot)
        } else if s == "Escape Rope"@ {
            Some(BoxMonHeldItem::EscapeRope)
        } else if s == "Fluffy Tail"@ {
            Some(BoxMonHeldItem::FluffyTail)
        } else if s == "Full Heal"@ {
            Some(BoxMonHeldItem::FullHeal)
        } else if s == "Full Restore"@ {
            Some(BoxMonHeldItem::FullRestore)
        } else if s == "Great Ball"@ {
            Some(BoxMonHeldItem::GreatBall)
        } else if s == "Guard Spec."@ {
            Some(BoxMonHeldItem::GuardSpec)
        } else if s == "Heal Powder"@ {
            Some(BoxMonHeldItem::HealPowder)
        } else if s == "Hyper Potion"@ {
            Some(BoxMonHeldItem::HyperPotion)
        } else if s == "Ice Heal"@ {
            Some(BoxMonHeldItem::IceHeal)
        } else if s == "Max Potion"@ {
            Some(BoxMonHeldItem::MaxPotion)
        } else if s == "Max Repel"@ {
            Some(BoxMonHeldItem::MaxRepel)
        } else if s == "Parlyz Heal"@ {
            Some(BoxMonHeldItem::ParlyzHeal)
        } else if s == "Poké Ball"@ {
            Some(BoxMonHeldItem::PokeBall)
        } else if s == "Potion"@ {
            Some(BoxMonHeldItem::Potion)
        } else if s == "Nest Ball"@ {
            Some(BoxMonHeldItem::NestBall)
        } else if s == "Repel"@ {
            Some(BoxMonHeldItem::Repel)
        } else if s == "Revival Herb"@ {
            Some(BoxMonHeldItem::RevivalHerb)
        } else if s == "Revive"@ {
            Some(BoxMonHeldItem::Revive)
        } else if s == "Super Potion"@ {
            Some(BoxMonHeldItem::SuperPotion)
        } else if s == "Super Repel"@ {
            Some(BoxMonHeldItem::SuperRepel)
        } else if s == "Timer Ball"@ {
            Some(BoxMonHeldItem::TimerBall)
        } else if s == "X Accuracy"@ {
            Some(BoxMonHeldItem::XAccuracy)
        } else if s == "X Attack"@ {
            Some(BoxMonHeldItem::XAttack)
        } else if s == "X Defend"@ {
            Some(BoxMonHeldItem::XDefend)
        } else if s == "X Special"@ {
            Some(BoxMonHeldItem::XSpecial)
        } else {
            None
        }
    }

    /// The item a display name denotes.
    pub fn from_display_name(input: &str) -> (r: Option<BoxMonHeldItem>)
        ensures
            r == Self::spec_from_display_name(input@),
    {
        let inp = String::from_str(input);
        if inp == String::from_str("") {
            Some(BoxMonHeldItem::Empty)
        } else if inp == String::from_str("Antidote") {
            Some(BoxMonHeldItem::Antidote)
        } else if inp == String::from_str("Awakening") {
            Some(BoxMonHeldItem::Awakening)
        } else if inp == String::from_str("Burn Heal") {
            Some(BoxMonHeldItem::BurnHeal)
        } else if inp == String::from_str("Dire Hit") {
            Some(BoxMonHeldItem::DireHit)
        } else if inp == String::from_str("Energypowder") {
            Some(BoxMonHeldItem::EnergyPower)
        } else if inp == String::from_str("Energy Root") {
            Some(BoxMonHeldItem::EnergyRoot)
        } else if inp == String::from_str("Escape Rope") {
            Some(BoxMonHeldItem::EscapeRope)
        } else if inp == String::from_str("Fluffy Tail") {
            Some(BoxMonHeldItem::FluffyTail)
        } else if inp == String::from_str("Full Heal") {
            Some(BoxMonHeldItem::FullHeal)
        } else if inp == String::from_str("Full Restore") {
            Some(BoxMonHeldItem::FullRestore)
        } else if inp == String::from_str("Great Ball") {
            Some(BoxMonHeldItem::GreatBall)
        } else if inp == String::from_str("Guard Spec.") {
            Some(BoxMonHeldItem::GuardSpec)
        } else if inp == String::from_str("Heal Powder") {
            Some(BoxMonHeldItem::HealPowder)
        } else if inp == String::from_str("Hyper Potion") {
            Some(BoxMonHeldItem::HyperPotion)
        } else if inp == String::from_str("Ice Heal") {
            Some(BoxMonHeldItem::IceHeal)
        } else if inp == String::from_str("Max Potion") {
            Some(BoxMonHeldItem::MaxPotion)
        } else if inp == String::from_str("Max Repel") {
            Some(BoxMonHeldItem::MaxRepel)
        } else if inp == String::from_str("Parlyz Heal") {
            Some(BoxMonHeldItem::ParlyzHeal)
        } else if inp == String::from_str("Poké Ball") {
            Some(BoxMonHeldItem::PokeBall)
        } else if inp == String::from_str("Potion") {
            Some(BoxMonHeldItem::Potion)
        } else if inp == String::from_str("Nest Ball") {
            Some(BoxMonHeldItem::NestBall)
        } else if inp == String::from_str("Repel") {
            Some(BoxMonHeldItem::Repel)
        } else if inp == String::from_str("Revival Herb") {
            Some(BoxMonHeldItem::RevivalHerb)
        } else if inp == String::from_str("Revive") {
            Some(BoxMonHeldItem::Revive)
        } else if inp == String::from_str("Super Potion") {
            Some(BoxMonHeldItem::SuperPotion)
        } else if inp == String::from_str("Super Repel") {
            Some(BoxMonHeldItem::SuperRepel)
        } else if inp == String::from_str("Timer Ball") {
            Some(BoxMonHeldItem::TimerBall)
        } else if inp == String::from_str("X Accuracy") {
            Some(BoxMonHeldItem::XAccuracy)
        } else if inp == String::from_str("X Attack") {
            Some(BoxMonHeldItem::XAttack)
        } else if inp == String::from_str("X Defend") {
            Some(BoxMonHeldItem::XDefend)
        } else if inp == String::from_str("X Special") {
            Some(BoxMonHeldItem::XSpecial)
        } else {
            None
        }
    }
}

} // verus!

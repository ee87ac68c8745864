//! The data record: species, gender, name and held item concatenated
//! into one 68-bit pattern.

use vstd::prelude::*;
use crate::mon_field::{BitCount, FromStringInput, GameSerializer, ToGameValueError,
    FromGameValueError};
use crate::mon_gender::BoxMonGender;
use crate::mon_held_item::BoxMonHeldItem;
use crate::mon_name::{BoxMonName, name_bits, lemma_chars_bits_len};
use crate::mon_species::BoxMonSpecies;
use crate::BoxMonBitVec;
use crate::{bits_to_nat, lemma_bits_to_nat_bound};

verus! {

broadcast use vstd::array::group_array_axioms;

/// One stored creature: the symbolic form of one data record.
#[derive(Debug, Clone, Copy)]
pub struct BoxMon {
    pub species: BoxMonSpecies,
    pub gender: BoxMonGender,
    pub name: BoxMonName,
    pub held_item: BoxMonHeldItem,
}

impl PartialEq for BoxMon {
    fn eq(&self, other: &Self) -> (r: bool) {
        self.species == other.species && self.gender == other.gender && self.name == other.name
            && self.held_item == other.held_item
    }
}

impl Eq for BoxMon {

}

impl vstd::std_specs::cmp::PartialEqSpecImpl for BoxMon {
    open spec fn obeys_eq_spec() -> bool {
        true
    }

    open spec fn eq_spec(&self, other: &BoxMon) -> bool {
        self.species == other.species && self.gender == other.gender && self.name.name@
            == other.name.name@ && self.held_item == other.held_item
    }
}

/// The free-text form of one record, as the recognition boundary hands
/// it over.
#[derive(Debug, Clone)]
pub struct StringsMon {
    pub name: String,
    pub species: String,
    pub gender: String,
    pub item: String,
}

/// Which free-text field failed to resolve to a domain value.
#[derive(Debug)]
pub enum StringMonParseError {
    InvalidSpecies,
    InvalidGender,
    InvalidName(String),
    InvalidItem,
}

/// The 68-bit pattern of a record: species, gender, name and held item
/// in declared order.
pub open spec fn mon_bits(m: BoxMon) -> Seq<bool> {
    m.species.spec_bits() + m.gender.spec_bits() + name_bits(m.name) + m.held_item.spec_bits()
}

impl BitCount for BoxMon {
    open spec fn spec_bit_count() -> usize {
        68
    }

    fn bit_count() -> (r: usize) {
        68
    }
}

pub proof fn lemma_mon_bits_len(m: BoxMon)
    ensures
        mon_bits(m).len() == 68,
        m.species.spec_bits().len() == 2,
        m.gender.spec_bits().len() == 1,
        name_bits(m.name).len() == 60,
        m.held_item.spec_bits().len() == 5,
{
    m.species.lemma_encode_decode();
    m.gender.lemma_encode_decode();
    lemma_chars_bits_len(m.name.name@);
    m.held_item.lemma_encode_decode();
}

/// The field patterns stand at fixed offsets inside the record pattern.
pub proof fn lemma_mon_bits_fields(m: BoxMon)
    ensures
        mon_bits(m).len() == 68,
        mon_bits(m).subrange(0, 2) == m.species.spec_bits(),
        mon_bits(m).subrange(2, 3) == m.gender.spec_bits(),
        mon_bits(m).subrange(3, 63) == name_bits(m.name),
        mon_bits(m).subrange(63, 68) == m.held_item.spec_bits(),
{
    lemma_mon_bits_len(m);
    assert(mon_bits(m).subrange(0, 2) =~= m.species.spec_bits());
    assert(mon_bits(m).subrange(2, 3) =~= m.gender.spec_bits());
    assert(mon_bits(m).subrange(3, 63) =~= name_bits(m.name));
    assert(mon_bits(m).subrange(63, 68) =~= m.held_item.spec_bits());
}

impl GameSerializer for BoxMon {
    open spec fn spec_bits(&self) -> Seq<bool> {
        mon_bits(*self)
    }

    open spec fn spec_decode(s: Seq<bool>) -> Option<BoxMon> {
        if s.len() == 68 {
            match <BoxMonSpecies as GameSerializer>::spec_decode(s.subrange(0, 2)) {
                None => None,
                Some(species) => match <BoxMonGender as GameSerializer>::spec_decode(
                    s.subrange(2, 3),
                ) {
                    None => None,
                    Some(gender) => match <BoxMonName as GameSerializer>::spec_decode(
                        s.subrange(3, 63),
                    ) {
                        None => None,
                        Some(name) => match <BoxMonHeldItem as GameSerializer>::spec_decode(
                            s.subrange(63, 68),
                        ) {
                            None => None,
                            Some(held_item) => Some(BoxMon { species, gender, name, held_item }),
                        },
                    },
                },
            }
        } else {
            None
        }
    }

    proof fn lemma_encode_decode(&self) {
        lemma_mon_bits_fields(*self);
        self.species.lemma_encode_decode();
        self.gender.lemma_encode_decode();
        self.name.lemma_encode_decode();
        self.held_item.lemma_encode_decode();
    }

    proof fn lemma_decode_encode(s: Seq<bool>) {
        match Self::spec_decode(s) {
            Some(v) => {
                <BoxMonSpecies as GameSerializer>::lemma_decode_encode(s.subrange(0, 2));
                <BoxMonGender as GameSerializer>::lemma_decode_encode(s.subrange(2, 3));
                <BoxMonName as GameSerializer>::lemma_decode_encode(s.subrange(3, 63));
                <BoxMonHeldItem as GameSerializer>::lemma_decode_encode(s.subrange(63, 68));
                assert(mon_bits(v) =~= s.subrange(0, 2) + s.subrange(2, 3) + s.subrange(3, 63)
                    + s.subrange(63, 68));
                assert(s.subrange(0, 2) + s.subrange(2, 3) + s.subrange(3, 63) + s.subrange(63, 68)
                    =~= s);
            },
            None => {},
        }
    }

    fn bits_to_game_value(value: &BoxMonBitVec) -> (r: Result<BoxMon, ToGameValueError>) {
        if value.0.len() != 68 {
            return Err(ToGameValueError::BadBitsLength);
        }
        let species = match BoxMonSpecies::bits_to_game_value(&value.chunk(0, 2)) {
            Ok(v) => v,
            Err(err) => {
                return Err(err);
            },
        };
        let gender = match BoxMonGender::bits_to_game_value(&value.chunk(2, 3)) {
            Ok(v) => v,
            Err(err) => {
                return Err(err);
            },
        };
        let name = match BoxMonName::bits_to_game_value(&value.chunk(3, 63)) {
            Ok(v) => v,
            Err(err) => {
                return Err(err);
            },
        };
        let held_item = match BoxMonHeldItem::bits_to_game_value(&value.chunk(63, 68)) {
            Ok(v) => v,
            Err(err) => {
                return Err(err);
            },
        };
        Ok(BoxMon { species, gender, name, held_item })
    }

    fn game_value_to_bits(&self) -> (r: Result<BoxMonBitVec, FromGameValueError>) {
        let mut bits: Vec<bool> = Vec::new();
        let mut part = match self.species.game_value_to_bits() {
            Ok(v) => v,
            Err(err) => {
                return Err(err);
            },
        };
        bits.append(&mut part.0);
        let mut part = match self.gender.game_value_to_bits() {
            Ok(v) => v,
            Err(err) => {
                return Err(err);
            },
        };
        bits.append(&mut part.0);
        let mut part = match self.name.game_value_to_bits() {
            Ok(v) => v,
            Err(err) => {
                return Err(err);
            },
        };
        bits.append(&mut part.0);
        let mut part = match self.held_item.game_value_to_bits() {
            Ok(v) => v,
            Err(err) => {
                return Err(err);
            },
        };
        bits.append(&mut part.0);
        Ok(BoxMonBitVec(bits))
    }
}

/// Every 68-bit pattern decodes: each field domain fills its width.
pub proof fn lemma_mon_decode_total(s: Seq<bool>)
    requires
        s.len() == 68,
    ensures
        <BoxMon as GameSerializer>::spec_decode(s) is Some,
{
    vstd::arithmetic::power2::lemma2_to64();
    lemma_bits_to_nat_bound(s.subrange(0, 2));
    lemma_bits_to_nat_bound(s.subrange(2, 3));
    lemma_bits_to_nat_bound(s.subrange(63, 68));
    let name_slice = s.subrange(3, 63);
    assert(<BoxMonName as GameSerializer>::spec_decode(name_slice) is Some) by {
        crate::mon_name::lemma_name_decode_total(name_slice);
    }
}

impl BoxMon {
    /// Resolves one free-text record to a data record, naming the first
    /// field that fails.
    pub fn try_from_strings_mon(raw: StringsMon) -> (r: Result<Self, StringMonParseError>)
        ensures
            match BoxMonSpecies::spec_from_string(raw.species@) {
                None => r matches Err(StringMonParseError::InvalidSpecies),
                Some(species) => match BoxMonGender::spec_from_string(raw.gender@) {
                    None => r matches Err(StringMonParseError::InvalidGender),
                    Some(gender) => match BoxMonName::spec_from_string(raw.name@) {
                        None => r matches Err(StringMonParseError::InvalidName(n)) && n@
                            == raw.name@,
                        Some(name) => match BoxMonHeldItem::spec_from_string(raw.item@) {
                            None => r matches Err(StringMonParseError::InvalidItem),
                            Some(held_item) => r matches Ok(m) && m == (BoxMon {
                                species,
                                gender,
                                name,
                                held_item,
                            }),
                        },
                    },
                },
            },
    {
        let species = match BoxMonSpecies::try_from_string(raw.species.as_str()) {
            Some(species) => species,
            None => {
                return Err(StringMonParseError::InvalidSpecies);
            },
        };
        let gender = match BoxMonGender::try_from_string(raw.gender.as_str()) {
            Some(gender) => gender,
            None => {
                return Err(StringMonParseError::InvalidGender);
            },
        };
        let name = match BoxMonName::try_from_string(raw.name.as_str()) {
            Some(name) => name,
            None => {
                return Err(StringMonParseError::InvalidName(raw.name));
            },
        };
        let held_item = match BoxMonHeldItem::try_from_string(raw.item.as_str()) {
            Some(held_item) => held_item,
            None => {
                return Err(StringMonParseError::InvalidItem);
            },
        };
        Ok(BoxMon { species, gender, name, held_item })
    }
}


/// Records with equal bit patterns are equal.
pub proof fn lemma_mon_bits_injective(a: BoxMon, b: BoxMon)
    requires
        mon_bits(a) == mon_bits(b),
    ensures
        a == b,
{
    a.lemma_encode_decode();
    b.lemma_encode_decode();
}

/// The record one free-text entry denotes, if every field resolves.
pub open spec fn spec_mon_from_strings(raw: StringsMon) -> Option<BoxMon> {
    match BoxMonSpecies::spec_from_string(raw.species@) {
        None => None,
        Some(species) => match BoxMonGender::spec_from_string(raw.gender@) {
            None => None,
            Some(gender) => match BoxMonName::spec_from_string(raw.name@) {
                None => None,
                Some(name) => match BoxMonHeldItem::spec_from_string(raw.item@) {
                    None => None,
                    Some(held_item) => Some(BoxMon { species, gender, name, held_item }),
                },
            },
        },
    }
}

} // verus!

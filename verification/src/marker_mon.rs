//! The marker record: the inline directory entry written immediately
//! before a file's data run. Its 66 bits carry the file's name, the
//! padding amount of the file's final data record, and the compression
//! flag, packed into the name, held-item and gender fields.

use vstd::prelude::*;
use crate::box_mon::StringsMon;
use crate::mon_field::{BitCount, FromStringInput, GameSerializer, ToGameValueError,
    FromGameValueError};
use crate::mon_gender::BoxMonGender;
use crate::mon_held_item::BoxMonHeldItem;
use crate::mon_name::{BoxMonName, name_bits, lemma_chars_bits_len};
use vstd::string::StringSliceAdditionalSpecFns;
use crate::BoxMonBitVec;
use crate::{bits_to_nat, nat_to_bits, bytes_to_bits, zero_bits, lemma_bits_to_nat_bound,
    lemma_nat_to_bits_len, lemma_bits_to_nat_of_nat, lemma_bytes_to_bits_len};

verus! {

broadcast use vstd::array::group_array_axioms;

/// Bits reserved for the file name: seven whole bytes.
pub const MARKER_NAME_BITS: usize = 56;

/// First bit of the padding-amount field.
pub const MARKER_PADDING_START: usize = 57;

/// One past the last bit of the padding-amount field.
pub const MARKER_PADDING_END: usize = 64;

/// The compression flag's bit.
pub const MARKER_COMPRESSED_BIT: usize = 65;

#[derive(Debug, Clone, Copy)]
pub struct MarkerMon {
    pub gender: BoxMonGender,
    pub name: BoxMonName,
    pub held_item: BoxMonHeldItem,
}

impl PartialEq for MarkerMon {
    fn eq(&self, other: &Self) -> (r: bool) {
        self.gender == other.gender && self.name == other.name && self.held_item
            == other.held_item
    }
}

impl Eq for MarkerMon {

}

impl vstd::std_specs::cmp::PartialEqSpecImpl for MarkerMon {
    open spec fn obeys_eq_spec() -> bool {
        true
    }

    open spec fn eq_spec(&self, other: &MarkerMon) -> bool {
        self.gender == other.gender && self.name.name@ == other.name.name@ && self.held_item
            == other.held_item
    }
}

/// Which free-text field failed to resolve while reading a marker.
#[derive(Debug)]
pub enum StringMonParseError {
    InvalidSpecies,
    InvalidGender,
    InvalidName,
    InvalidItem,
}

/// Failure to build a marker from a directory entry.
#[derive(Debug, Clone, Copy, PartialEq, Eq, Structural)]
pub enum MarkerMonNewError {
    /// The name does not fit in the marker's seven name bytes.
    FilenameTooLong,
    /// The padding amount exceeds the data-record width.
    PaddingTooLarge,
}

/// The 66-bit pattern of a marker: name, held item and gender in that
/// order.
pub open spec fn marker_bits(m: MarkerMon) -> Seq<bool> {
    name_bits(m.name) + m.held_item.spec_bits() + m.gender.spec_bits()
}

/// The padding amount a marker carries.
pub open spec fn marker_padding(m: MarkerMon) -> nat {
    bits_to_nat(marker_bits(m).subrange(MARKER_PADDING_START as int, MARKER_PADDING_END as int))
}

/// The compression flag a marker carries.
pub open spec fn marker_compressed(m: MarkerMon) -> bool {
    marker_bits(m)[MARKER_COMPRESSED_BIT as int]
}

/// The name-field bits a marker carries: seven bytes, zero-padded.
pub open spec fn marker_name_bits(m: MarkerMon) -> Seq<bool> {
    marker_bits(m).subrange(0, MARKER_NAME_BITS as int)
}

impl BitCount for MarkerMon {
    open spec fn spec_bit_count() -> usize {
        66
    }

    fn bit_count() -> (r: usize) {
        66
    }
}

pub proof fn lemma_marker_bits_len(m: MarkerMon)
    ensures
        marker_bits(m).len() == 66,
        name_bits(m.name).len() == 60,
        m.held_item.spec_bits().len() == 5,
        m.gender.spec_bits().len() == 1,
{
    lemma_chars_bits_len(m.name.name@);
    m.held_item.lemma_encode_decode();
    m.gender.lemma_encode_decode();
}

pub proof fn lemma_marker_bits_fields(m: MarkerMon)
    ensures
        marker_bits(m).len() == 66,
        marker_bits(m).subrange(0, 60) == name_bits(m.name),
        marker_bits(m).subrange(60, 65) == m.held_item.spec_bits(),
        marker_bits(m).subrange(65, 66) == m.gender.spec_bits(),
{
    lemma_marker_bits_len(m);
    assert(marker_bits(m).subrange(0, 60) =~= name_bits(m.name));
    assert(marker_bits(m).subrange(60, 65) =~= m.held_item.spec_bits());
    assert(marker_bits(m).subrange(65, 66) =~= m.gender.spec_bits());
}

impl GameSerializer for MarkerMon {
    open spec fn spec_bits(&self) -> Seq<bool> {
        marker_bits(*self)
    }

    open spec fn spec_decode(s: Seq<bool>) -> Option<MarkerMon> {
        if s.len() == 66 {
            match <BoxMonName as GameSerializer>::spec_decode(s.subrange(0, 60)) {
                None => None,
                Some(name) => match <BoxMonHeldItem as GameSerializer>::spec_decode(
                    s.subrange(60, 65),
                ) {
                    None => None,
                    Some(held_item) => match <BoxMonGender as GameSerializer>::spec_decode(
                        s.subrange(65, 66),
                    ) {
                        None => None,
                        Some(gender) => Some(MarkerMon { gender, name, held_item }),
                    },
                },
            }
        } else {
            None
        }
    }

    proof fn lemma_encode_decode(&self) {
        lemma_marker_bits_fields(*self);
        self.name.lemma_encode_decode();
        self.held_item.lemma_encode_decode();
        self.gender.lemma_encode_decode();
    }

    proof fn lemma_decode_encode(s: Seq<bool>) {
        match Self::spec_decode(s) {
            Some(v) => {
                <BoxMonName as GameSerializer>::lemma_decode_encode(s.subrange(0, 60));
                <BoxMonHeldItem as GameSerializer>::lemma_decode_encode(s.subrange(60, 65));
                <BoxMonGender as GameSerializer>::lemma_decode_encode(s.subrange(65, 66));
                assert(marker_bits(v) =~= s.subrange(0, 60) + s.subrange(60, 65) + s.subrange(
                    65,
                    66,
                ));
                assert(s.subrange(0, 60) + s.subrange(60, 65) + s.subrange(65, 66) =~= s);
            },
            None => {},
        }
    }

    fn bits_to_game_value(value: &BoxMonBitVec) -> (r: Result<MarkerMon, ToGameValueError>) {
        if value.0.len() != 66 {
            return Err(ToGameValueError::BadBitsLength);
        }
        let name = match BoxMonName::bits_to_game_value(&value.chunk(0, 60)) {
            Ok(v) => v,
            Err(err) => {
                return Err(err);
            },
        };
        let held_item = match BoxMonHeldItem::bits_to_game_value(&value.chunk(60, 65)) {
            Ok(v) => v,
            Err(err) => {
                return Err(err);
            },
        };
        let gender = match BoxMonGender::bits_to_game_value(&value.chunk(65, 66)) {
            Ok(v) => v,
            Err(err) => {
                return Err(err);
            },
        };
        Ok(MarkerMon { gender, name, held_item })
    }

    fn game_value_to_bits(&self) -> (r: Result<BoxMonBitVec, FromGameValueError>) {
        let mut bits: Vec<bool> = Vec::new();
        let mut part = match self.name.game_value_to_bits() {
            Ok(v) => v,
            Err(err) => {
                return Err(err);
            },
        };
        bits.append(&mut part.0);
        let mut part = match self.held_item.game_value_to_bits() {
            Ok(v) => v,
            Err(err) => {
                return Err(err);
            },
        };
        bits.append(&mut part.0);
        let mut part = match self.gender.game_value_to_bits() {
            Ok(v) => v,
            Err(err) => {
                return Err(err);
            },
        };
        bits.append(&mut part.0);
        Ok(BoxMonBitVec(bits))
    }
}

/// Every 66-bit pattern decodes: each field domain fills its width.
pub proof fn lemma_marker_decode_total(s: Seq<bool>)
    requires
        s.len() == 66,
    ensures
        <MarkerMon as GameSerializer>::spec_decode(s) is Some,
{
    vstd::arithmetic::power2::lemma2_to64();
    crate::mon_name::lemma_name_decode_total(s.subrange(0, 60));
    lemma_bits_to_nat_bound(s.subrange(60, 65));
    lemma_bits_to_nat_bound(s.subrange(65, 66));
}

/// Markers with equal bit patterns are equal.
pub proof fn lemma_marker_bits_injective(a: MarkerMon, b: MarkerMon)
    requires
        marker_bits(a) == marker_bits(b),
    ensures
        a == b,
{
    a.lemma_encode_decode();
    b.lemma_encode_decode();
}

impl MarkerMon {
    /// Builds the marker that opens a file's data run. Fails when the
    /// padding amount exceeds the data-record width or the name does
    /// not fit in seven bytes.
    pub fn new_starter_marker(filename: &str, padding_amount: u8, compressed: bool) -> (r: Result<
        Self,
        MarkerMonNewError,
    >)
        ensures
            match r {
                Ok(m) => {
                    &&& padding_amount <= 68
                    &&& filename.spec_bytes().len() <= 7
                    &&& marker_padding(m) == padding_amount as nat
                    &&& marker_compressed(m) == compressed
                    &&& marker_name_bits(m) == bytes_to_bits(filename.spec_bytes()) + zero_bits(
                        (56 - 8 * filename.spec_bytes().len()) as nat,
                    )
                    &&& marker_bits(m)[56] == false
                    &&& marker_bits(m)[64] == false
                },
                Err(MarkerMonNewError::PaddingTooLarge) => padding_amount > 68,
                Err(MarkerMonNewError::FilenameTooLong) => padding_amount <= 68
                    && filename.spec_bytes().len() > 7,
            },
    {
        if padding_amount > 68 {
            return Err(MarkerMonNewError::PaddingTooLarge);
        }
        let name_bytes = filename.as_bytes_vec();
        let name_bits_vec = BoxMonBitVec::new_from_raw(&name_bytes);
        if name_bits_vec.0.len() > 56 {
            return Err(MarkerMonNewError::FilenameTooLong);
        }
        let nb_len = name_bits_vec.0.len();
        let mut bits: Vec<bool> = Vec::new();
        let mut i: usize = 0;
        while i < nb_len
            invariant
                0 <= i <= nb_len == name_bits_vec@.len() <= 56,
                bits@ =~= name_bits_vec@.take(i as int),
            decreases nb_len - i,
        {
            bits.push(name_bits_vec.0[i]);
            proof {
                assert(name_bits_vec@.take(i as int).push(name_bits_vec@[i as int])
                    =~= name_bits_vec@.take(i + 1));
            }
            i = i + 1;
        }
        proof {
            assert(name_bits_vec@.take(nb_len as int) =~= name_bits_vec@);
        }
        while bits.len() < 56
            invariant
                bits@.len() <= 56,
                nb_len <= bits@.len(),
                bits@.subrange(0, nb_len as int) =~= name_bits_vec@,
                forall|j: int| nb_len <= j < bits@.len() ==> bits@[j] == false,
            decreases 56 - bits@.len(),
        {
            bits.push(false);
        }
        bits.push(false);
        let pad_bits = BoxMonBitVec::new(7, padding_amount as u64);
        proof {
            lemma_nat_to_bits_len(7, padding_amount as nat);
        }
        bits.push(pad_bits.0[0]);
        bits.push(pad_bits.0[1]);
        bits.push(pad_bits.0[2]);
        bits.push(pad_bits.0[3]);
        bits.push(pad_bits.0[4]);
        bits.push(pad_bits.0[5]);
        bits.push(pad_bits.0[6]);
        bits.push(false);
        bits.push(compressed);
        let bv = BoxMonBitVec(bits);
        proof {
            lemma_marker_decode_total(bv@);
            Self::lemma_decode_encode(bv@);
        }
        match Self::bits_to_game_value(&bv) {
            Ok(m) => {
                proof {
                    assert(marker_bits(m) == bv@);
                    assert(marker_bits(m).subrange(57, 64) =~= nat_to_bits(
                        7,
                        padding_amount as nat,
                    ));
                    vstd::arithmetic::power2::lemma2_to64();
                    assert((padding_amount as nat) < vstd::arithmetic::power2::pow2(7));
                    lemma_bits_to_nat_of_nat(7, padding_amount as nat);
                    lemma_bytes_to_bits_len(filename.spec_bytes());
                    assert(marker_name_bits(m) =~= bytes_to_bits(filename.spec_bytes())
                        + zero_bits((56 - 8 * filename.spec_bytes().len()) as nat));
                    assert(marker_bits(m)[56] == false && marker_bits(m)[64] == false);
                }
                Ok(m)
            },
            Err(_) => {
                proof {
                    assert(false);
                }
                Err(MarkerMonNewError::FilenameTooLong)
            },
        }
    }

    /// The padding amount stored in this marker's bits.
    pub fn padding_amount(&self) -> (r: u8)
        ensures
            r as nat == marker_padding(*self),
            r < 128,
    {
        let bits = match self.game_value_to_bits() {
            Ok(b) => b,
            Err(_) => {
                proof {
                    assert(false);
                }
                BoxMonBitVec(Vec::new())
            },
        };
        proof {
            lemma_marker_bits_len(*self);
            lemma_bits_to_nat_bound(bits@.subrange(57, 64));
            vstd::arithmetic::power2::lemma2_to64();
        }
        let field = bits.chunk(57, 64);
        field.as_u8()
    }

    /// The compression flag stored in this marker's bits.
    pub fn is_compressed(&self) -> (r: bool)
        ensures
            r == marker_compressed(*self),
    {
        let bits = match self.game_value_to_bits() {
            Ok(b) => b,
            Err(_) => {
                proof {
                    assert(false);
                }
                BoxMonBitVec(Vec::new())
            },
        };
        proof {
            lemma_marker_bits_len(*self);
        }
        bits.0[65]
    }

    /// The name field as bytes: seven bytes, zero-padded at the end.
    pub fn name_field_bytes(&self) -> (r: Vec<u8>)
        ensures
            r@ == crate::bits_to_bytes(marker_name_bits(*self)),
            r@.len() == 7,
    {
        let bits = match self.game_value_to_bits() {
            Ok(b) => b,
            Err(_) => {
                proof {
                    assert(false);
                }
                BoxMonBitVec(Vec::new())
            },
        };
        proof {
            lemma_marker_bits_len(*self);
        }
        let field = bits.chunk(0, 56);
        let r = field.to_raw();
        proof {
            crate::lemma_bits_to_bytes_len(field@);
        }
        r
    }

    /// Resolves one free-text record to a marker, naming the first
    /// field that fails.
    pub fn try_from_strings_mon(raw: StringsMon) -> (r: Result<Self, StringMonParseError>)
        ensures
            match BoxMonName::spec_from_string(raw.name@) {
                None => r matches Err(StringMonParseError::InvalidName),
                Some(name) => match BoxMonHeldItem::spec_from_string(raw.item@) {
                    None => r matches Err(StringMonParseError::InvalidItem),
                    Some(held_item) => match BoxMonGender::spec_from_string(raw.gender@) {
                        None => r matches Err(StringMonParseError::InvalidGender),
                        Some(gender) => r matches Ok(m) && m == (MarkerMon {
                            gender,
                            name,
                            held_item,
                        }),
                    },
                },
            },
    {
        let name = match BoxMonName::try_from_string(raw.name.as_str()) {
            Some(name) => name,
            None => {
                return Err(StringMonParseError::InvalidName);
            },
        };
        let held_item = match BoxMonHeldItem::try_from_string(raw.item.as_str()) {
            Some(held_item) => held_item,
            None => {
                return Err(StringMonParseError::InvalidItem);
            },
        };
        let gender = match BoxMonGender::try_from_string(raw.gender.as_str()) {
            Some(gender) => gender,
            None => {
                return Err(StringMonParseError::InvalidGender);
            },
        };
        Ok(MarkerMon { gender, name, held_item })
    }
}

} // verus!

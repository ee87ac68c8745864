//! The field-level codec interfaces: every record field belongs to a
//! domain of statically known cardinality and is stored in the minimal
//! fixed bit width for that cardinality.

use vstd::prelude::*;
use vstd::arithmetic::power2::pow2;
use crate::BoxMonBitVec;
use crate::{bits_to_nat, nat_to_bits};
use crate::{lemma_bits_to_nat_bound, lemma_bits_to_nat_of_nat, lemma_nat_to_bits_len,
    lemma_nat_to_bits_of_bits};

verus! {

/// Decoding failures: the bit slice has the wrong length for the target
/// domain, or its value exceeds the largest valid ordinal.
#[derive(Debug, Clone, Copy, PartialEq, Eq, Structural)]
pub enum ToGameValueError {
    BadBitsLength,
    BitsValueOutOfRange,
}

/// Encoding failures, carrying the offending size.
#[derive(Debug, Clone, Copy, PartialEq, Eq, Structural)]
pub enum FromGameValueError {
    BadSize(usize),
}

/// A type whose values occupy a fixed number of bits.
pub trait BitCount {
    spec fn spec_bit_count() -> usize;

    fn bit_count() -> (r: usize)
        ensures
            r == Self::spec_bit_count(),
    ;
}

/// Whole bytes that fit in the bit width.
pub trait ByteCount {
    spec fn spec_byte_count() -> usize;

    fn byte_count() -> (r: usize)
        ensures
            r == Self::spec_byte_count(),
    ;
}

impl<T: BitCount> ByteCount for T {
    open spec fn spec_byte_count() -> usize {
        (Self::spec_bit_count() / 8) as usize
    }

    fn byte_count() -> (r: usize) {
        T::bit_count() / 8
    }
}

/// How many distinct bit patterns the width of a type offers.
pub trait PossibleValues {
    spec fn spec_possible_values() -> nat;

    fn possible_values() -> (r: usize)
        requires
            Self::spec_possible_values() <= u32::MAX as nat,
        ensures
            r as nat == Self::spec_possible_values(),
    ;
}

impl<T: BitCount> PossibleValues for T {
    open spec fn spec_possible_values() -> nat {
        pow2(Self::spec_bit_count() as nat)
    }

    fn possible_values() -> (r: usize) {
        let w = T::bit_count();
        let mut r: usize = 1;
        let mut i: usize = 0;
        proof {
            vstd::arithmetic::power2::lemma2_to64();
            if Self::spec_bit_count() as nat > 32 {
                vstd::arithmetic::power2::lemma_pow2_strictly_increases(
                    32,
                    Self::spec_bit_count() as nat,
                );
            }
        }
        while i < w
            invariant
                0 <= i <= w,
                w == Self::spec_bit_count(),
                pow2(w as nat) <= u32::MAX as nat,
                r as nat == pow2(i as nat),
            decreases w - i,
        {
            proof {
                vstd::arithmetic::power2::lemma_pow2_unfold((i + 1) as nat);
                if i + 1 < w as nat {
                    vstd::arithmetic::power2::lemma_pow2_strictly_increases(
                        (i + 1) as nat,
                        w as nat,
                    );
                }
            }
            r = r * 2;
            i = i + 1;
        }
        r
    }
}

/// A domain value identified by its ordinal: a dense range of `u8`
/// ordinals starting at 0, one per value.
pub trait FromRepresentation: BitCount + Sized + Copy {
    /// The ordinal of this value.
    spec fn spec_ord(&self) -> u8;

    /// The value of an ordinal, if the ordinal is in range.
    spec fn spec_from(repr: u8) -> Option<Self>;

    /// Ordinals are in range and `spec_from` inverts `spec_ord`.
    proof fn lemma_ord_bound(&self)
        ensures
            (self.spec_ord() as nat) < pow2(Self::spec_bit_count() as nat),
            Self::spec_from(self.spec_ord()) == Some(*self),
    ;

    /// `spec_from` succeeds exactly on the ordinals the width can hold,
    /// and `spec_ord` inverts it there.
    proof fn lemma_from_total(repr: u8)
        ensures
            (repr as nat) < pow2(Self::spec_bit_count() as nat) ==> match Self::spec_from(repr) {
                Some(v) => v.spec_ord() == repr,
                None => false,
            },
            (repr as nat) >= pow2(Self::spec_bit_count() as nat) ==> Self::spec_from(repr) is None,
    ;

    /// Ordinals fit in one byte.
    proof fn lemma_width_le_8()
        ensures
            Self::spec_bit_count() <= 8,
    ;

    fn from_repr(repr: u8) -> (r: Option<Self>)
        ensures
            r == Self::spec_from(repr),
    ;

    fn to_u8(&self) -> (r: u8)
        ensures
            r == self.spec_ord(),
    ;
}

/// Parsing a domain value from the free-text form the ingestion boundary
/// hands over.
pub trait FromStringInput: Sized {
    spec fn spec_from_string(s: Seq<char>) -> Option<Self>;

    fn try_from_string(input: &str) -> (r: Option<Self>)
        ensures
            r == Self::spec_from_string(input@),
    ;
}

/// The bijection between a domain value and its fixed-width bit pattern.
pub trait GameSerializer: BitCount + Sized {
    /// The canonical bit pattern of this value.
    spec fn spec_bits(&self) -> Seq<bool>;

    /// The value a bit pattern of the right width denotes, if any.
    spec fn spec_decode(s: Seq<bool>) -> Option<Self>;

    /// Encoding yields a full-width pattern that decodes back to the value.
    proof fn lemma_encode_decode(&self)
        ensures
            self.spec_bits().len() == Self::spec_bit_count(),
            Self::spec_decode(self.spec_bits()) == Some(*self),
    ;

    /// Whatever a full-width pattern decodes to encodes back to that pattern.
    proof fn lemma_decode_encode(s: Seq<bool>)
        requires
            s.len() == Self::spec_bit_count(),
        ensures
            match Self::spec_decode(s) {
                Some(v) => v.spec_bits() == s,
                None => true,
            },
    ;

    fn bits_to_game_value(value: &BoxMonBitVec) -> (r: Result<Self, ToGameValueError>)
        ensures
            value@.len() != Self::spec_bit_count() ==> r == Err::<Self, ToGameValueError>(
                ToGameValueError::BadBitsLength,
            ),
            value@.len() == Self::spec_bit_count() ==> match Self::spec_decode(value@) {
                Some(v) => r == Ok::<Self, ToGameValueError>(v),
                None => r == Err::<Self, ToGameValueError>(ToGameValueError::BitsValueOutOfRange),
            },
    ;

    fn game_value_to_bits(&self) -> (r: Result<BoxMonBitVec, FromGameValueError>)
        ensures
            match r {
                Ok(b) => b@ == self.spec_bits(),
                Err(_) => false,
            },
    ;
}

/// Two ordinal-backed domain values with the same bit pattern are the
/// same value: each domain codec is injective.
pub proof fn lemma_repr_bits_injective<T: FromRepresentation>(a: T, b: T)
    requires
        a.spec_bits() == b.spec_bits(),
    ensures
        a == b,
{
    a.lemma_ord_bound();
    b.lemma_ord_bound();
    lemma_bits_to_nat_of_nat(T::spec_bit_count() as nat, a.spec_ord() as nat);
    lemma_bits_to_nat_of_nat(T::spec_bit_count() as nat, b.spec_ord() as nat);
    assert(a.spec_ord() == b.spec_ord());
    assert(T::spec_from(a.spec_ord()) == Some(a));
}

impl<T: FromRepresentation> GameSerializer for T {
    open spec fn spec_bits(&self) -> Seq<bool> {
        nat_to_bits(Self::spec_bit_count() as nat, self.spec_ord() as nat)
    }

    open spec fn spec_decode(s: Seq<bool>) -> Option<T> {
        if s.len() == Self::spec_bit_count() {
            Self::spec_from(bits_to_nat(s) as u8)
        } else {
            None
        }
    }

    proof fn lemma_encode_decode(&self) {
        Self::lemma_width_le_8();
        self.lemma_ord_bound();
        lemma_nat_to_bits_len(Self::spec_bit_count() as nat, self.spec_ord() as nat);
        lemma_bits_to_nat_of_nat(Self::spec_bit_count() as nat, self.spec_ord() as nat);
    }

    proof fn lemma_decode_encode(s: Seq<bool>) {
        Self::lemma_width_le_8();
        lemma_bits_to_nat_bound(s);
        let x = bits_to_nat(s);
        assert(pow2(8) == 256) by {
            vstd::arithmetic::power2::lemma2_to64();
        }
        if Self::spec_bit_count() < 8 {
            vstd::arithmetic::power2::lemma_pow2_strictly_increases(
                Self::spec_bit_count() as nat,
                8,
            );
        }
        assert(x < 256);
        Self::lemma_from_total(x as u8);
        match Self::spec_decode(s) {
            Some(v) => {
                assert(v.spec_ord() == x as u8);
                lemma_nat_to_bits_of_bits(s);
            },
            None => {},
        }
    }

    fn bits_to_game_value(value: &BoxMonBitVec) -> (r: Result<T, ToGameValueError>) {
        proof {
            Self::lemma_width_le_8();
        }
        if value.0.len() != T::bit_count() {
            return Err(ToGameValueError::BadBitsLength);
        }
        let x = value.as_u8();
        proof {
            lemma_bits_to_nat_bound(value@);
        }
        match Self::from_repr(x) {
            Some(v) => Ok(v),
            None => Err(ToGameValueError::BitsValueOutOfRange),
        }
    }

    fn game_value_to_bits(&self) -> (r: Result<BoxMonBitVec, FromGameValueError>) {
        proof {
            Self::lemma_width_le_8();
        }
        let v = self.to_u8();
        Ok(BoxMonBitVec::new(T::bit_count(), v as u64))
    }
}

} // verus!

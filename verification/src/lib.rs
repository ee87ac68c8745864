//! Encoding of arbitrary byte payloads into fixed-capacity arrays of
//! fixed-width symbolic records, as used by a handheld game's storage boxes.
//!
//! The crate root holds the bit buffer: an arbitrary-length bit sequence
//! with byte packing, slicing and numeric extraction. Everything else is
//! built on it: domain codecs for the record fields, composite record
//! codecs, the slot store with its stream writer and reader, and the
//! marker-based inline file directory.

pub mod box_mon;
pub mod file_pc;
pub mod marker_mon;
pub mod mon_captured_ball;
pub mod mon_field;
pub mod mon_gender;
pub mod mon_held_item;
pub mod mon_name;
pub mod mon_species;
pub mod pc;
pub mod store;

use vstd::prelude::*;
use vstd::arithmetic::power2::{pow2, lemma_pow2_unfold, lemma_pow2_pos};

verus! {

/// Value of a bit sequence read least-significant-bit first.
pub open spec fn bits_to_nat(s: Seq<bool>) -> nat
    decreases s.len(),
{
    if s.len() == 0 {
        0
    } else {
        (if s[0] {
            1nat
        } else {
            0nat
        }) + 2 * bits_to_nat(s.skip(1))
    }
}

/// The `w` low bits of `v`, least-significant-bit first.
pub open spec fn nat_to_bits(w: nat, v: nat) -> Seq<bool>
    decreases w,
{
    if w == 0 {
        Seq::empty()
    } else {
        seq![v % 2 == 1] + nat_to_bits((w - 1) as nat, v / 2)
    }
}

/// The 8 bits of one byte, least-significant-bit first.
pub open spec fn byte_bits(b: u8) -> Seq<bool> {
    nat_to_bits(8, b as nat)
}

/// A byte sequence as one bit sequence, 8 bits per byte.
pub open spec fn bytes_to_bits(bs: Seq<u8>) -> Seq<bool>
    decreases bs.len(),
{
    if bs.len() == 0 {
        Seq::empty()
    } else {
        byte_bits(bs[0]) + bytes_to_bits(bs.skip(1))
    }
}

/// A bit sequence packed into bytes; an incomplete trailing byte is
/// zero-padded in its high bits.
pub open spec fn bits_to_bytes(s: Seq<bool>) -> Seq<u8>
    decreases s.len(),
{
    if s.len() == 0 {
        Seq::empty()
    } else if s.len() < 8 {
        seq![bits_to_nat(s) as u8]
    } else {
        seq![bits_to_nat(s.take(8)) as u8] + bits_to_bytes(s.skip(8))
    }
}

pub proof fn lemma_nat_to_bits_len(w: nat, v: nat)
    ensures
        nat_to_bits(w, v).len() == w,
    decreases w,
{
    if w > 0 {
        lemma_nat_to_bits_len((w - 1) as nat, v / 2);
    }
}

pub proof fn lemma_bits_to_nat_bound(s: Seq<bool>)
    ensures
        bits_to_nat(s) < pow2(s.len()),
    decreases s.len(),
{
    if s.len() == 0 {
        assert(pow2(0) == 1) by {
            lemma_pow2_unfold(1);
            lemma_pow2_pos(0);
            vstd::arithmetic::power2::lemma2_to64();
        }
    } else {
        lemma_bits_to_nat_bound(s.skip(1));
        lemma_pow2_unfold(s.len());
    }
}

pub proof fn lemma_bits_to_nat_of_nat(w: nat, v: nat)
    requires
        v < pow2(w),
    ensures
        bits_to_nat(nat_to_bits(w, v)) == v,
    decreases w,
{
    lemma_nat_to_bits_len(w, v);
    if w == 0 {
        assert(pow2(0) == 1) by {
            vstd::arithmetic::power2::lemma2_to64();
        }
    } else {
        lemma_pow2_unfold(w);
        lemma_bits_to_nat_of_nat((w - 1) as nat, v / 2);
        let s = nat_to_bits(w, v);
        assert(s.skip(1) =~= nat_to_bits((w - 1) as nat, v / 2));
    }
}

pub proof fn lemma_nat_to_bits_of_bits(s: Seq<bool>)
    ensures
        nat_to_bits(s.len(), bits_to_nat(s)) =~= s,
    decreases s.len(),
{
    if s.len() > 0 {
        lemma_nat_to_bits_of_bits(s.skip(1));
        let v = bits_to_nat(s);
        assert(v % 2 == (if s[0] { 1nat } else { 0nat }));
        assert(v / 2 == bits_to_nat(s.skip(1)));
        assert(nat_to_bits(s.len(), v) =~= seq![v % 2 == 1] + nat_to_bits((s.len() - 1) as nat, v / 2));
    }
}

pub proof fn lemma_bits_to_nat_push(s: Seq<bool>, b: bool)
    ensures
        bits_to_nat(s.push(b)) == bits_to_nat(s) + (if b {
            pow2(s.len())
        } else {
            0nat
        }),
    decreases s.len(),
{
    if s.len() == 0 {
        assert(s.push(b) =~= seq![b]);
        assert(seq![b].skip(1) =~= Seq::<bool>::empty());
        assert(bits_to_nat(Seq::<bool>::empty()) == 0);
        assert(bits_to_nat(seq![b]) == (if b {
            1nat
        } else {
            0nat
        }) + 2 * bits_to_nat(seq![b].skip(1)));
        assert(pow2(0) == 1) by {
            vstd::arithmetic::power2::lemma2_to64();
        }
    } else {
        assert(s.push(b)[0] == s[0]);
        assert(s.push(b).skip(1) =~= s.skip(1).push(b));
        lemma_bits_to_nat_push(s.skip(1), b);
        lemma_pow2_unfold(s.len());
        assert(bits_to_nat(s) == (if s[0] {
            1nat
        } else {
            0nat
        }) + 2 * bits_to_nat(s.skip(1)));
        assert(bits_to_nat(s.push(b)) == (if s[0] {
            1nat
        } else {
            0nat
        }) + 2 * bits_to_nat(s.skip(1).push(b)));
        assert(bits_to_nat(s.skip(1).push(b)) == bits_to_nat(s.skip(1)) + (if b {
            pow2((s.len() - 1) as nat)
        } else {
            0nat
        }));
    }
}

pub proof fn lemma_bits_to_nat_concat(a: Seq<bool>, b: Seq<bool>)
    ensures
        bits_to_nat(a + b) == bits_to_nat(a) + pow2(a.len()) * bits_to_nat(b),
    decreases a.len(),
{
    if a.len() == 0 {
        assert(a + b =~= b);
        assert(pow2(0) == 1) by {
            vstd::arithmetic::power2::lemma2_to64();
        }
    } else {
        assert((a + b)[0] == a[0]);
        assert((a + b).skip(1) =~= a.skip(1) + b);
        lemma_bits_to_nat_concat(a.skip(1), b);
        lemma_pow2_unfold(a.len());
        assert(pow2(a.len()) == 2 * pow2((a.len() - 1) as nat));
        assert(bits_to_nat(a + b) == (if a[0] { 1nat } else { 0nat }) + 2 * (bits_to_nat(a.skip(1))
            + pow2((a.len() - 1) as nat) * bits_to_nat(b)));
        assert(2 * (pow2((a.len() - 1) as nat) * bits_to_nat(b)) == (2 * pow2(
            (a.len() - 1) as nat,
        )) * bits_to_nat(b)) by (nonlinear_arith);
    }
}

/// A run of `n` zero bits.
pub open spec fn zero_bits(n: nat) -> Seq<bool> {
    Seq::new(n, |i: int| false)
}

pub proof fn lemma_bytes_to_bits_len(bs: Seq<u8>)
    ensures
        bytes_to_bits(bs).len() == 8 * bs.len(),
    decreases bs.len(),
{
    if bs.len() > 0 {
        lemma_nat_to_bits_len(8, bs[0] as nat);
        lemma_bytes_to_bits_len(bs.skip(1));
    }
}

pub proof fn lemma_bytes_to_bits_push(bs: Seq<u8>, b: u8)
    ensures
        bytes_to_bits(bs.push(b)) =~= bytes_to_bits(bs) + byte_bits(b),
    decreases bs.len(),
{
    if bs.len() == 0 {
        assert(bs.push(b) =~= seq![b]);
        assert(seq![b].skip(1) =~= Seq::<u8>::empty());
        assert(bytes_to_bits(seq![b]) == byte_bits(b) + bytes_to_bits(Seq::<u8>::empty()));
        assert(byte_bits(b) + Seq::<bool>::empty() =~= byte_bits(b));
        assert(bytes_to_bits(bs) + byte_bits(b) =~= byte_bits(b));
    } else {
        assert(bs.push(b)[0] == bs[0]);
        assert(bs.push(b).skip(1) =~= bs.skip(1).push(b));
        lemma_bytes_to_bits_push(bs.skip(1), b);
        assert(bytes_to_bits(bs.push(b)) == byte_bits(bs[0]) + bytes_to_bits(bs.skip(1).push(b)));
        assert(byte_bits(bs[0]) + (bytes_to_bits(bs.skip(1)) + byte_bits(b)) =~= (byte_bits(bs[0])
            + bytes_to_bits(bs.skip(1))) + byte_bits(b));
    }
}

pub proof fn lemma_bytes_to_bits_concat(a: Seq<u8>, b: Seq<u8>)
    ensures
        bytes_to_bits(a + b) =~= bytes_to_bits(a) + bytes_to_bits(b),
    decreases a.len(),
{
    if a.len() == 0 {
        assert(a + b =~= b);
    } else {
        assert((a + b)[0] == a[0]);
        assert((a + b).skip(1) =~= a.skip(1) + b);
        lemma_bytes_to_bits_concat(a.skip(1), b);
        assert(bytes_to_bits(a + b) =~= byte_bits(a[0]) + (bytes_to_bits(a.skip(1)) + bytes_to_bits(
            b,
        )));
        assert(byte_bits(a[0]) + (bytes_to_bits(a.skip(1)) + bytes_to_bits(b)) =~= (byte_bits(a[0])
            + bytes_to_bits(a.skip(1))) + bytes_to_bits(b));
    }
}

/// Packing the bits of a byte sequence recovers the bytes exactly.
pub proof fn lemma_bits_to_bytes_of_bytes(bs: Seq<u8>)
    ensures
        bits_to_bytes(bytes_to_bits(bs)) =~= bs,
    decreases bs.len(),
{
    if bs.len() > 0 {
        let s = bytes_to_bits(bs);
        lemma_bytes_to_bits_len(bs);
        lemma_nat_to_bits_len(8, bs[0] as nat);
        assert(s.take(8) =~= byte_bits(bs[0]));
        assert(s.skip(8) =~= bytes_to_bits(bs.skip(1)));
        vstd::arithmetic::power2::lemma2_to64();
        lemma_bits_to_nat_of_nat(8, bs[0] as nat);
        lemma_bits_to_bytes_of_bytes(bs.skip(1));
    }
}

/// Unpacking the bytes of a byte-aligned bit sequence recovers the bits.
pub proof fn lemma_bytes_of_bits_aligned(s: Seq<bool>)
    requires
        s.len() % 8 == 0,
    ensures
        bytes_to_bits(bits_to_bytes(s)) =~= s,
    decreases s.len(),
{
    if s.len() > 0 {
        assert(s.len() >= 8);
        let first = bits_to_nat(s.take(8)) as u8;
        assert(s.take(8).len() == 8);
        lemma_bits_to_nat_bound(s.take(8));
        assert(pow2(8) == 256) by {
            vstd::arithmetic::power2::lemma2_to64();
        }
        assert(first as nat == bits_to_nat(s.take(8)));
        lemma_nat_to_bits_of_bits(s.take(8));
        assert(byte_bits(first) =~= s.take(8));
        assert(s.skip(8).len() % 8 == 0);
        lemma_bytes_of_bits_aligned(s.skip(8));
        assert(bits_to_bytes(s) =~= seq![first] + bits_to_bytes(s.skip(8)));
        assert(bytes_to_bits(seq![first] + bits_to_bytes(s.skip(8))) =~= byte_bits(first)
            + bytes_to_bits(bits_to_bytes(s.skip(8)))) by {
            lemma_bytes_to_bits_concat(seq![first], bits_to_bytes(s.skip(8)));
            assert(seq![first].skip(1) =~= Seq::<u8>::empty());
            assert(bytes_to_bits(seq![first]) == byte_bits(first) + bytes_to_bits(
                Seq::<u8>::empty(),
            ));
            assert(byte_bits(first) + Seq::<bool>::empty() =~= byte_bits(first));
        }
        assert(byte_bits(first) + s.skip(8) =~= s);
    }
}

pub proof fn lemma_bits_to_bytes_len(s: Seq<bool>)
    ensures
        bits_to_bytes(s).len() == (s.len() + 7) / 8,
    decreases s.len(),
{
    if s.len() >= 8 {
        lemma_bits_to_bytes_len(s.skip(8));
    }
}

/// An arbitrary-length bit sequence: the transient form every record and
/// payload passes through while being packed or unpacked.
#[derive(Debug, Clone)]
pub struct BoxMonBitVec(pub Vec<bool>);

impl View for BoxMonBitVec {
    type V = Seq<bool>;

    open spec fn view(&self) -> Seq<bool> {
        self.0@
    }
}

impl PartialEq for BoxMonBitVec {
    fn eq(&self, other: &Self) -> (r: bool) {
        let mut i: usize = 0;
        if self.0.len() != other.0.len() {
            return false;
        }
        while i < self.0.len()
            invariant
                0 <= i <= self.0.len(),
                self.0.len() == other.0.len(),
                forall|j: int| 0 <= j < i ==> self.0@[j] == other.0@[j],
            decreases self.0.len() - i,
        {
            if self.0[i] != other.0[i] {
                return false;
            }
            i = i + 1;
        }
        proof {
            assert(self@ =~= other@);
        }
        true
    }
}

impl Eq for BoxMonBitVec {

}

impl vstd::std_specs::cmp::PartialEqSpecImpl for BoxMonBitVec {
    open spec fn obeys_eq_spec() -> bool {
        true
    }

    open spec fn eq_spec(&self, other: &BoxMonBitVec) -> bool {
        self@ == other@
    }
}

impl Default for BoxMonBitVec {
    fn default() -> (r: Self)
        ensures
            r@ == Seq::<bool>::empty(),
    {
        BoxMonBitVec(Vec::new())
    }
}

impl BoxMonBitVec {
    /// The `size` low bits of `value`, least-significant-bit first.
    pub fn new(size: usize, value: u64) -> (r: BoxMonBitVec)
        requires
            size <= 64,
        ensures
            r@ == nat_to_bits(size as nat, value as nat),
    {
        let mut bit_vec: Vec<bool> = Vec::new();
        let mut v: u64 = value;
        let mut i: usize = 0;
        proof {
            lemma_nat_to_bits_len(size as nat, value as nat);
        }
        while i < size
            invariant
                0 <= i <= size,
                bit_vec@.len() == i,
                v as nat == shifted_down(value as nat, i as nat),
                bit_vec@ =~= nat_to_bits(size as nat, value as nat).take(i as int),
            decreases size - i,
        {
            proof {
                lemma_nat_to_bits_take(size as nat, value as nat, i as nat);
            }
            bit_vec.push(v % 2 == 1);
            v = v / 2;
            i = i + 1;
        }
        proof {
            assert(bit_vec@ =~= nat_to_bits(size as nat, value as nat));
        }
        BoxMonBitVec(bit_vec)
    }

    /// Exact bit expansion of a byte payload, 8 bits per byte.
    pub fn new_from_raw(raw: &Vec<u8>) -> (r: BoxMonBitVec)
        ensures
            r@ == bytes_to_bits(raw@),
            r@.len() == 8 * raw@.len(),
    {
        let mut x: Vec<bool> = Vec::new();
        let mut i: usize = 0;
        proof {
            lemma_bytes_to_bits_len(raw@);
        }
        while i < raw.len()
            invariant
                0 <= i <= raw@.len(),
                x@ =~= bytes_to_bits(raw@.take(i as int)),
                x@.len() == 8 * i,
            decreases raw@.len() - i,
        {
            let byte = raw[i];
            let bits = BoxMonBitVec::new(8, byte as u64);
            let mut j: usize = 0;
            proof {
                lemma_nat_to_bits_len(8, byte as nat);
            }
            while j < 8
                invariant
                    0 <= j <= 8,
                    bits@ == byte_bits(byte),
                    bits@.len() == 8,
                    x@ =~= bytes_to_bits(raw@.take(i as int)) + byte_bits(byte).take(j as int),
                decreases 8 - j,
            {
                x.push(bits.0[j]);
                proof {
                    assert(byte_bits(byte).take(j + 1) =~= byte_bits(byte).take(j as int).push(
                        byte_bits(byte)[j as int],
                    ));
                }
                j = j + 1;
            }
            proof {
                assert(byte_bits(byte).take(8) =~= byte_bits(byte));
                lemma_bytes_to_bits_push(raw@.take(i as int), byte);
                assert(raw@.take(i as int).push(byte) =~= raw@.take(i + 1));
            }
            i = i + 1;
        }
        proof {
            assert(raw@.take(raw@.len() as int) =~= raw@);
            lemma_bytes_to_bits_len(raw@);
        }
        BoxMonBitVec(x)
    }

    /// Packs the bits into bytes; an incomplete trailing byte is
    /// zero-padded in its high bits.
    pub fn to_raw(&self) -> (r: Vec<u8>)
        ensures
            r@ == bits_to_bytes(self@),
    {
        let mut raw: Vec<u8> = Vec::new();
        let mut i: usize = 0;
        while i < self.0.len()
            invariant
                0 <= i <= self.0.len(),
                i % 8 == 0 || i == self.0.len(),
                raw@ =~= bits_to_bytes(self@.take(i as int)),
            decreases self.0.len() - i,
        {
            let mut byte: u8 = 0;
            let mut p: u8 = 1;
            let mut bit: usize = 0;
            let end: usize = if self.0.len() - i < 8 {
                self.0.len() - i
            } else {
                8
            };
            proof {
                vstd::arithmetic::power2::lemma2_to64();
            }
            while bit < end
                invariant
                    0 <= bit <= end <= 8,
                    i + end <= self.0.len(),
                    bit < 8 ==> p as nat == pow2(bit as nat),
                    byte as nat == bits_to_nat(self@.subrange(i as int, i + bit)),
                    (byte as nat) < pow2(bit as nat),
                decreases end - bit,
            {
                proof {
                    lemma_bits_to_nat_push(self@.subrange(i as int, i + bit), self@[i + bit]);
                    assert(self@.subrange(i as int, i + bit).push(self@[i + bit]) =~= self@
                        .subrange(i as int, i + bit + 1));
                    lemma_pow2_unfold((bit + 1) as nat);
                    vstd::arithmetic::power2::lemma2_to64();
                }
                if self.0[i + bit] {
                    byte = byte + p;
                }
                if bit < 7 {
                    p = p * 2;
                }
                bit = bit + 1;
            }
            raw.push(byte);
            proof {
                let sub = self@.subrange(i as int, (i + end) as int);
                lemma_bits_to_bytes_split(self@.take(i as int), sub);
                assert(self@.take(i as int) + sub =~= self@.take((i + end) as int));
                if end == 8 {
                    assert(sub.take(8) =~= sub);
                    assert(sub.skip(8) =~= Seq::<bool>::empty());
                    assert(bits_to_bytes(sub) == seq![bits_to_nat(sub.take(8)) as u8]
                        + bits_to_bytes(sub.skip(8)));
                    assert(seq![byte] + Seq::<u8>::empty() =~= seq![byte]);
                    assert(bits_to_bytes(sub) =~= seq![byte]);
                } else {
                    assert(bits_to_bytes(sub) =~= seq![byte]);
                }
                assert(bits_to_bytes(self@.take(i as int)) + seq![byte] =~= bits_to_bytes(
                    self@.take(i as int),
                ).push(byte));
            }
            i = i + end;
        }
        proof {
            assert(self@.take(self@.len() as int) =~= self@);
        }
        raw
    }

    /// The sub-sequence of bits from `start` (inclusive) to `end` (exclusive).
    pub fn chunk(&self, start: usize, end: usize) -> (r: BoxMonBitVec)
        requires
            start <= end <= self@.len(),
        ensures
            r@ == self@.subrange(start as int, end as int),
    {
        let mut v: Vec<bool> = Vec::new();
        let mut i: usize = start;
        while i < end
            invariant
                start <= i <= end <= self@.len(),
                v@ =~= self@.subrange(start as int, i as int),
            decreases end - i,
        {
            v.push(self.0[i]);
            proof {
                assert(self@.subrange(start as int, i as int).push(self@[i as int]) =~= self@
                    .subrange(start as int, i + 1));
            }
            i = i + 1;
        }
        BoxMonBitVec(v)
    }

    /// The numeric value of a bit sequence of at most 8 bits.
    pub fn as_u8(&self) -> (r: u8)
        requires
            self@.len() <= 8,
        ensures
            r as nat == bits_to_nat(self@),
    {
        proof {
            lemma_bits_to_nat_bound(self@);
            vstd::arithmetic::power2::lemma2_to64();
            if self@.len() < 8 {
                vstd::arithmetic::power2::lemma_pow2_strictly_increases(self@.len(), 8);
            }
        }
        self.as_u64() as u8
    }

    /// The numeric value of a bit sequence of at most 64 bits.
    pub fn as_u64(&self) -> (r: u64)
        requires
            self@.len() <= 64,
        ensures
            r as nat == bits_to_nat(self@),
    {
        let mut result: u64 = 0;
        let mut p: u64 = 1;
        let mut i: usize = 0;
        proof {
            lemma_bits_to_nat_bound(self@);
            vstd::arithmetic::power2::lemma2_to64();
        }
        while i < self.0.len()
            invariant
                0 <= i <= self@.len() <= 64,
                i < 64 ==> p as nat == pow2(i as nat),
                result as nat == bits_to_nat(self@.take(i as int)),
                (result as nat) < pow2(i as nat),
            decreases self@.len() - i,
        {
            proof {
                lemma_bits_to_nat_push(self@.take(i as int), self@[i as int]);
                assert(self@.take(i as int).push(self@[i as int]) =~= self@.take(i + 1));
                lemma_pow2_unfold((i + 1) as nat);
                lemma_pow2_fits_u64_le((i + 1) as nat);
                if i + 1 < 64 {
                    lemma_pow2_fits_u64((i + 1) as nat);
                }
                assert((result as nat) + (p as nat) < pow2((i + 1) as nat));
            }
            if self.0[i] {
                result = result + p;
            }
            if i < 63 {
                p = p * 2;
            }
            i = i + 1;
        }
        proof {
            assert(self@.take(self@.len() as int) =~= self@);
        }
        result
    }
}

proof fn lemma_pow2_fits_u64(n: nat)
    requires
        n < 64,
    ensures
        pow2(n) <= u64::MAX,
{
    vstd::arithmetic::power2::lemma2_to64();
    vstd::arithmetic::power2::lemma2_to64_rest();
    if n < 63 {
        vstd::arithmetic::power2::lemma_pow2_strictly_increases(n, 63);
    }
}

proof fn lemma_pow2_fits_u64_le(n: nat)
    requires
        n <= 64,
    ensures
        pow2(n) <= u64::MAX as nat + 1,
{
    vstd::arithmetic::power2::lemma2_to64();
    vstd::arithmetic::power2::lemma2_to64_rest();
    if n < 64 {
        vstd::arithmetic::power2::lemma_pow2_strictly_increases(n, 64);
    }
}

/// Value of the bits dropped below position `i`: `v` shifted down `i` times.
pub open spec fn shifted_down(v: nat, i: nat) -> nat
    decreases i,
{
    if i == 0 {
        v
    } else {
        shifted_down(v, (i - 1) as nat) / 2
    }
}

proof fn lemma_nat_to_bits_take(w: nat, v: nat, i: nat)
    requires
        i < w,
    ensures
        nat_to_bits(w, v).take(i as int + 1) =~= nat_to_bits(w, v).take(i as int).push(
            shifted_down(v, i) % 2 == 1,
        ),
        shifted_down(v, i) / 2 == shifted_down(v, (i + 1) as nat),
    decreases i,
{
    lemma_nat_to_bits_len(w, v);
    lemma_nat_to_bits_index(w, v, i);
    assert(nat_to_bits(w, v).take(i as int + 1) =~= nat_to_bits(w, v).take(i as int).push(
        nat_to_bits(w, v)[i as int],
    ));
}

proof fn lemma_nat_to_bits_index(w: nat, v: nat, i: nat)
    requires
        i < w,
    ensures
        nat_to_bits(w, v)[i as int] == (shifted_down(v, i) % 2 == 1),
    decreases i,
{
    lemma_nat_to_bits_len(w, v);
    if i == 0 {
    } else {
        lemma_nat_to_bits_index((w - 1) as nat, v / 2, (i - 1) as nat);
        lemma_shifted_down_step(v, i);
    }
}

proof fn lemma_shifted_down_step(v: nat, i: nat)
    requires
        i > 0,
    ensures
        shifted_down(v, i) == shifted_down(v / 2, (i - 1) as nat),
    decreases i,
{
    if i == 1 {
        assert(shifted_down(v, 1) == shifted_down(v, 0) / 2);
        assert(shifted_down(v, 0) == v);
        assert(shifted_down(v / 2, 0) == v / 2);
    } else {
        lemma_shifted_down_step(v, (i - 1) as nat);
        assert(shifted_down(v, i) == shifted_down(v, (i - 1) as nat) / 2);
        assert(shifted_down(v / 2, (i - 1) as nat) == shifted_down(v / 2, (i - 2) as nat) / 2);
    }
}

/// Packing distributes over splitting a bit sequence at a byte boundary.
pub proof fn lemma_bits_to_bytes_split(u: Seq<bool>, w: Seq<bool>)
    requires
        u.len() % 8 == 0,
    ensures
        bits_to_bytes(u + w) =~= bits_to_bytes(u) + bits_to_bytes(w),
    decreases u.len(),
{
    if u.len() == 0 {
        assert(u + w =~= w);
        assert(Seq::<u8>::empty() + bits_to_bytes(w) =~= bits_to_bytes(w));
    } else {
        assert(u.len() >= 8);
        let t = u + w;
        assert(t.len() >= 8);
        assert(t.take(8) =~= u.take(8));
        assert(t.skip(8) =~= u.skip(8) + w);
        assert(u.take(8) =~= u.take(8));
        assert(u.skip(8).len() % 8 == 0);
        lemma_bits_to_bytes_split(u.skip(8), w);
        if u.len() == 8 {
            assert(u.skip(8) =~= Seq::<bool>::empty());
        }
        assert(bits_to_bytes(u) == seq![bits_to_nat(u.take(8)) as u8] + bits_to_bytes(u.skip(8)));
        assert(bits_to_bytes(t) == seq![bits_to_nat(t.take(8)) as u8] + bits_to_bytes(t.skip(8)));
        assert(seq![bits_to_nat(u.take(8)) as u8] + (bits_to_bytes(u.skip(8)) + bits_to_bytes(w))
            =~= (seq![bits_to_nat(u.take(8)) as u8] + bits_to_bytes(u.skip(8))) + bits_to_bytes(w));
    }
}

/// The number of bits needed to give each of `n` values a distinct
/// pattern: the ceiling of the base-2 logarithm of `n` (0 when `n <= 1`).
pub open spec fn spec_count_to_bits(n: nat) -> nat
    decreases n,
{
    if n <= 1 {
        0
    } else {
        1 + spec_count_to_bits((n + 1) / 2)
    }
}

/// Bit width derived from a domain cardinality.
pub fn count_to_bits(n: usize) -> (r: usize)
    requires
        n < usize::MAX,
    ensures
        r == spec_count_to_bits(n as nat),
        r <= 64,
    decreases n,
{
    proof {
        vstd::arithmetic::power2::lemma2_to64();
        assert((n as nat) <= pow2(64));
        lemma_count_to_bits_bound(n as nat, 64);
    }
    if n <= 1 {
        0
    } else {
        1 + count_to_bits((n + 1) / 2)
    }
}

/// Every count below `pow2(w)` needs at most `w` bits.
pub proof fn lemma_count_to_bits_bound(n: nat, w: nat)
    requires
        n <= pow2(w),
    ensures
        spec_count_to_bits(n) <= w,
    decreases n,
{
    if n > 1 {
        if w == 0 {
            vstd::arithmetic::power2::lemma2_to64();
        } else {
            lemma_pow2_unfold(w);
            lemma_count_to_bits_bound((n + 1) / 2, (w - 1) as nat);
        }
    }
}

/// The derived width is large enough: `n` values fit in `count_to_bits(n)` bits.
pub proof fn lemma_count_to_bits_fits(n: nat)
    ensures
        n <= pow2(spec_count_to_bits(n)),
    decreases n,
{
    if n <= 1 {
        vstd::arithmetic::power2::lemma2_to64();
    } else {
        lemma_count_to_bits_fits((n + 1) / 2);
        lemma_pow2_unfold((1 + spec_count_to_bits((n + 1) / 2)) as nat);
    }
}

} // verus!

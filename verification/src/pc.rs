//! The single-stream storage box: a fixed array of 420 optional data
//! records. Slot 0 is reserved for the padding metadata record; data
//! records fill slots 1 onward contiguously. Writing appends a byte
//! payload across records, splicing into the padded tail of the last
//! record; reading serves the payload back through a byte cursor.

use vstd::prelude::*;
use crate::box_mon::{BoxMon, StringsMon, mon_bits, lemma_mon_bits_len, lemma_mon_decode_total,
    spec_mon_from_strings};
use crate::mon_field::{BitCount, FromStringInput, GameSerializer};
use crate::store::{SlotStore, flatten_recs, lemma_flatten_recs_len};
use crate::BoxMonBitVec;
use crate::{bits_to_nat, nat_to_bits, bits_to_bytes, bytes_to_bits, zero_bits};
use crate::{lemma_bits_to_nat_bound, lemma_nat_to_bits_len, lemma_bits_to_nat_of_nat};

verus! {

/// Records per box page.
pub const PC_BOX_SIZE: usize = 30;

/// Box pages in one storage system.
pub const NUM_PC_BOXES: usize = 14;

/// Total record slots.
pub const NUM_OF_MONS: usize = 420;

/// Slots that carry payload data: all but the metadata slot and the
/// always-empty final slot.
pub const NUM_OF_DATA_MONS: usize = 418;

/// Writing beyond the remaining capacity is refused.
#[derive(Debug, Clone, Copy, PartialEq, Eq, Structural)]
pub enum PcError {
    CapacityExceeded,
}

/// The bits of an optional record; an empty slot holds no bits.
pub open spec fn opt_mon_bits(o: Option<BoxMon>) -> Seq<bool> {
    match o {
        Some(m) => mon_bits(m),
        None => Seq::empty(),
    }
}

/// The first unfilled slot index at or after `i`.
pub open spec fn first_free_from(mons: Seq<Option<BoxMon>>, i: int) -> int
    decreases mons.len() - i,
{
    if i < 0 || i >= mons.len() {
        i
    } else if mons[i] is None {
        i
    } else {
        first_free_from(mons, i + 1)
    }
}

/// The first unfilled index is `k` exactly when everything before it
/// (from `lo`) is filled and `k` itself is empty or past the end.
pub proof fn lemma_first_free(mons: Seq<Option<BoxMon>>, lo: int, k: int)
    requires
        0 <= lo <= k <= mons.len(),
        forall|j: int| lo <= j < k ==> (#[trigger] mons[j]) is Some,
        k == mons.len() || mons[k] is None,
    ensures
        first_free_from(mons, lo) == k,
    decreases k - lo,
{
    if lo < k {
        lemma_first_free(mons, lo + 1, k);
    }
}

/// The storage box.
#[derive(Debug)]
pub struct PC {
    /// The slots, metadata slot included, in symbolic decoded form.
    pub mons: Vec<Option<BoxMon>>,
    /// The reader's byte position in the stored stream.
    pub current_read_offset: usize,
}

impl BitCount for PC {
    open spec fn spec_bit_count() -> usize {
        26752
    }

    fn bit_count() -> (r: usize) {
        26752
    }
}

impl PC {
    /// Index of the first unfilled data slot: 1 on an empty store.
    pub open spec fn spec_empty_offset(self) -> int {
        first_free_from(self.mons@, 1)
    }

    /// How many data records are filled.
    pub open spec fn spec_data_count(self) -> int {
        self.spec_empty_offset() - 1
    }

    /// The padding amount persisted in the metadata slot: the first
    /// eight bits of slot 0's record, or 0 while slot 0 is empty.
    pub open spec fn spec_padding(self) -> nat {
        match self.mons@[0] {
            Some(m) => bits_to_nat(mon_bits(m).take(8)),
            None => 0,
        }
    }

    /// The bits of each filled data record, in order.
    pub open spec fn spec_records(self) -> Seq<Seq<bool>> {
        Seq::new(self.spec_data_count() as nat, |i: int| opt_mon_bits(self.mons@[i + 1]))
    }

    /// The payload bits the box holds: the filled data records' bits
    /// with the final padding trimmed.
    pub open spec fn spec_content(self) -> Seq<bool> {
        flatten_recs(self.spec_records()).take(self.spec_data_count() * 68 - self.spec_padding())
    }

    /// The stored payload as bytes.
    pub open spec fn spec_data(self) -> Seq<u8> {
        bits_to_bytes(self.spec_content())
    }

    /// The reader's byte cursor.
    pub open spec fn spec_cursor(self) -> int {
        self.current_read_offset as int
    }

    /// Well-formedness: 420 slots, data slots filled contiguously from
    /// slot 1 with slot 419 never used, a padding counter below the
    /// record width, and the cursor inside the stored bytes.
    pub open spec fn wf(self) -> bool {
        &&& self.mons@.len() == 420
        &&& 1 <= self.spec_empty_offset() <= 419
        &&& forall|i: int| self.spec_empty_offset() <= i < 420 ==> (#[trigger] self.mons@[i]) is None
        &&& (self.spec_data_count() == 0 ==> self.spec_padding() == 0)
        &&& (self.spec_data_count() > 0 ==> self.spec_padding() < 68)
        &&& self.current_read_offset <= self.spec_data().len()
    }

    /// Bytes still writable: whole bytes per free data record.
    pub open spec fn spec_remaining_bytes(self) -> int {
        (418 - self.spec_data_count()) * 8
    }

    /// The stored content's length follows the record count and the
    /// padding counter.
    pub proof fn lemma_content_len(self)
        requires
            self.mons@.len() == 420,
            1 <= self.spec_empty_offset() <= 419,
            self.spec_data_count() == 0 ==> self.spec_padding() == 0,
            self.spec_data_count() > 0 ==> self.spec_padding() < 68,
        ensures
            self.spec_content().len() == self.spec_data_count() * 68 - self.spec_padding(),
    {
        assert forall|i: int| 0 <= i < self.spec_records().len() implies (
        #[trigger] self.spec_records()[i]).len() == 68 by {
            lemma_before_free_some(self.mons@, 1, i + 1);
            lemma_mon_bits_len(self.mons@[i + 1]->Some_0);
        }
        lemma_flatten_recs_len(self.spec_records(), 68);
        if self.spec_data_count() > 0 {
            assert(self.spec_data_count() * 68 >= 1 * 68) by (nonlinear_arith)
                requires
                    self.spec_data_count() >= 1,
            ;
        }
    }

    /// A fresh, empty box.
    pub fn new() -> (r: PC)
        ensures
            r.wf(),
            r.mons@.len() == 420,
            forall|i: int| 0 <= i < 420 ==> (#[trigger] r.mons@[i]) is None,
            r.spec_data_count() == 0,
            r.spec_padding() == 0,
            r.spec_cursor() == 0,
            r.spec_content() =~= Seq::<bool>::empty(),
    {
        let mut mons: Vec<Option<BoxMon>> = Vec::new();
        let mut i: usize = 0;
        while i < 420
            invariant
                0 <= i <= 420,
                mons@.len() == i,
                forall|j: int| 0 <= j < i ==> (#[trigger] mons@[j]) is None,
            decreases 420 - i,
        {
            mons.push(None);
            i = i + 1;
        }
        let r = PC { mons, current_read_offset: 0 };
        proof {
            lemma_first_free(r.mons@, 1, 1);
            assert(r.spec_records() =~= Seq::<Seq<bool>>::empty());
            lemma_flatten_recs_len(r.spec_records(), 68);
            assert(r.spec_content() =~= Seq::<bool>::empty());
        }
        r
    }

    /// Pads a short slot vector with empty slots up to the full size,
    /// as a freshly deserialized box may need.
    pub fn fill_empty_mon_slots(&mut self)
        requires
            old(self).mons@.len() <= 420,
        ensures
            final(self).mons@.len() == 420,
            final(self).mons@.take(old(self).mons@.len() as int) == old(self).mons@,
            forall|i: int|
                old(self).mons@.len() <= i < 420 ==> (#[trigger] final(self).mons@[i]) is None,
            final(self).spec_cursor() == old(self).spec_cursor(),
    {
        while self.mons.len() < 420
            invariant
                old(self).mons@.len() <= self.mons@.len() <= 420,
                self.mons@.take(old(self).mons@.len() as int) =~= old(self).mons@,
                forall|i: int|
                    old(self).mons@.len() <= i < self.mons@.len() ==> (#[trigger] self.mons@[i]) is None,
                self.current_read_offset == old(self).current_read_offset,
            decreases 420 - self.mons@.len(),
        {
            self.mons.push(None);
        }
    }

    /// The record that persists a padding amount in slot 0: the amount
    /// in the first eight bits, zeros elsewhere.
    fn padding_meta_mon(padding_amount: u8) -> (m: BoxMon)
        ensures
            mon_bits(m) == nat_to_bits(8, padding_amount as nat) + zero_bits(60),
            bits_to_nat(mon_bits(m).take(8)) == padding_amount as nat,
    {
        let pad_bits = BoxMonBitVec::new(8, padding_amount as u64);
        let mut bits: Vec<bool> = pad_bits.0;
        proof {
            lemma_nat_to_bits_len(8, padding_amount as nat);
        }
        let mut i: usize = 0;
        while i < 60
            invariant
                0 <= i <= 60,
                bits@ =~= nat_to_bits(8, padding_amount as nat) + zero_bits(i as nat),
            decreases 60 - i,
        {
            bits.push(false);
            proof {
                assert((nat_to_bits(8, padding_amount as nat) + zero_bits(i as nat)).push(false)
                    =~= nat_to_bits(8, padding_amount as nat) + zero_bits((i + 1) as nat));
            }
            i = i + 1;
        }
        let bv = BoxMonBitVec(bits);
        proof {
            lemma_mon_decode_total(bv@);
            <BoxMon as GameSerializer>::lemma_decode_encode(bv@);
        }
        match BoxMon::bits_to_game_value(&bv) {
            Ok(m) => {
                proof {
                    assert(mon_bits(m) == bv@);
                    assert(mon_bits(m).take(8) =~= nat_to_bits(8, padding_amount as nat));
                    vstd::arithmetic::power2::lemma2_to64();
                    lemma_bits_to_nat_of_nat(8, padding_amount as nat);
                }
                m
            },
            Err(_) => {
                proof {
                    assert(false);
                }
                BoxMon {
                    species: crate::mon_species::BoxMonSpecies::POOCHYENA,
                    gender: crate::mon_gender::BoxMonGender::Male,
                    name: crate::mon_name::BoxMonName::new(
                        [crate::mon_name::BoxMonCharacter::LowerA; 10],
                    ),
                    held_item: crate::mon_held_item::BoxMonHeldItem::Empty,
                }
            },
        }
    }

    /// Persists a padding amount in the reserved metadata slot. A
    /// larger padding shortens the stored stream, so it may only grow
    /// while nothing has been read yet.
    pub fn set_padding_amount(&mut self, padding_amount: u8)
        requires
            old(self).wf(),
            padding_amount < 68,
            old(self).spec_data_count() == 0 ==> padding_amount == 0,
            padding_amount as nat <= old(self).spec_padding() || old(self).spec_cursor() == 0,
        ensures
            final(self).wf(),
            final(self).mons@.len() == 420,
            forall|i: int| 1 <= i < 420 ==> final(self).mons@[i] == old(self).mons@[i],
            final(self).spec_padding() == padding_amount as nat,
            final(self).spec_data_count() == old(self).spec_data_count(),
            final(self).spec_records() == old(self).spec_records(),
            final(self).spec_cursor() == old(self).spec_cursor(),
    {
        let m = Self::padding_meta_mon(padding_amount);
        self.mons.set(0, Some(m));
        proof {
            let k = old(self).spec_empty_offset();
            assert forall|j: int| 1 <= j < k implies (#[trigger] self.mons@[j]) is Some by {
                lemma_before_free_some(old(self).mons@, 1, j);
            }
            lemma_first_free(self.mons@, 1, k);
            assert(self.spec_records() =~= old(self).spec_records());
            crate::lemma_bits_to_bytes_len(self.spec_content());
            crate::lemma_bits_to_bytes_len(old(self).spec_content());
            old(self).lemma_content_len();
            self.lemma_content_len();
        }
    }

    /// The padding amount persisted in slot 0, or 0 while it is empty.
    pub fn get_padding_amount(&self) -> (r: u8)
        requires
            self.mons@.len() >= 1,
        ensures
            r as nat == self.spec_padding(),
    {
        match &self.mons[0] {
            Some(m) => {
                let bits = match m.game_value_to_bits() {
                    Ok(b) => b,
                    Err(_) => {
                        proof {
                            assert(false);
                        }
                        BoxMonBitVec(Vec::new())
                    },
                };
                proof {
                    lemma_mon_bits_len(*m);
                    lemma_bits_to_nat_bound(bits@.subrange(0, 8));
                    vstd::arithmetic::power2::lemma2_to64();
                    assert(bits@.subrange(0, 8) =~= mon_bits(*m).take(8));
                }
                let field = bits.chunk(0, 8);
                field.as_u8()
            },
            None => 0,
        }
    }

    /// Stores a record at the given box page and position. Only the
    /// filled prefix or the slot right after it may be written, so the
    /// contiguous fill is kept.
    pub fn set_mon(&mut self, box_index: usize, mon_index: usize, mon: BoxMon)
        requires
            old(self).wf(),
            mon_index < 30,
            1 <= box_index * 30 + mon_index <= old(self).spec_empty_offset(),
            box_index * 30 + mon_index < 419,
        ensures
            final(self).wf(),
            final(self).mons@ == old(self).mons@.update(
                (box_index * 30 + mon_index) as int,
                Some(mon),
            ),
            final(self).spec_cursor() == old(self).spec_cursor(),
    {
        let index = box_index * 30 + mon_index;
        self.mons.set(index, Some(mon));
        proof {
            let k = old(self).spec_empty_offset();
            assert forall|j: int| 1 <= j < k implies (#[trigger] self.mons@[j]) is Some by {
                if j != index {
                    lemma_before_free_some(old(self).mons@, 1, j);
                }
            }
            if index as int == k {
                lemma_first_free(self.mons@, 1, k + 1);
            } else {
                lemma_first_free(self.mons@, 1, k);
            }
            assert(self.spec_padding() == old(self).spec_padding());
            if self.spec_data_count() > 0 && old(self).spec_data_count() == 0 {
                assert(self.spec_padding() == 0);
            }
            old(self).lemma_content_len();
            self.lemma_content_len();
            crate::lemma_bits_to_bytes_len(self.spec_content());
            crate::lemma_bits_to_bytes_len(old(self).spec_content());
        }
    }

    /// Index of the first unfilled data slot.
    pub fn get_empty_offset(&self) -> (r: usize)
        requires
            self.wf(),
        ensures
            r == self.spec_empty_offset(),
            1 <= r <= 419,
    {
        let mut offset: usize = 1;
        while offset < 420
            invariant
                1 <= offset <= 420,
                self.wf(),
                first_free_from(self.mons@, 1) == first_free_from(self.mons@, offset as int),
            decreases 420 - offset,
        {
            if self.mons[offset].is_none() {
                return offset;
            }
            offset = offset + 1;
        }
        proof {
            assert(first_free_from(self.mons@, 420) == 420);
            assert(false);
        }
        419
    }

    /// Bytes still writable.
    pub fn remaining_bytes(&self) -> (r: usize)
        requires
            self.wf(),
        ensures
            r == self.spec_remaining_bytes(),
    {
        let current_offset = self.get_empty_offset();
        (NUM_OF_DATA_MONS - (current_offset - 1)) * 8
    }

    /// The box's state as a bit-level slot store.
    fn to_store(&self) -> (r: SlotStore)
        requires
            self.wf(),
        ensures
            r.wf(),
            r.spec_width() == 68,
            r.spec_capacity() == 418,
            r.spec_filled() == self.spec_data_count(),
            r.spec_padding() == self.spec_padding(),
            r.spec_cursor() == self.spec_cursor(),
            r.spec_records() == self.spec_records(),
            r.content() == self.spec_content(),
    {
        let k = self.get_empty_offset();
        let mut recs: Vec<BoxMonBitVec> = Vec::new();
        let mut i: usize = 1;
        while i < k
            invariant
                1 <= i <= k,
                self.wf(),
                k == self.spec_empty_offset(),
                recs@.len() == i - 1,
                forall|j: int| 0 <= j < i - 1 ==> (#[trigger] recs@[j])@ == self.spec_records()[j],
            decreases k - i,
        {
            proof {
                lemma_before_free_some(self.mons@, 1, i as int);
            }
            match &self.mons[i] {
                Some(m) => {
                    let bits = match m.game_value_to_bits() {
                        Ok(b) => b,
                        Err(_) => {
                            proof {
                                assert(false);
                            }
                            BoxMonBitVec(Vec::new())
                        },
                    };
                    recs.push(bits);
                },
                None => {
                    proof {
                        assert(false);
                    }
                },
            }
            i = i + 1;
        }
        let padding = self.get_padding_amount();
        proof {
            assert forall|j: int| 0 <= j < recs@.len() implies (#[trigger] recs@[j])@.len()
                == 68 by {
                assert(recs@[j]@ == self.spec_records()[j]);
                lemma_before_free_some(self.mons@, 1, j + 1);
                lemma_mon_bits_len(self.mons@[j + 1]->Some_0);
            }
            assert(Seq::new(recs@.len(), |i: int| recs@[i]@) =~= self.spec_records());
            lemma_flatten_recs_len(self.spec_records(), 68);
        }
        let r = SlotStore::from_parts(68, recs, padding, 418, self.current_read_offset);
        proof {
            r.lemma_shape();
            assert(r.spec_records() == self.spec_records());
            assert(r.content() == self.spec_content());
        }
        r
    }

    /// The store built by `to_store` counts its free bytes as the box
    /// does.
    proof fn lemma_store_remaining(self, store: SlotStore)
        requires
            store.wf(),
            store.spec_width() == 68,
            store.spec_capacity() == 418,
            store.spec_filled() == self.spec_data_count(),
        ensures
            store.spec_remaining_bytes() == self.spec_remaining_bytes(),
    {
        store.lemma_shape();
    }

    /// Rebuilds the slot array from a bit-level store: decoded data
    /// records, cleared tail, and the padding metadata in slot 0.
    #[verifier::spinoff_prover]
    #[verifier::rlimit(100)]
    fn update_from_store(&mut self, store: &SlotStore)
        requires
            old(self).mons@.len() == 420,
            store.wf(),
            store.spec_width() == 68,
            store.spec_capacity() == 418,
            old(self).current_read_offset as int <= bits_to_bytes(store.content()).len(),
        ensures
            final(self).wf(),
            final(self).spec_data_count() == store.spec_filled(),
            final(self).spec_padding() == store.spec_padding(),
            final(self).spec_records() == store.spec_records(),
            final(self).spec_content() == store.content(),
            final(self).spec_cursor() == old(self).spec_cursor(),
            final(self).mons@[0] matches Some(meta) && mon_bits(meta) == nat_to_bits(
                8,
                final(self).spec_padding(),
            ) + zero_bits(60),
            forall|j: int|
                0 <= j < store.spec_filled() ==> opt_mon_bits(#[trigger] final(self).mons@[j + 1])
                    == store.spec_records()[j],
    {
        proof {
            store.lemma_shape();
        }
        let filled = store.filled_count();
        let mut i: usize = 0;
        while i < filled
            invariant
                0 <= i <= filled,
                filled == store.spec_filled(),
                store.wf(),
                store.spec_width() == 68,
                store.spec_capacity() == 418,
                self.mons@.len() == 420,
                self.current_read_offset == old(self).current_read_offset,
                forall|j: int|
                    0 <= j < i ==> (#[trigger] self.mons@[j + 1]) is Some && opt_mon_bits(
                        self.mons@[j + 1],
                    ) == store.spec_records()[j],
            decreases filled - i,
        {
            let rec = store.record_bits(i);
            proof {
                store.lemma_shape();
                lemma_mon_decode_total(rec@);
                <BoxMon as GameSerializer>::lemma_decode_encode(rec@);
            }
            let m = match BoxMon::bits_to_game_value(&rec) {
                Ok(m) => m,
                Err(_) => {
                    proof {
                        assert(false);
                    }
                    Self::padding_meta_mon(0)
                },
            };
            self.mons.set(1 + i, Some(m));
            i = i + 1;
        }
        let mut j: usize = filled + 1;
        while j < 420
            invariant
                filled + 1 <= j <= 420,
                filled == store.spec_filled(),
                self.mons@.len() == 420,
                self.current_read_offset == old(self).current_read_offset,
                forall|t: int|
                    0 <= t < filled ==> (#[trigger] self.mons@[t + 1]) is Some && opt_mon_bits(
                        self.mons@[t + 1],
                    ) == store.spec_records()[t],
                forall|t: int| filled < t < j ==> (#[trigger] self.mons@[t]) is None,
            decreases 420 - j,
        {
            self.mons.set(j, None);
            j = j + 1;
        }
        let pad = store.padding_amount();
        let m = Self::padding_meta_mon(pad);
        self.mons.set(0, Some(m));
        proof {
            assert forall|j: int| 1 <= j < filled + 1 implies (#[trigger] self.mons@[j]) is Some by {
                assert(self.mons@[(j - 1) + 1] is Some);
            }
            lemma_first_free(self.mons@, 1, filled as int + 1);
            assert(self.spec_empty_offset() == filled + 1);
            assert(self.spec_data_count() == store.spec_filled());
            assert(self.spec_padding() == store.spec_padding()) by {
                vstd::arithmetic::power2::lemma2_to64();
                lemma_nat_to_bits_len(8, pad as nat);
                lemma_bits_to_nat_of_nat(8, pad as nat);
            }
            assert(self.spec_records() =~= store.spec_records());
            store.lemma_shape();
            assert(self.spec_content() == store.content());
        }
    }

    /// Appends a byte payload to the stored stream. The payload
    /// continues bit-exactly where the last write stopped, overwriting
    /// the padded tail of the final record first; the new final record
    /// is zero-padded and the filler persisted in slot 0. Fails without
    /// mutation when the payload exceeds the remaining capacity.
    pub fn write(&mut self, buf: &Vec<u8>) -> (r: Result<usize, PcError>)
        requires
            old(self).wf(),
        ensures
            final(self).wf(),
            final(self).spec_cursor() == old(self).spec_cursor(),
            match r {
                Ok(n) => {
                    &&& n == buf@.len()
                    &&& buf@.len() <= old(self).spec_remaining_bytes()
                    &&& final(self).spec_content() == old(self).spec_content() + bytes_to_bits(
                        buf@,
                    )
                    &&& final(self).spec_padding() == (68 - (final(self).spec_content().len() as int
                        % 68)) % 68
                    &&& final(self).spec_data_count() * 68 == final(self).spec_content().len() as int
                        + final(self).spec_padding()
                    &&& final(self).mons@[0] matches Some(meta) && mon_bits(meta) == nat_to_bits(
                        8,
                        final(self).spec_padding(),
                    ) + zero_bits(60)
                    &&& (forall|j: int|
                        0 <= j < final(self).spec_data_count() ==> opt_mon_bits(
                            #[trigger] final(self).mons@[j + 1],
                        ) == crate::store::chunk_padded(final(self).spec_content(), 68, j))
                },
                Err(e) => {
                    &&& e == PcError::CapacityExceeded
                    &&& *final(self) == *old(self)
                    &&& buf@.len() > old(self).spec_remaining_bytes()
                },
            },
    {
        let mut store = self.to_store();
        proof {
            old(self).lemma_store_remaining(store);
        }
        match store.append(buf) {
            Ok(n) => {
                proof {
                    store.lemma_shape();
                }
                self.update_from_store(&store);
                Ok(n)
            },
            Err(_) => Err(PcError::CapacityExceeded),
        }
    }

    /// Copies stored bytes into the caller's buffer from the read
    /// cursor on: as many as fit and remain. Returns 0 at end of
    /// stream.
    pub fn read(&mut self, buf: &mut Vec<u8>) -> (n: usize)
        requires
            old(self).wf(),
        ensures
            final(self).wf(),
            final(self).mons@ == old(self).mons@,
            n == vstd::math::min(
                old(buf)@.len() as int,
                old(self).spec_data().len() - old(self).spec_cursor(),
            ),
            final(self).spec_cursor() == old(self).spec_cursor() + n,
            final(buf)@.len() == old(buf)@.len(),
            forall|i: int|
                0 <= i < n ==> #[trigger] final(buf)@[i] == old(self).spec_data()[old(self).spec_cursor() + i],
            forall|i: int| n <= i < final(buf)@.len() ==> #[trigger] final(buf)@[i] == old(buf)@[i],
    {
        let mut store = self.to_store();
        let n = store.read(buf);
        self.current_read_offset = store.read_cursor();
        n
    }

    /// All stored bytes from the cursor to the end of the stream.
    pub fn read_to_end(&mut self) -> (r: Vec<u8>)
        requires
            old(self).wf(),
        ensures
            final(self).wf(),
            final(self).mons@ == old(self).mons@,
            r@ == old(self).spec_data().subrange(
                old(self).spec_cursor(),
                old(self).spec_data().len() as int,
            ),
            final(self).spec_cursor() == final(self).spec_data().len(),
    {
        let mut store = self.to_store();
        let r = store.read_to_end();
        self.current_read_offset = store.read_cursor();
        proof {
            assert(store.spec_cursor() == store.spec_data().len());
        }
        r
    }
}

/// Everything filled before the first free slot is a full record.
pub proof fn lemma_before_free_some(mons: Seq<Option<BoxMon>>, lo: int, i: int)
    requires
        0 <= lo <= i < first_free_from(mons, lo),
    ensures
        mons[i] is Some,
    decreases i - lo,
{
    if lo < i {
        lemma_before_free_some(mons, lo + 1, i);
    }
}



/// A slot vector padded with empty slots up to the full size.
pub open spec fn spec_padded_mons(mons: Seq<Option<BoxMon>>) -> Seq<Option<BoxMon>> {
    mons + Seq::new((420 - mons.len()) as nat, |i: int| None::<BoxMon>)
}

/// Whether a full slot vector is a valid box layout: data slots filled
/// contiguously, slot 419 free, and a padding counter below the record
/// width.
pub open spec fn spec_mons_valid(m: Seq<Option<BoxMon>>) -> bool {
    let k = first_free_from(m, 1);
    &&& m.len() == 420
    &&& 1 <= k <= 419
    &&& forall|i: int| k <= i < 420 ==> (#[trigger] m[i]) is None
    &&& (k == 1 ==> spec_mons_padding(m) == 0)
    &&& (k > 1 ==> spec_mons_padding(m) < 68)
}

/// The padding amount slot 0 of a slot vector carries.
pub open spec fn spec_mons_padding(m: Seq<Option<BoxMon>>) -> nat {
    match m[0] {
        Some(mon) => bits_to_nat(mon_bits(mon).take(8)),
        None => 0,
    }
}

/// Errors while rebuilding a box from free-text records.
#[derive(Debug)]
pub enum PcDecodeError {
    /// Some entry's fields do not resolve to domain values.
    InvalidMon(crate::box_mon::StringMonParseError),
    /// The resolved records do not form a valid box layout.
    MalformedLayout,
}

impl PC {
    /// Validates a deserialized slot vector and wraps it as a box:
    /// short vectors are padded with empty slots; a vector that is too
    /// long or whose layout breaks the box invariants is rejected.
    pub fn from_mons(mons: Vec<Option<BoxMon>>) -> (r: Option<PC>)
        ensures
            r is Some <==> (mons@.len() <= 420 && spec_mons_valid(spec_padded_mons(mons@))),
            match r {
                Some(pc) => {
                    &&& pc.wf()
                    &&& pc.spec_cursor() == 0
                    &&& pc.mons@ == spec_padded_mons(mons@)
                },
                None => true,
            },
    {
        if mons.len() > 420 {
            return None;
        }
        let ghost orig = mons@;
        let mut pc = PC { mons, current_read_offset: 0 };
        pc.fill_empty_mon_slots();
        proof {
            assert(pc.mons@ =~= spec_padded_mons(orig));
        }
        let mut offset: usize = 1;
        while offset < 420 && pc.mons[offset].is_some()
            invariant
                1 <= offset <= 420,
                pc.mons@.len() == 420,
                orig == mons@,
                pc.mons@ == spec_padded_mons(orig),
                pc.current_read_offset == 0,
                orig.len() <= 420,
                first_free_from(pc.mons@, 1) == first_free_from(pc.mons@, offset as int),
            decreases 420 - offset,
        {
            offset = offset + 1;
        }
        let k = offset;
        proof {
            if k == 420 {
                assert(first_free_from(pc.mons@, 420) == 420);
            } else {
                assert(first_free_from(pc.mons@, k as int) == k);
            }
        }
        if k > 419 {
            proof {
                assert(!spec_mons_valid(spec_padded_mons(orig)));
            }
            return None;
        }
        let mut i: usize = k;
        while i < 420
            invariant
                k <= i <= 420,
                pc.mons@.len() == 420,
                orig == mons@,
                pc.mons@ == spec_padded_mons(orig),
                pc.current_read_offset == 0,
                orig.len() <= 420,
                first_free_from(pc.mons@, 1) == k,
                forall|j: int| k <= j < i ==> (#[trigger] pc.mons@[j]) is None,
            decreases 420 - i,
        {
            if slot_is_filled(&pc.mons, i) {
                return None;
            }
            i = i + 1;
        }
        let padding = pc.get_padding_amount();
        if k == 1 {
            if padding != 0 {
                return None;
            }
        } else {
            if padding >= 68 {
                return None;
            }
        }
        proof {
            pc.lemma_content_len();
            crate::lemma_bits_to_bytes_len(pc.spec_content());
        }
        Some(pc)
    }

    /// Rebuilds a box from the free-text records of each box page, as
    /// the recognition boundary delivers them: every entry is resolved
    /// to a record, then the layout is validated.
    pub fn try_from_strings(boxes: &Vec<Vec<StringsMon>>) -> (r: Result<PC, PcDecodeError>)
        requires
            boxes@.len() <= 14,
            forall|b: int| 0 <= b < boxes@.len() ==> (#[trigger] boxes@[b])@.len() <= 30,
        ensures
            match r {
                Ok(pc) => {
                    &&& pc.wf()
                    &&& pc.spec_cursor() == 0
                    &&& pc.mons@ == spec_built_mons(boxes@)
                    &&& forall|b: int, m: int|
                        0 <= b < boxes@.len() && 0 <= m < boxes@[b]@.len()
                            ==> spec_mon_from_strings(#[trigger] boxes@[b]@[m]) is Some
                    &&& spec_mons_valid(spec_built_mons(boxes@))
                },
                Err(PcDecodeError::InvalidMon(_)) => exists|b: int, m: int|
                    0 <= b < boxes@.len() && 0 <= m < boxes@[b]@.len() && spec_mon_from_strings(
                        #[trigger] boxes@[b]@[m],
                    ) is None,
                Err(PcDecodeError::MalformedLayout) => !spec_mons_valid(spec_built_mons(boxes@)),
            },
    {
        let mut v: Vec<Option<BoxMon>> = Vec::new();
        let mut t: usize = 0;
        while t < 420
            invariant
                0 <= t <= 420,
                v@.len() == t,
                forall|j: int| 0 <= j < t ==> (#[trigger] v@[j]) is None,
            decreases 420 - t,
        {
            v.push(None);
            t = t + 1;
        }
        let mut b: usize = 0;
        while b < boxes.len()
            invariant
                0 <= b <= boxes@.len() <= 14,
                forall|x: int| 0 <= x < boxes@.len() ==> (#[trigger] boxes@[x])@.len() <= 30,
                v@.len() == 420,
                forall|i: int|
                    0 <= i < 420 ==> #[trigger] v@[i] == spec_built_entry(boxes@, i, b as int, 0),
                forall|i: int|
                    0 <= i < 420 && spec_entry_before(i, b as int, 0) && i / 30 < boxes@.len() && i
                        % 30 < boxes@[i / 30]@.len() ==> (#[trigger] v@[i]) is Some,
            decreases boxes@.len() - b,
        {
            let row_len = boxes[b].len();
            let mut m: usize = 0;
            while m < row_len
                invariant
                    0 <= b < boxes@.len() <= 14,
                    0 <= m <= row_len,
                    row_len == boxes@[b as int]@.len() <= 30,
                    forall|x: int| 0 <= x < boxes@.len() ==> (#[trigger] boxes@[x])@.len() <= 30,
                    v@.len() == 420,
                    forall|i: int|
                        0 <= i < 420 ==> #[trigger] v@[i] == spec_built_entry(
                            boxes@,
                            i,
                            b as int,
                            m as int,
                        ),
                    forall|i: int|
                        0 <= i < 420 && spec_entry_before(i, b as int, m as int) && i / 30
                            < boxes@.len() && i % 30 < boxes@[i / 30]@.len() ==> (
                        #[trigger] v@[i]) is Some,
                decreases row_len - m,
            {
                let raw = &boxes[b][m];
                let species = match crate::mon_species::BoxMonSpecies::try_from_string(
                    raw.species.as_str(),
                ) {
                    Some(x) => x,
                    None => {
                        return Err(PcDecodeError::InvalidMon(
                            crate::box_mon::StringMonParseError::InvalidSpecies,
                        ));
                    },
                };
                let gender = match crate::mon_gender::BoxMonGender::try_from_string(
                    raw.gender.as_str(),
                ) {
                    Some(x) => x,
                    None => {
                        return Err(PcDecodeError::InvalidMon(
                            crate::box_mon::StringMonParseError::InvalidGender,
                        ));
                    },
                };
                let name = match crate::mon_name::BoxMonName::try_from_string(raw.name.as_str()) {
                    Some(x) => x,
                    None => {
                        return Err(PcDecodeError::InvalidMon(
                            crate::box_mon::StringMonParseError::InvalidName(raw.name.clone()),
                        ));
                    },
                };
                let held_item = match crate::mon_held_item::BoxMonHeldItem::try_from_string(
                    raw.item.as_str(),
                ) {
                    Some(x) => x,
                    None => {
                        return Err(PcDecodeError::InvalidMon(
                            crate::box_mon::StringMonParseError::InvalidItem,
                        ));
                    },
                };
                let mon = BoxMon { species, gender, name, held_item };
                let index = b * 30 + m;
                proof {
                    assert(index < 420) by (nonlinear_arith)
                        requires
                            index == b * 30 + m,
                            b < 14,
                            m < 30,
                    ;
                }
                vstd::pervasive::VecAdditionalExecFns::set(&mut v, index, Some(mon));
                proof {
                    assert(Some(mon) == spec_mon_from_strings(boxes@[b as int]@[m as int]));
                    assert forall|i: int| 0 <= i < 420 implies #[trigger] v@[i] == spec_built_entry(
                        boxes@,
                        i,
                        b as int,
                        m as int + 1,
                    ) by {
                        lemma_built_entry_step(boxes@, i, b as int, m as int);
                    }
                }
                m = m + 1;
            }
            proof {
                assert forall|i: int| 0 <= i < 420 implies #[trigger] v@[i] == spec_built_entry(
                    boxes@,
                    i,
                    b as int + 1,
                    0,
                ) by {
                    lemma_built_entry_row(boxes@, i, b as int);
                }
            }
            b = b + 1;
        }
        proof {
            assert forall|i: int| 0 <= i < 420 implies #[trigger] v@[i] == spec_built_mons(boxes@)[i] by {
                lemma_built_entry_done(boxes@, i);
            }
            assert(v@ =~= spec_built_mons(boxes@));
            assert forall|bb: int, mm: int|
                0 <= bb < boxes@.len() && 0 <= mm < boxes@[bb]@.len() implies spec_mon_from_strings(
                #[trigger] boxes@[bb]@[mm],
            ) is Some by {
                let i = bb * 30 + mm;
                assert(0 <= i < 420 && i / 30 == bb && i % 30 == mm) by (nonlinear_arith)
                    requires
                        i == bb * 30 + mm,
                        0 <= bb < 14,
                        0 <= mm < 30,
                ;
                assert(spec_entry_before(i, boxes@.len() as int, 0));
                assert(v@[i] is Some);
                assert(v@[i] == spec_built_entry(boxes@, i, boxes@.len() as int, 0));
            }
        }
        match Self::from_mons(v) {
            Some(pc) => {
                proof {
                    assert(spec_padded_mons(spec_built_mons(boxes@)) =~= spec_built_mons(boxes@));
                }
                Ok(pc)
            },
            None => {
                proof {
                    assert(spec_padded_mons(spec_built_mons(boxes@)) =~= spec_built_mons(boxes@));
                }
                Err(PcDecodeError::MalformedLayout)
            },
        }
    }
}

/// Whether an entry index is covered by a box page position strictly
/// before page `b`, position `m`.
pub open spec fn spec_entry_before(i: int, b: int, m: int) -> bool {
    i / 30 < b || (i / 30 == b && i % 30 < m)
}

/// The slot an entry index holds after the pages before `(b, m)` have
/// been resolved: the entry's record if it was already handled and its
/// fields resolve, empty otherwise.
pub open spec fn spec_built_entry(bs: Seq<Vec<StringsMon>>, i: int, b: int, m: int) -> Option<
    BoxMon,
> {
    if spec_entry_before(i, b, m) && i / 30 < bs.len() && i % 30 < bs[i / 30]@.len() {
        spec_mon_from_strings(bs[i / 30]@[i % 30])
    } else {
        None
    }
}

/// The full slot vector a set of box pages denotes.
pub open spec fn spec_built_mons(bs: Seq<Vec<StringsMon>>) -> Seq<Option<BoxMon>> {
    Seq::new(420, |i: int| spec_built_entry(bs, i, bs.len() as int, 0))
}

proof fn lemma_built_entry_step(bs: Seq<Vec<StringsMon>>, i: int, b: int, m: int)
    requires
        0 <= i < 420,
        0 <= b < bs.len(),
        0 <= m,
    ensures
        i != b * 30 + m ==> spec_built_entry(bs, i, b, m + 1) == spec_built_entry(bs, i, b, m),
        i == b * 30 + m && m < 30 ==> (spec_entry_before(i, b, m + 1) && i / 30 == b && i % 30
            == m),
{
    if i == b * 30 + m && m < 30 {
        assert(i / 30 == b && i % 30 == m) by (nonlinear_arith)
            requires
                i == b * 30 + m,
                0 <= m < 30,
                b >= 0,
        ;
    }
}

proof fn lemma_built_entry_row(bs: Seq<Vec<StringsMon>>, i: int, b: int)
    requires
        0 <= i < 420,
        0 <= b < bs.len(),
        bs[b]@.len() <= 30,
    ensures
        spec_built_entry(bs, i, b + 1, 0) == spec_built_entry(bs, i, b, bs[b]@.len() as int),
{
}

proof fn lemma_built_entry_done(bs: Seq<Vec<StringsMon>>, i: int)
    requires
        0 <= i < 420,
    ensures
        spec_built_entry(bs, i, bs.len() as int, 0) == spec_built_mons(bs)[i],
{
}

/// Whether a slot holds a record.
fn slot_is_filled(mons: &Vec<Option<BoxMon>>, i: usize) -> (r: bool)
    requires
        i < mons@.len(),
    ensures
        r == (mons@[i as int] is Some),
{
    mons[i].is_some()
}

/// Splitting one payload into two sequential writes appends exactly the
/// bits one combined write of the concatenation appends: the stream a
/// box holds after `write(p1)` then `write(p2)` equals the stream after
/// one `write(p1 + p2)`.
pub proof fn lemma_split_write_combines(c0: Seq<bool>, p1: Seq<u8>, p2: Seq<u8>)
    ensures
        (c0 + bytes_to_bits(p1)) + bytes_to_bits(p2) == c0 + bytes_to_bits(p1 + p2),
{
    crate::lemma_bytes_to_bits_concat(p1, p2);
    assert((c0 + bytes_to_bits(p1)) + bytes_to_bits(p2) =~= c0 + (bytes_to_bits(p1)
        + bytes_to_bits(p2)));
}

/// Reading back a box whose stream holds exactly the written payload
/// yields that payload byte for byte.
pub proof fn lemma_write_read_round_trip(pc: PC, p: Seq<u8>)
    requires
        pc.spec_content() == bytes_to_bits(p),
    ensures
        pc.spec_data() == p,
{
    crate::lemma_bits_to_bytes_of_bytes(p);
}

} // verus!

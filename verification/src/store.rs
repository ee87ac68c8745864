//! The slot store: a fixed-capacity array of optional fixed-width bit
//! records, filled contiguously from the front, together with the
//! stream writer and reader that move byte payloads in and out of it.
//!
//! The writer slices a payload's bits into record-width chunks,
//! zero-padding the final chunk and remembering how many filler bits it
//! added; appending again rebuilds the padded tail record, so a split
//! write leaves exactly the state one combined write would. The reader
//! serves the stored bytes through a cursor.

use vstd::prelude::*;
use vstd::pervasive::VecAdditionalExecFns;
use crate::BoxMonBitVec;
use crate::{bits_to_bytes, bytes_to_bits, zero_bits};
use crate::{lemma_bytes_to_bits_len, lemma_bits_to_bytes_len};

verus! {

/// Appending more than the remaining capacity is refused.
#[derive(Debug, Clone, Copy, PartialEq, Eq, Structural)]
pub enum SlotStoreError {
    CapacityExceeded,
}

/// The bits of an optional record; an empty slot holds no bits.
pub open spec fn opt_bits(o: Option<BoxMonBitVec>) -> Seq<bool> {
    match o {
        Some(b) => b@,
        None => Seq::empty(),
    }
}

/// All bits of a sequence of records, in order.
pub open spec fn flatten_recs(rs: Seq<Seq<bool>>) -> Seq<bool>
    decreases rs.len(),
{
    if rs.len() == 0 {
        Seq::empty()
    } else {
        rs[0] + flatten_recs(rs.skip(1))
    }
}

pub proof fn lemma_flatten_recs_push(rs: Seq<Seq<bool>>, x: Seq<bool>)
    ensures
        flatten_recs(rs.push(x)) =~= flatten_recs(rs) + x,
    decreases rs.len(),
{
    if rs.len() == 0 {
        assert(rs.push(x) =~= seq![x]);
        assert(seq![x].skip(1) =~= Seq::<Seq<bool>>::empty());
        assert(flatten_recs(seq![x]) == x + flatten_recs(Seq::<Seq<bool>>::empty()));
        assert(x + Seq::<bool>::empty() =~= x);
        assert(flatten_recs(rs) + x =~= x);
    } else {
        assert(rs.push(x)[0] == rs[0]);
        assert(rs.push(x).skip(1) =~= rs.skip(1).push(x));
        lemma_flatten_recs_push(rs.skip(1), x);
        assert(flatten_recs(rs.push(x)) == rs[0] + flatten_recs(rs.skip(1).push(x)));
        assert(rs[0] + (flatten_recs(rs.skip(1)) + x) =~= (rs[0] + flatten_recs(rs.skip(1))) + x);
    }
}

pub proof fn lemma_flatten_recs_len(rs: Seq<Seq<bool>>, w: int)
    requires
        forall|i: int| 0 <= i < rs.len() ==> (#[trigger] rs[i]).len() == w,
    ensures
        flatten_recs(rs).len() == rs.len() * w,
    decreases rs.len(),
{
    if rs.len() > 0 {
        assert(rs[0].len() == w);
        assert forall|i: int| 0 <= i < rs.skip(1).len() implies (#[trigger] rs.skip(1)[i]).len()
            == w by {
            assert(rs.skip(1)[i] == rs[i + 1]);
        }
        lemma_flatten_recs_len(rs.skip(1), w);
        assert((rs.len() - 1) * w + w == rs.len() * w) by (nonlinear_arith);
    }
}

/// The `j`-th record-width chunk of a bit sequence, zero-padded at the
/// end if the sequence runs out inside the chunk.
pub open spec fn chunk_padded(s: Seq<bool>, w: int, j: int) -> Seq<bool> {
    if (j + 1) * w <= s.len() {
        s.subrange(j * w, (j + 1) * w)
    } else {
        s.subrange(j * w, s.len() as int) + zero_bits(((j + 1) * w - s.len()) as nat)
    }
}

/// Full-width chunks of a prefix of `s` flatten back to that prefix.
pub proof fn lemma_full_chunks(rs: Seq<Seq<bool>>, s: Seq<bool>, w: int)
    requires
        w >= 1,
        rs.len() * w <= s.len(),
        forall|j: int| 0 <= j < rs.len() ==> #[trigger] rs[j] == chunk_padded(s, w, j),
    ensures
        flatten_recs(rs) =~= s.take(rs.len() * w),
    decreases rs.len(),
{
    if rs.len() == 0 {
        assert(s.take(0) =~= Seq::<bool>::empty());
    } else {
        let n = rs.len() as int;
        let rs0 = rs.take(n - 1);
        assert((n - 1) * w == n * w - w) by (nonlinear_arith);
        assert forall|j: int| 0 <= j < rs0.len() implies #[trigger] rs0[j] == chunk_padded(
            s,
            w,
            j,
        ) by {
            assert(rs0[j] == rs[j]);
        }
        lemma_full_chunks(rs0, s, w);
        assert(rs0.push(rs[n - 1]) =~= rs);
        lemma_flatten_recs_push(rs0, rs[n - 1]);
        assert(rs[n - 1] == chunk_padded(s, w, n - 1));
        assert(rs[n - 1] == s.subrange((n - 1) * w, n * w));
        assert(s.take((n - 1) * w) + s.subrange((n - 1) * w, n * w) =~= s.take(n * w));
    }
}

/// Records holding consecutive zero-padded chunks of `s` flatten back
/// to `s` followed by the final chunk's filler bits.
pub proof fn lemma_chunks_flatten(rs: Seq<Seq<bool>>, s: Seq<bool>, w: int)
    requires
        w >= 1,
        rs.len() * w >= s.len(),
        s.len() > (rs.len() - 1) * w,
        forall|j: int| 0 <= j < rs.len() ==> #[trigger] rs[j] == chunk_padded(s, w, j),
    ensures
        flatten_recs(rs) =~= s + zero_bits((rs.len() * w - s.len()) as nat),
{
    if rs.len() == 0 {
        assert(s.len() == 0);
        assert(zero_bits(0) =~= Seq::<bool>::empty());
        assert(flatten_recs(rs) =~= s + zero_bits(0));
    } else {
        let n = rs.len() as int;
        let rs0 = rs.take(n - 1);
        assert((n - 1) * w == n * w - w) by (nonlinear_arith);
        assert(rs0.len() * w <= s.len());
        assert forall|j: int| 0 <= j < rs0.len() implies #[trigger] rs0[j] == chunk_padded(
            s,
            w,
            j,
        ) by {
            assert(rs0[j] == rs[j]);
        }
        lemma_full_chunks(rs0, s, w);
        assert(rs0.push(rs[n - 1]) =~= rs);
        lemma_flatten_recs_push(rs0, rs[n - 1]);
        assert(rs[n - 1] == chunk_padded(s, w, n - 1));
        if n * w <= s.len() {
            assert(rs[n - 1] == s.subrange((n - 1) * w, n * w));
            assert(s.take((n - 1) * w) + s.subrange((n - 1) * w, n * w) =~= s);
            assert(zero_bits((rs.len() * w - s.len()) as nat) =~= Seq::<bool>::empty());
            assert(flatten_recs(rs) =~= s + zero_bits((rs.len() * w - s.len()) as nat));
        } else {
            assert(rs[n - 1] == s.subrange((n - 1) * w, s.len() as int) + zero_bits(
                (n * w - s.len()) as nat,
            ));
            assert(s.take((n - 1) * w) + (s.subrange((n - 1) * w, s.len() as int) + zero_bits(
                (n * w - s.len()) as nat,
            )) =~= s + zero_bits((n * w - s.len()) as nat));
        }
    }
}

/// A fixed-capacity array of optional fixed-width records. Records fill
/// the array contiguously from index 0; the `padding` counter records
/// how many trailing bits of the last filled record are filler.
#[derive(Debug)]
pub struct SlotStore {
    width: usize,
    slots: Vec<Option<BoxMonBitVec>>,
    filled: usize,
    padding: u8,
    read_cursor: usize,
}

impl SlotStore {
    /// The record width in bits.
    pub closed spec fn spec_width(self) -> int {
        self.width as int
    }

    /// How many records the store can hold.
    pub closed spec fn spec_capacity(self) -> int {
        self.slots@.len() as int
    }

    /// How many records are filled.
    pub closed spec fn spec_filled(self) -> int {
        self.filled as int
    }

    /// Filler bits at the end of the last filled record.
    pub closed spec fn spec_padding(self) -> int {
        self.padding as int
    }

    /// The reader's byte cursor.
    pub closed spec fn spec_cursor(self) -> int {
        self.read_cursor as int
    }

    /// The bits of each filled record, in order.
    pub closed spec fn spec_records(self) -> Seq<Seq<bool>> {
        Seq::new(self.filled as nat, |i: int| opt_bits(self.slots@[i]))
    }

    /// The payload bits the store holds: all filled records' bits with
    /// the final padding trimmed.
    pub closed spec fn content(self) -> Seq<bool> {
        flatten_recs(self.spec_records()).take(
            self.spec_filled() * self.spec_width() - self.spec_padding(),
        )
    }

    /// The stored payload as bytes; an incomplete final byte is
    /// zero-padded.
    pub open spec fn spec_data(self) -> Seq<u8> {
        bits_to_bytes(self.content())
    }

    /// Well-formedness: records fill a prefix, each at full width, the
    /// padding counter stays below the record width, and the read
    /// cursor stays inside the stored bytes.
    pub closed spec fn wf(self) -> bool {
        &&& 1 <= self.width <= 255
        &&& self.slots@.len() * self.width <= usize::MAX
        &&& self.filled <= self.slots@.len()
        &&& forall|i: int|
            0 <= i < self.filled ==> (#[trigger] self.slots@[i]) is Some && opt_bits(
                self.slots@[i],
            ).len() == self.width
        &&& forall|i: int| self.filled <= i < self.slots@.len() ==> (#[trigger] self.slots@[i]) is None
        &&& (self.filled == 0 ==> self.padding == 0)
        &&& (self.filled > 0 ==> (self.padding as int) < self.width)
        &&& self.read_cursor <= self.spec_data().len()
    }

    /// Bytes still appendable, counting whole bytes per free record.
    pub closed spec fn spec_remaining_bytes(self) -> int {
        (self.spec_capacity() - self.spec_filled()) * (self.spec_width() / 8)
    }

    /// The shape facts every well-formed store obeys.
    pub proof fn lemma_shape(self)
        requires
            self.wf(),
        ensures
            self.spec_records().len() == self.spec_filled(),
            forall|i: int|
                0 <= i < self.spec_filled() ==> (#[trigger] self.spec_records()[i]).len()
                    == self.spec_width(),
            flatten_recs(self.spec_records()).len() == self.spec_filled() * self.spec_width(),
            self.content().len() == self.spec_filled() * self.spec_width() - self.spec_padding(),
            self.content() == flatten_recs(self.spec_records()).take(
                self.spec_filled() * self.spec_width() - self.spec_padding(),
            ),
            0 <= self.spec_filled() <= self.spec_capacity(),
            0 <= self.spec_padding() < self.spec_width() || (self.spec_filled() == 0
                && self.spec_padding() == 0),
            self.spec_remaining_bytes() == (self.spec_capacity() - self.spec_filled()) * (
            self.spec_width() / 8),
            0 <= self.spec_cursor() <= self.spec_data().len(),
            1 <= self.spec_width() <= 255,
    {
        lemma_flatten_recs_len(self.spec_records(), self.spec_width());
        assert(self.spec_filled() * self.spec_width() >= self.spec_padding()) by {
            if self.filled > 0 {
                assert(self.spec_filled() * self.spec_width() >= 1 * self.spec_width())
                    by (nonlinear_arith)
                    requires
                        self.spec_filled() >= 1,
                        self.spec_width() >= 1,
                ;
            }
        }
    }

    /// A fresh store: `capacity` empty slots of the given record width.
    pub fn new(width: usize, capacity: usize) -> (r: SlotStore)
        requires
            1 <= width <= 255,
            capacity * width <= usize::MAX,
        ensures
            r.wf(),
            r.spec_width() == width,
            r.spec_capacity() == capacity,
            r.spec_filled() == 0,
            r.spec_padding() == 0,
            r.spec_cursor() == 0,
            r.content() =~= Seq::<bool>::empty(),
    {
        let mut slots: Vec<Option<BoxMonBitVec>> = Vec::new();
        let mut i: usize = 0;
        while i < capacity
            invariant
                0 <= i <= capacity,
                slots@.len() == i,
                forall|j: int| 0 <= j < i ==> (#[trigger] slots@[j]) is None,
            decreases capacity - i,
        {
            slots.push(None);
            i = i + 1;
        }
        let r = SlotStore { width, slots, filled: 0, padding: 0, read_cursor: 0 };
        proof {
            assert(r.spec_records() =~= Seq::<Seq<bool>>::empty());
            lemma_flatten_recs_len(r.spec_records(), width as int);
            assert(r.content() =~= Seq::<bool>::empty());
        }
        r
    }

    /// A store rebuilt from its parts: a prefix of full-width records,
    /// the padding of the last one, and a reader position.
    pub fn from_parts(
        width: usize,
        records: Vec<BoxMonBitVec>,
        padding: u8,
        capacity: usize,
        read_cursor: usize,
    ) -> (r: SlotStore)
        requires
            1 <= width <= 255,
            capacity * width <= usize::MAX,
            records@.len() <= capacity,
            forall|i: int| 0 <= i < records@.len() ==> (#[trigger] records@[i])@.len() == width,
            records@.len() == 0 ==> padding == 0,
            records@.len() > 0 ==> (padding as int) < width,
            read_cursor <= bits_to_bytes(
                flatten_recs(Seq::new(records@.len(), |i: int| records@[i]@)).take(
                    records@.len() * width - padding,
                ),
            ).len(),
        ensures
            r.wf(),
            r.spec_width() == width,
            r.spec_capacity() == capacity,
            r.spec_filled() == records@.len(),
            r.spec_padding() == padding,
            r.spec_cursor() == read_cursor,
            r.spec_records() =~= Seq::new(records@.len(), |i: int| records@[i]@),
    {
        let ghost orig = records@;
        let total = records.len();
        let mut records = records;
        let mut slots: Vec<Option<BoxMonBitVec>> = Vec::new();
        let mut i: usize = 0;
        while i < total
            invariant
                0 <= i <= total == orig.len() <= capacity,
                records@ =~= orig.skip(i as int),
                slots@.len() == i,
                forall|j: int| 0 <= j < i ==> (#[trigger] slots@[j]) == Some(orig[j]),
            decreases total - i,
        {
            let rec = records.remove(0);
            proof {
                assert(rec == orig.skip(i as int)[0]);
                assert(orig.skip(i as int)[0] == orig[i as int]);
                assert(orig.skip(i as int).skip(1) =~= orig.skip(i + 1));
            }
            slots.push(Some(rec));
            i = i + 1;
        }
        let mut k: usize = total;
        while k < capacity
            invariant
                total <= k <= capacity,
                slots@.len() == k,
                forall|j: int| 0 <= j < total ==> (#[trigger] slots@[j]) == Some(orig[j]),
                forall|j: int| total <= j < k ==> (#[trigger] slots@[j]) is None,
            decreases capacity - k,
        {
            slots.push(None);
            k = k + 1;
        }
        let r = SlotStore { width, slots, filled: total, padding, read_cursor };
        proof {
            assert(r.spec_records() =~= Seq::new(orig.len(), |i: int| orig[i]@));
        }
        r
    }

    /// The record width in bits.
    pub fn width(&self) -> (r: usize)
        ensures
            r == self.spec_width(),
    {
        self.width
    }

    /// How many records the store can hold.
    pub fn capacity(&self) -> (r: usize)
        ensures
            r == self.spec_capacity(),
    {
        self.slots.len()
    }

    /// How many records are filled.
    pub fn filled_count(&self) -> (r: usize)
        ensures
            r == self.spec_filled(),
    {
        self.filled
    }

    /// Filler bits at the end of the last filled record.
    pub fn padding_amount(&self) -> (r: u8)
        ensures
            r == self.spec_padding(),
    {
        self.padding
    }

    /// The reader's byte position.
    pub fn read_cursor(&self) -> (r: usize)
        ensures
            r == self.spec_cursor(),
    {
        self.read_cursor
    }

    /// Usable payload bytes for the whole store.
    pub fn capacity_bytes(&self) -> (r: usize)
        requires
            self.wf(),
        ensures
            r == self.spec_capacity() * (self.spec_width() / 8),
    {
        proof {
            assert(self.slots@.len() * (self.width / 8) <= self.slots@.len() * self.width)
                by (nonlinear_arith)
                requires
                    self.width >= 1,
            ;
        }
        self.slots.len() * (self.width / 8)
    }

    /// Bytes still appendable: whole bytes per free record.
    pub fn remaining_bytes(&self) -> (r: usize)
        requires
            self.wf(),
        ensures
            r == self.spec_remaining_bytes(),
    {
        proof {
            assert((self.slots@.len() - self.filled) * (self.width / 8) <= self.slots@.len()
                * self.width) by (nonlinear_arith)
                requires
                    self.width >= 1,
                    0 <= self.filled <= self.slots@.len(),
            ;
        }
        (self.slots.len() - self.filled) * (self.width / 8)
    }

    /// The bits of the `i`-th filled record.
    pub fn record_bits(&self, i: usize) -> (r: BoxMonBitVec)
        requires
            self.wf(),
            i < self.spec_filled(),
        ensures
            r@ == self.spec_records()[i as int],
    {
        match &self.slots[i] {
            Some(rec) => {
                let mut out: Vec<bool> = Vec::new();
                let mut k: usize = 0;
                while k < rec.0.len()
                    invariant
                        0 <= k <= rec@.len(),
                        out@ =~= rec@.take(k as int),
                    decreases rec@.len() - k,
                {
                    out.push(rec.0[k]);
                    proof {
                        assert(rec@.take(k as int).push(rec@[k as int]) =~= rec@.take(k + 1));
                    }
                    k = k + 1;
                }
                proof {
                    assert(rec@.take(rec@.len() as int) =~= rec@);
                }
                BoxMonBitVec(out)
            },
            None => {
                proof {
                    assert(false);
                }
                BoxMonBitVec(Vec::new())
            },
        }
    }

    /// All stored payload bits, padding trimmed.
    fn collect_content(&self) -> (r: Vec<bool>)
        requires
            self.wf(),
        ensures
            r@ == self.content(),
    {
        proof {
            self.lemma_shape();
        }
        let mut bits: Vec<bool> = Vec::new();
        let mut i: usize = 0;
        while i < self.filled
            invariant
                0 <= i <= self.filled,
                self.wf(),
                bits@ =~= flatten_recs(self.spec_records().take(i as int)),
                bits@.len() == i * self.spec_width(),
            decreases self.filled - i,
        {
            proof {
                lemma_flatten_recs_len(self.spec_records().take(i as int), self.spec_width());
                assert((i + 1) * self.spec_width() == i * self.spec_width() + self.spec_width())
                    by (nonlinear_arith);
            }
            match &self.slots[i] {
                Some(rec) => {
                    let mut k: usize = 0;
                    while k < rec.0.len()
                        invariant
                            0 <= k <= rec@.len(),
                            bits@ =~= flatten_recs(self.spec_records().take(i as int)) + rec@.take(
                                k as int,
                            ),
                        decreases rec@.len() - k,
                    {
                        bits.push(rec.0[k]);
                        proof {
                            assert(rec@.take(k as int).push(rec@[k as int]) =~= rec@.take(k + 1));
                        }
                        k = k + 1;
                    }
                    proof {
                        assert(rec@.take(rec@.len() as int) =~= rec@);
                        assert(opt_bits(self.slots@[i as int]) == rec@);
                        lemma_flatten_recs_push(self.spec_records().take(i as int), rec@);
                        assert(self.spec_records().take(i as int).push(
                            self.spec_records()[i as int],
                        ) =~= self.spec_records().take(i + 1));
                    }
                },
                None => {
                    proof {
                        assert(false);
                    }
                },
            }
            i = i + 1;
        }
        proof {
            assert(self.spec_records().take(self.filled as int) =~= self.spec_records());
            let ghost f = self.spec_filled();
            let ghost w = self.spec_width();
            let ghost c = self.spec_capacity();
            assert(f * w <= c * w) by (nonlinear_arith)
                requires
                    0 <= f <= c,
                    w >= 1,
            ;
        }
        let content_len = self.filled * self.width - self.padding as usize;
        bits.truncate(content_len);
        proof {
            assert(bits@ =~= self.content());
        }
        bits
    }

    /// Appends a byte payload. The payload's bits continue in the
    /// padded tail of the last record, then fill fresh records; the
    /// final record is zero-padded and the filler counted. Fails
    /// without mutation when the payload exceeds the remaining
    /// capacity.
    pub fn append(&mut self, payload: &Vec<u8>) -> (r: Result<usize, SlotStoreError>)
        requires
            old(self).wf(),
        ensures
            final(self).wf(),
            final(self).spec_width() == old(self).spec_width(),
            final(self).spec_capacity() == old(self).spec_capacity(),
            final(self).spec_cursor() == old(self).spec_cursor(),
            match r {
                Ok(n) => {
                    &&& n == payload@.len()
                    &&& payload@.len() <= old(self).spec_remaining_bytes()
                    &&& final(self).content() == old(self).content() + bytes_to_bits(payload@)
                    &&& final(self).spec_padding() == (final(self).spec_width() - (final(self).content().len() as int % final(self).spec_width())) % final(self).spec_width()
                    &&& final(self).spec_filled() * final(self).spec_width() == final(self).content().len() as int + final(self).spec_padding()
                    &&& (forall|j: int|
                        0 <= j < final(self).spec_filled()
                            ==> #[trigger] final(self).spec_records()[j] == chunk_padded(
                            final(self).content(),
                            final(self).spec_width(),
                            j,
                        ))
                },
                Err(e) => {
                    &&& e == SlotStoreError::CapacityExceeded
                    &&& *final(self) == *old(self)
                    &&& payload@.len() > old(self).spec_remaining_bytes()
                },
            },
    {
        proof {
            self.lemma_shape();
        }
        let need = payload.len();
        if self.remaining_bytes() < need {
            return Err(SlotStoreError::CapacityExceeded);
        }
        let w = self.width;
        let cap = self.slots.len();
        let ghost old_content = self.content();
        let mut newc = self.collect_content();
        let mut pb = BoxMonBitVec::new_from_raw(payload);
        proof {
            lemma_bytes_to_bits_len(payload@);
        }
        newc.append(&mut pb.0);
        let total = newc.len();
        let ghost of = old(self).spec_filled();
        let ghost op = old(self).spec_padding();
        proof {
            assert(newc@ == old_content + bytes_to_bits(payload@));
            assert(total == of * w - op + 8 * payload@.len());
            assert(payload@.len() <= (cap - of) * (w as int / 8));
            assert(total <= cap * w) by {
                assert(8 * ((cap - of) * (w as int / 8)) <= (cap - of) * w) by (nonlinear_arith)
                    requires
                        w >= 1,
                        cap - of >= 0,
                ;
                assert(of * w + (cap - of) * w == cap * w) by (nonlinear_arith);
            }
        }
        let quo = total / w;
        proof {
            vstd::arithmetic::div_mod::lemma_fundamental_div_mod(total as int, w as int);
            vstd::arithmetic::div_mod::lemma_mod_bound(total as int, w as int);
            assert(quo <= quo * w) by (nonlinear_arith)
                requires
                    quo >= 0,
                    w >= 1,
            ;
            assert(quo * w == w * quo) by (nonlinear_arith);
        }
        let n_slots = if total % w == 0 {
            quo
        } else {
            quo + 1
        };
        proof {
            assert(n_slots * w >= total && n_slots * w < total + w && n_slots <= cap) by (nonlinear_arith)
                requires
                    w >= 1,
                    total <= cap * w,
                    n_slots == total as int / w as int + (if total as int % w as int == 0 {
                        0int
                    } else {
                        1int
                    }),
            ;
            assert(of == 0 || total > (of - 1) * w) by (nonlinear_arith)
                requires
                    w >= 1,
                    of == 0 || (0 <= op < w && total >= of * w - op),
            ;
            assert(n_slots >= of) by (nonlinear_arith)
                requires
                    w >= 1,
                    n_slots * w >= total,
                    of == 0 || total > (of - 1) * w,
            ;
        }
        let bv = BoxMonBitVec(newc);
        let mut j: usize = 0;
        while j < n_slots
            invariant
                0 <= j <= n_slots <= cap,
                w == self.width,
                cap == self.slots@.len(),
                self.filled == old(self).filled,
                self.padding == old(self).padding,
                self.read_cursor == old(self).read_cursor,
                1 <= w <= 255,
                bv@.len() == total,
                n_slots * w >= total,
                n_slots * w < total + w,
                cap * w <= usize::MAX,
                forall|idx: int|
                    0 <= idx < j ==> (#[trigger] self.slots@[idx]) is Some && opt_bits(
                        self.slots@[idx],
                    ) == chunk_padded(bv@, w as int, idx),
                forall|idx: int| j <= idx < cap ==> #[trigger] self.slots@[idx] == old(self).slots@[idx],
            decreases n_slots - j,
        {
            proof {
                assert((j + 1) * w <= n_slots * w && j * w <= (n_slots - 1) * w && (j + 1) * w == j
                    * w + w) by (nonlinear_arith)
                    requires
                        0 <= j < n_slots,
                        w >= 1,
                ;
                assert(n_slots * w <= cap * w && (n_slots - 1) * w == n_slots * w - w)
                    by (nonlinear_arith)
                    requires
                        1 <= n_slots <= cap,
                        w >= 1,
                ;
                assert(j * w < total);
            }
            let lo = j * w;
            let hi = if (j + 1) * w <= total {
                (j + 1) * w
            } else {
                total
            };
            let mut cbv = bv.chunk(lo, hi);
            while cbv.0.len() < w
                invariant
                    hi - lo <= cbv@.len() <= w,
                    lo == j * w,
                    lo <= hi <= bv@.len(),
                    cbv@.subrange(0, (hi - lo) as int) =~= bv@.subrange(lo as int, hi as int),
                    forall|t: int| hi - lo <= t < cbv@.len() ==> cbv@[t] == false,
                decreases w - cbv@.len(),
            {
                cbv.0.push(false);
            }
            proof {
                if (j + 1) * w <= total {
                    assert(hi == (j + 1) * w);
                    assert(cbv@ =~= chunk_padded(bv@, w as int, j as int));
                } else {
                    assert(hi == total);
                    assert(cbv@ =~= bv@.subrange(lo as int, total as int) + zero_bits(
                        ((j + 1) * w - total) as nat,
                    ));
                    assert(cbv@ =~= chunk_padded(bv@, w as int, j as int));
                }
            }
            self.slots.set(j, Some(cbv));
            j = j + 1;
        }
        proof {
            assert(n_slots * w <= cap * w) by (nonlinear_arith)
                requires
                    n_slots <= cap,
                    w >= 1,
            ;
        }
        let pad = n_slots * w - total;
        self.filled = n_slots;
        self.padding = pad as u8;
        proof {
            let recs = self.spec_records();
            assert(recs.len() == n_slots);
            assert forall|idx: int| 0 <= idx < n_slots implies #[trigger] recs[idx] == chunk_padded(
                bv@,
                w as int,
                idx,
            ) by {
                assert(opt_bits(self.slots@[idx]) == chunk_padded(bv@, w as int, idx));
            }
            assert(total > (n_slots - 1) * w) by (nonlinear_arith)
                requires
                    n_slots * w < total + w,
                    w >= 1,
            ;
            lemma_chunks_flatten(recs, bv@, w as int);
            assert(flatten_recs(recs) =~= bv@ + zero_bits((n_slots * w - total) as nat));
            assert(self.content() =~= bv@) by {
                assert(flatten_recs(recs).take(n_slots * w - pad) =~= bv@);
            }
            assert(self.content() == old(self).content() + bytes_to_bits(payload@));
            assert(self.spec_padding() == (w - (total % w)) % (w as int)) by (nonlinear_arith)
                requires
                    w >= 1,
                    n_slots * w >= total,
                    n_slots * w < total + w,
                    self.spec_padding() == n_slots * w - total,
            ;
            assert forall|idx: int| 0 <= idx < n_slots implies (#[trigger] self.slots@[idx]) is Some
                && opt_bits(self.slots@[idx]).len() == w by {
                assert(opt_bits(self.slots@[idx]) == chunk_padded(bv@, w as int, idx));
                assert((idx + 1) * w == idx * w + w && idx * w <= (n_slots - 1) * w)
                    by (nonlinear_arith)
                    requires
                        0 <= idx < n_slots,
                        w >= 1,
                ;
                assert((n_slots - 1) * w == n_slots * w - w) by (nonlinear_arith);
            }
            assert forall|idx: int| n_slots <= idx < cap implies (#[trigger] self.slots@[idx]) is None by {
                assert(self.slots@[idx] == old(self).slots@[idx]);
            }
            assert(self.read_cursor <= self.spec_data().len()) by {
                lemma_bits_to_bytes_len(old(self).content());
                lemma_bits_to_bytes_len(self.content());
            }
        }
        Ok(need)
    }

    /// Copies stored bytes into the caller's buffer from the cursor on:
    /// as many as fit and remain. The rest of the buffer is untouched.
    /// Returns 0 at end of stream.
    pub fn read(&mut self, buf: &mut Vec<u8>) -> (n: usize)
        requires
            old(self).wf(),
        ensures
            final(self).wf(),
            final(self).spec_width() == old(self).spec_width(),
            final(self).spec_capacity() == old(self).spec_capacity(),
            final(self).spec_filled() == old(self).spec_filled(),
            final(self).spec_padding() == old(self).spec_padding(),
            final(self).spec_records() == old(self).spec_records(),
            final(self).content() == old(self).content(),
            n == vstd::math::min(
                old(buf)@.len() as int,
                old(self).spec_data().len() - old(self).spec_cursor(),
            ),
            final(self).spec_cursor() == old(self).spec_cursor() + n,
            final(buf)@.len() == old(buf)@.len(),
            forall|i: int|
                0 <= i < n ==> #[trigger] final(buf)@[i] == old(self).spec_data()[old(self).spec_cursor() + i],
            forall|i: int| n <= i < final(buf)@.len() ==> #[trigger] final(buf)@[i] == old(buf)@[i],
    {
        let content = self.collect_content();
        let cbv = BoxMonBitVec(content);
        let data = cbv.to_raw();
        let rem = data.len() - self.read_cursor;
        let n = if buf.len() < rem {
            buf.len()
        } else {
            rem
        };
        let data_len = data.len();
        let mut i: usize = 0;
        while i < n
            invariant
                0 <= i <= n,
                n <= buf@.len(),
                data@.len() == data_len,
                self.read_cursor + n <= data_len,
                data@ == self.spec_data(),
                buf@.len() == old(buf)@.len(),
                forall|t: int|
                    0 <= t < i ==> #[trigger] buf@[t] == data@[self.read_cursor as int + t],
                forall|t: int| i <= t < buf@.len() ==> #[trigger] buf@[t] == old(buf)@[t],
            decreases n - i,
        {
            buf.set(i, data[self.read_cursor + i]);
            i = i + 1;
        }
        self.read_cursor = self.read_cursor + n;
        n
    }

    /// All stored bytes from the cursor to the end of the stream; the
    /// cursor ends at the end of the stream.
    pub fn read_to_end(&mut self) -> (r: Vec<u8>)
        requires
            old(self).wf(),
        ensures
            final(self).wf(),
            final(self).spec_width() == old(self).spec_width(),
            final(self).spec_capacity() == old(self).spec_capacity(),
            final(self).spec_filled() == old(self).spec_filled(),
            final(self).spec_padding() == old(self).spec_padding(),
            final(self).spec_records() == old(self).spec_records(),
            final(self).content() == old(self).content(),
            r@ == old(self).spec_data().subrange(
                old(self).spec_cursor(),
                old(self).spec_data().len() as int,
            ),
            final(self).spec_cursor() == final(self).spec_data().len(),
    {
        let content = self.collect_content();
        let cbv = BoxMonBitVec(content);
        let data = cbv.to_raw();
        let mut out: Vec<u8> = Vec::new();
        let mut i: usize = self.read_cursor;
        while i < data.len()
            invariant
                old(self).spec_cursor() <= i <= data@.len(),
                data@ == self.spec_data(),
                self == old(self),
                out@ =~= data@.subrange(old(self).spec_cursor(), i as int),
            decreases data@.len() - i,
        {
            out.push(data[i]);
            proof {
                assert(data@.subrange(old(self).spec_cursor(), i as int).push(data@[i as int])
                    =~= data@.subrange(old(self).spec_cursor(), i + 1));
            }
            i = i + 1;
        }
        self.read_cursor = data.len();
        out
    }
}

} // verus!

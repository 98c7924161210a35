//! The column buffer itself: a flat value buffer of fixed-stride rows and a
//! parallel indicator array. Row `i` occupies the code units
//! `[i * (max_len + 1), i * (max_len + 1) + max_len]`; the slot at offset
//! `max_len` is reserved for a terminating zero.

use vstd::prelude::*;
use vstd::slice::slice_subrange;

use crate::element::TextElement;
use crate::indicator::{
    spec_indicator_from, valid_raw_indicator, Indicator, NO_TOTAL_SENTINEL, NULL_SENTINEL,
};

verus! {

/// Error reported by the fallible constructor when the requested buffer
/// cannot be allocated. Carries the requested element count and the size of
/// one element in bytes, so the caller can pick a smaller batch or a smaller
/// maximum length.
#[derive(Clone, Copy, Debug, PartialEq, Eq, Structural)]
pub struct TooLargeBufferSize {
    /// Number of rows the buffer was asked to hold.
    pub num_elements: usize,
    /// Size of one row in bytes, including the terminator slot; saturated at
    /// `usize::MAX` when even that product does not fit.
    pub element_size: usize,
}

/// A column buffer of single-byte characters; the encoding is the data
/// source's business, often the system locale's.
pub type CharColumn = TextColumn<u8>;

/// A column buffer of double-byte wide characters, which implies UTF-16.
pub type WCharColumn = TextColumn<u16>;

/// A buffer for one column of nullable, variable-length text, holding up to
/// `batch_size` rows of at most `max_len` code units each, plus a reserved
/// terminator slot per row.
#[derive(Debug)]
pub struct TextColumn<C> {
    /// Committed maximum value length in code units, without the terminator.
    max_str_len: usize,
    /// Flat backing storage of `(max_str_len + 1) * batch_size` code units.
    values: Vec<C>,
    /// One raw indicator word per row. A non-negative entry is a length in
    /// bytes and may exceed the committed capacity: that marks truncation.
    indicators: Vec<isize>,
}

impl<C: TextElement> TextColumn<C> {
    /// Committed maximum value length, in code units.
    pub closed spec fn spec_max_len(&self) -> nat {
        self.max_str_len as nat
    }

    /// Number of rows the buffer holds, fixed at construction.
    pub closed spec fn spec_batch_size(&self) -> nat {
        self.indicators@.len()
    }

    /// The flat backing storage, as a sequence of code units.
    pub closed spec fn values_seq(&self) -> Seq<C> {
        self.values@
    }

    /// The raw indicator words, one per row.
    pub closed spec fn raw_indicators(&self) -> Seq<isize> {
        self.indicators@
    }

    /// Distance in code units from one row's base offset to the next.
    pub open spec fn spec_stride(&self) -> int {
        self.spec_max_len() as int + 1
    }

    /// Base offset of a row in the flat backing storage.
    pub open spec fn spec_row_offset(&self, row: int) -> int {
        row * self.spec_stride()
    }

    /// The buffer's invariant: the backing storage covers exactly one stride
    /// per row, and every indicator word is meaningful.
    pub open spec fn wf(&self) -> bool {
        &&& self.values_seq().len() == self.spec_stride() * self.spec_batch_size()
        &&& self.values_seq().len() <= usize::MAX
        &&& self.spec_batch_size() <= usize::MAX
        &&& self.spec_max_len() < usize::MAX
        &&& forall|i: int|
            0 <= i < self.spec_batch_size() ==> valid_raw_indicator(
                #[trigger] self.raw_indicators()[i],
            )
    }

    /// The indicator of a row, classified.
    pub open spec fn spec_indicator_at(&self, row: int) -> Indicator {
        spec_indicator_from(self.raw_indicators()[row])
    }

    /// Length, in code units, of the data a row holds in the buffer: `None`
    /// for a null row; the full committed maximum when no total was reported;
    /// otherwise the reported byte length converted to code units and clamped
    /// to the committed maximum. The clamping is the single point where a
    /// truncated row's buffer length diverges from its reported length.
    pub open spec fn spec_content_length(&self, row: int) -> Option<int> {
        match self.spec_indicator_at(row) {
            Indicator::Null => None,
            Indicator::NoTotal => Some(self.spec_max_len() as int),
            Indicator::Length(nb) => Some(
                vstd::math::min(
                    self.spec_max_len() as int,
                    nb as int / C::spec_size() as int,
                ),
            ),
        }
    }

    /// The value a row holds in the buffer: `None` for a null row, otherwise
    /// exactly the row's content length of code units from its base offset.
    pub open spec fn spec_value_at(&self, row: int) -> Option<Seq<C>> {
        match self.spec_content_length(row) {
            None => None,
            Some(l) => Some(
                self.values_seq().subrange(
                    self.spec_row_offset(row),
                    self.spec_row_offset(row) + l,
                ),
            ),
        }
    }

    /// A row's content length never exceeds the committed maximum length.
    pub proof fn lemma_content_length_le_max(&self, row: int)
        ensures
            self.spec_content_length(row) matches Some(l) ==> 0 <= l
                <= self.spec_max_len(),
    {
        proof_of_size::<C>();
    }

    /// A row's slot lies inside the backing storage.
    pub proof fn lemma_row_in_bounds(&self, row: int)
        requires
            self.wf(),
            0 <= row < self.spec_batch_size(),
        ensures
            0 <= self.spec_row_offset(row),
            self.spec_row_offset(row) + self.spec_stride() <= self.values_seq().len(),
    {
        let s = self.spec_stride();
        let b = self.spec_batch_size() as int;
        assert(0 <= row * s && row * s + s <= b * s) by (nonlinear_arith)
            requires
                0 <= row < b,
                s >= 1,
        ;
    }

    /// A row's value and content length depend only on the committed maximum
    /// length, the row's indicator word, and the code units of the row's
    /// slot: two buffer states agreeing on those agree on the row.
    pub proof fn lemma_value_frame(c1: Self, c2: Self, row: int)
        requires
            c1.spec_max_len() == c2.spec_max_len(),
            0 <= row,
            row * c1.spec_stride() + c1.spec_stride() <= c1.values_seq().len(),
            row * c1.spec_stride() + c1.spec_stride() <= c2.values_seq().len(),
            c1.raw_indicators()[row] == c2.raw_indicators()[row],
            forall|j: int|
                c1.spec_row_offset(row) <= j < c1.spec_row_offset(row) + c1.spec_stride()
                    ==> c1.values_seq()[j] == c2.values_seq()[j],
        ensures
            c1.spec_content_length(row) == c2.spec_content_length(row),
            c1.spec_value_at(row) == c2.spec_value_at(row),
    {
        match c1.spec_content_length(row) {
            None => {},
            Some(l) => {
                c1.lemma_content_length_le_max(row);
                let off = c1.spec_row_offset(row);
                assert(c1.values_seq().subrange(off, off + l) =~= c2.values_seq().subrange(
                    off,
                    off + l,
                ));
            },
        }
    }

    /// Marks the rows of `[from, to)` as null. Their buffer bytes are left as
    /// they were; only the indicators change.
    pub fn fill_null(&mut self, from: usize, to: usize)
        requires
            old(self).wf(),
            to <= old(self).spec_batch_size(),
        ensures
            final(self).wf(),
            final(self).spec_max_len() == old(self).spec_max_len(),
            final(self).spec_batch_size() == old(self).spec_batch_size(),
            final(self).values_seq() == old(self).values_seq(),
            forall|i: int|
                0 <= i < final(self).spec_batch_size() && !(from <= i < to)
                    ==> final(self).raw_indicators()[i] == old(self).raw_indicators()[i],
            forall|i: int| from <= i < to ==> final(self).raw_indicators()[i] == NULL_SENTINEL,
            forall|i: int|
                from <= i < to ==> final(self).spec_value_at(i) is None && final(self).spec_content_length(i) is None,
            forall|i: int|
                0 <= i < final(self).spec_batch_size() && !(from <= i < to)
                    ==> final(self).spec_value_at(i) == old(self).spec_value_at(i) && final(self).spec_content_length(i) == old(self).spec_content_length(i),
    {
        let mut index = from;
        while index < to
            invariant
                from <= index,
                index <= to || index == from,
                to <= self.spec_batch_size(),
                self.wf(),
                self.spec_max_len() == old(self).spec_max_len(),
                self.spec_batch_size() == old(self).spec_batch_size(),
                self.values_seq() == old(self).values_seq(),
                forall|i: int|
                    0 <= i < self.spec_batch_size() && !(from <= i < index)
                        ==> self.raw_indicators()[i] == old(self).raw_indicators()[i],
                forall|i: int| from <= i < index ==> self.raw_indicators()[i] == NULL_SENTINEL,
            decreases to - index,
        {
            let ghost pre = *self;
            self.indicators[index] = NULL_SENTINEL;
            proof {
                assert(self.raw_indicators() == pre.raw_indicators().update(
                    index as int,
                    NULL_SENTINEL,
                ));
                assert forall|i: int| 0 <= i < self.spec_batch_size() && i != index implies self
                    .raw_indicators()[i] == pre.raw_indicators()[i] by {}
            }
            index = index + 1;
        }
    }

    /// Sets one row to null or to a copy of the given code units, which must
    /// fit the committed maximum length; a terminating zero is written behind
    /// the copied data and the indicator takes the value's length in bytes.
    pub fn set_value(&mut self, index: usize, input: Option<&[C]>)
        requires
            old(self).wf(),
            index < old(self).spec_batch_size(),
            input matches Some(d) ==> d@.len() <= old(self).spec_max_len() && d@.len()
                * C::spec_size() <= isize::MAX,
        ensures
            final(self).wf(),
            final(self).spec_max_len() == old(self).spec_max_len(),
            final(self).spec_batch_size() == old(self).spec_batch_size(),
            forall|r: int|
                0 <= r < final(self).spec_batch_size() && r != index ==> final(self).raw_indicators()[r] == old(self).raw_indicators()[r],
            forall|r: int|
                0 <= r < final(self).spec_batch_size() && r != index ==> final(self).spec_value_at(r) == old(self).spec_value_at(r) && final(self).spec_content_length(r) == old(self).spec_content_length(r),
            match input {
                None => {
                    &&& final(self).spec_value_at(index as int) is None
                    &&& final(self).spec_content_length(index as int) is None
                    &&& final(self).raw_indicators() == old(self).raw_indicators().update(
                        index as int,
                        NULL_SENTINEL,
                    )
                    &&& final(self).values_seq() == old(self).values_seq()
                },
                Some(d) => {
                    &&& final(self).spec_value_at(index as int) == Some(d@)
                    &&& final(self).spec_content_length(index as int) == Some(d@.len() as int)
                    &&& final(self).raw_indicators() == old(self).raw_indicators().update(
                        index as int,
                        (d@.len() * C::spec_size()) as isize,
                    )
                    &&& final(self).values_seq()[old(self).spec_row_offset(index as int)
                        + d@.len()] == C::spec_zero()
                    &&& forall|j: int|
                        0 <= j < final(self).values_seq().len() && !(old(self).spec_row_offset(
                            index as int,
                        ) <= j <= old(self).spec_row_offset(index as int) + d@.len()) ==> final(self).values_seq()[j] == old(self).values_seq()[j]
                },
            },
    {
        proof {
            self.lemma_row_in_bounds(index as int);
            proof_of_size::<C>();
        }
        match input {
            None => {
                self.indicators[index] = NULL_SENTINEL;
                proof {
                    self.frame_other_rows(*old(self), index as int);
                }
            },
            Some(data) => {
                let length = data.len();
                let bytes = length * C::size_in_bytes();
                self.indicators[index] = bytes as isize;
                let stride = self.max_str_len + 1;
                let start = index * stride;
                let mut j: usize = 0;
                while j < length
                    invariant
                        j <= length,
                        self.spec_max_len() == old(self).spec_max_len(),
                        self.spec_batch_size() == old(self).spec_batch_size(),
                        self.values_seq().len() == old(self).values_seq().len(),
                        self.wf(),
                        self.raw_indicators() == old(self).raw_indicators().update(
                            index as int,
                            bytes as isize,
                        ),
                        stride == self.spec_stride(),
                        start == self.spec_row_offset(index as int),
                        data@.len() == length,
                        length <= self.spec_max_len(),
                        start + stride <= self.values_seq().len(),
                        forall|t: int|
                            0 <= t < j ==> self.values_seq()[start + t] == data@[t],
                        forall|t: int|
                            0 <= t < self.values_seq().len() && !(start <= t < start + j)
                                ==> self.values_seq()[t] == old(self).values_seq()[t],
                    decreases length - j,
                {
                    self.values[start + j] = data[j];
                    j = j + 1;
                }
                self.values[start + length] = C::zero();
                proof {
                    self.frame_other_rows(*old(self), index as int);
                    lemma_content_of_written_row::<C>(*old(self), *self, index as int, data@);
                }
            },
        }
    }

    /// After a mutation that left the committed maximum length, the batch
    /// size, every other row's indicator, and every code unit outside row
    /// `index`'s slot unchanged, every other row reads as before.
    proof fn frame_other_rows(&self, pre: Self, index: int)
        requires
            pre.wf(),
            self.wf(),
            0 <= index < pre.spec_batch_size(),
            self.spec_max_len() == pre.spec_max_len(),
            self.spec_batch_size() == pre.spec_batch_size(),
            forall|r: int|
                0 <= r < pre.spec_batch_size() && r != index ==> self.raw_indicators()[r]
                    == pre.raw_indicators()[r],
            forall|t: int|
                0 <= t < pre.values_seq().len() && !(pre.spec_row_offset(index) <= t
                    < pre.spec_row_offset(index) + pre.spec_stride()) ==> self.values_seq()[t]
                    == pre.values_seq()[t],
        ensures
            forall|r: int|
                0 <= r < pre.spec_batch_size() && r != index ==> self.spec_value_at(r)
                    == pre.spec_value_at(r) && self.spec_content_length(r)
                    == pre.spec_content_length(r),
    {
        let s = pre.spec_stride();
        assert forall|r: int| 0 <= r < pre.spec_batch_size() && r != index implies
            self.spec_value_at(r) == pre.spec_value_at(r) && self.spec_content_length(r)
            == pre.spec_content_length(r) by {
            pre.lemma_row_in_bounds(r);
            self.lemma_row_in_bounds(r);
            if r < index {
                lemma_rows_disjoint(s, r, index);
            } else {
                lemma_rows_disjoint(s, index, r);
            }
            Self::lemma_value_frame(pre, *self, r);
        }
    }

    /// Allocates a column of `batch_size` rows with maximum value length
    /// `max_str_len`. The backing storage is zero-initialized and every
    /// indicator starts at zero, so every row reads as an empty value.
    pub fn new(batch_size: usize, max_str_len: usize) -> (r: Self)
        requires
            max_str_len + 1 <= usize::MAX,
            (max_str_len + 1) * batch_size <= usize::MAX,
        ensures
            r.wf(),
            r.spec_max_len() == max_str_len,
            r.spec_batch_size() == batch_size,
            forall|j: int| 0 <= j < r.values_seq().len() ==> r.values_seq()[j] == C::spec_zero(),
            forall|i: int| 0 <= i < batch_size ==> r.raw_indicators()[i] == 0isize,
    {
        let element_size: usize = max_str_len + 1;
        let len: usize = element_size * batch_size;
        let values = zeroed_vec::<C>(len);
        let indicators = zero_indicators(batch_size);
        TextColumn { max_str_len, values, indicators }
    }

    /// Like `new`, but reports a pathological size as an error instead of
    /// aborting: when the requested storage would not even be addressable, or
    /// when the allocator refuses it, the requested element count and the
    /// byte size of one element come back in the error.
    pub fn try_new(batch_size: usize, max_str_len: usize) -> (r: Result<
        Self,
        TooLargeBufferSize,
    >)
        ensures
            match r {
                Ok(col) => {
                    &&& col.wf()
                    &&& col.spec_max_len() == max_str_len
                    &&& col.spec_batch_size() == batch_size
                    &&& (max_str_len + 1) * batch_size <= usize::MAX
                    &&& forall|j: int|
                        0 <= j < col.values_seq().len() ==> col.values_seq()[j]
                            == C::spec_zero()
                    &&& forall|i: int|
                        0 <= i < batch_size ==> col.raw_indicators()[i] == 0isize
                },
                Err(e) => {
                    &&& e.num_elements == batch_size
                    &&& e.element_size == spec_element_bytes::<C>(max_str_len as int)
                },
            },
            max_str_len == usize::MAX ==> r is Err,
            (max_str_len + 1) * batch_size > usize::MAX ==> r is Err,
    {
        if max_str_len == usize::MAX {
            return Err(TooLargeBufferSize {
                num_elements: batch_size,
                element_size: element_bytes::<C>(max_str_len),
            });
        }
        let element_size: usize = max_str_len + 1;
        if batch_size > 0 && element_size > usize::MAX / batch_size {
            proof {
                let b = batch_size as int;
                let e = element_size as int;
                let q = usize::MAX as int / b;
                assert(e * b > usize::MAX) by (nonlinear_arith)
                    requires
                        b > 0,
                        e > q,
                        q == usize::MAX as int / b,
                ;
            }
            return Err(TooLargeBufferSize {
                num_elements: batch_size,
                element_size: element_bytes::<C>(max_str_len),
            });
        }
        proof {
            let b = batch_size as int;
            let e = element_size as int;
            if b == 0 {
                assert(e * b == 0) by (nonlinear_arith)
                    requires
                        b == 0,
                ;
            } else {
                let q = usize::MAX as int / b;
                assert(e <= q ==> e * b <= usize::MAX) by (nonlinear_arith)
                    requires
                        b > 0,
                        q == usize::MAX as int / b,
                ;
            }
        }
        let len: usize = element_size * batch_size;
        let mut values: Vec<C> = Vec::new();
        if values.try_reserve(len).is_err() {
            return Err(TooLargeBufferSize {
                num_elements: batch_size,
                element_size: element_bytes::<C>(max_str_len),
            });
        }
        let zero = C::zero();
        let mut i: usize = 0;
        while i < len
            invariant
                i <= len,
                values@.len() == i,
                zero == C::spec_zero(),
                forall|j: int| 0 <= j < i ==> values@[j] == C::spec_zero(),
            decreases len - i,
        {
            values.push(zero);
            i = i + 1;
        }
        let indicators = zero_indicators(batch_size);
        Ok(TextColumn { max_str_len, values, indicators })
    }

    /// Committed maximum value length, in code units.
    pub fn max_len(&self) -> (r: usize)
        ensures
            r == self.spec_max_len(),
    {
        self.max_str_len
    }

    /// Number of rows the buffer holds.
    pub fn capacity(&self) -> (r: usize)
        ensures
            r == self.spec_batch_size(),
    {
        self.indicators.len()
    }

    /// Discards all content: reallocates the backing storage for the new
    /// maximum length, zero-initialized, and marks every row null. The cheap
    /// alternative to `resize_max_str` when nothing needs preserving.
    pub fn set_max_len(&mut self, new_max_len: usize)
        requires
            old(self).wf(),
            new_max_len < usize::MAX,
            (new_max_len + 1) * old(self).spec_batch_size() <= usize::MAX,
        ensures
            final(self).wf(),
            final(self).spec_batch_size() == old(self).spec_batch_size(),
            final(self).spec_max_len() == new_max_len,
            final(self).values_seq().len() == (new_max_len + 1) * old(self).spec_batch_size(),
            forall|j: int|
                0 <= j < final(self).values_seq().len() ==> final(self).values_seq()[j]
                    == C::spec_zero(),
            forall|i: int|
                0 <= i < final(self).spec_batch_size() ==> final(self).raw_indicators()[i]
                    == NULL_SENTINEL && final(self).spec_value_at(i) is None && final(self).spec_content_length(i) is None,
    {
        let batch_size = self.indicators.len();
        let new_values = zeroed_vec::<C>((new_max_len + 1) * batch_size);
        self.fill_null(0, batch_size);
        self.values = new_values;
        self.max_str_len = new_max_len;
    }

    /// Reallocates the backing storage for a new committed maximum length and
    /// migrates the first `num_rows` rows into the new layout; all other
    /// positions of the new storage are zero. Indicators are never rewritten
    /// by this operation: a row whose reported length already exceeded the
    /// old capacity keeps reading as truncated, and rows beyond `num_rows`
    /// keep their indicator although their bytes are gone.
    pub fn resize_max_str(&mut self, new_max_str_len: usize, num_rows: usize)
        requires
            old(self).wf(),
            new_max_str_len < usize::MAX,
            (new_max_str_len + 1) * old(self).spec_batch_size() <= usize::MAX,
        ensures
            final(self).wf(),
            final(self).spec_max_len() == new_max_str_len,
            final(self).spec_batch_size() == old(self).spec_batch_size(),
            final(self).raw_indicators() == old(self).raw_indicators(),
            forall|r: int|
                0 <= r < final(self).spec_batch_size() ==> #[trigger] slot_of(
                    final(self).values_seq(),
                    final(self).spec_stride(),
                    r,
                ) == (if r < num_rows {
                    spec_resized_row(*old(self), r, new_max_str_len as int)
                } else {
                    spec_zero_row::<C>(new_max_str_len + 1)
                }),
            rows_preserved(*old(self), *final(self), num_rows as int),
    {
        let batch_size = self.indicators.len();
        let new_stride = new_max_str_len + 1;
        let total = new_stride * batch_size;
        let mut new_values = zeroed_vec::<C>(total);
        let n = if num_rows < batch_size {
            num_rows
        } else {
            batch_size
        };
        let old_stride = self.max_str_len + 1;
        let max_copy_length = if self.max_str_len < new_max_str_len {
            self.max_str_len
        } else {
            new_max_str_len
        };
        let cs = C::size_in_bytes();
        let mut r: usize = 0;
        while r < n
            invariant
                *self == *old(self),
                self.wf(),
                r <= n,
                n <= batch_size,
                n <= num_rows,
                n == vstd::math::min(num_rows as int, batch_size as int),
                batch_size == self.spec_batch_size(),
                old_stride == self.spec_stride(),
                new_stride == new_max_str_len + 1,
                new_max_str_len < usize::MAX,
                total == new_stride * batch_size,
                1 <= cs <= 2,
                cs == C::spec_size(),
                max_copy_length == vstd::math::min(
                    self.spec_max_len() as int,
                    new_max_str_len as int,
                ),
                new_values@.len() == total,
                forall|k: int| r * new_stride <= k < total ==> new_values@[k] == C::spec_zero(),
                forall|rr: int|
                    0 <= rr < r ==> #[trigger] slot_of(new_values@, new_stride as int, rr)
                        == spec_resized_row(*old(self), rr, new_max_str_len as int),
            decreases n - r,
        {
            proof {
                lemma_slot_in_bounds(new_stride as int, r as int, batch_size as int);
                self.lemma_row_in_bounds(r as int);
                proof_of_size::<C>();
            }
            let ind = self.indicators[r];
            proof {
                assert(ind == self.raw_indicators()[r as int]);
            }
            let copy_len = match Indicator::from_isize(ind) {
                Indicator::Null => 0usize,
                Indicator::NoTotal => max_copy_length,
                Indicator::Length(nb) => {
                    let c = nb / cs;
                    if c < max_copy_length {
                        c
                    } else {
                        max_copy_length
                    }
                },
            };
            assert(copy_len as int == spec_copy_len::<C>(
                self.raw_indicators()[r as int],
                self.spec_max_len() as int,
                new_max_str_len as int,
            ));
            let ghost outer_vals = new_values@;
            let base_new = r * new_stride;
            let base_old = r * old_stride;
            let mut j: usize = 0;
            while j < copy_len
                invariant
                    *self == *old(self),
                    self.wf(),
                    j <= copy_len,
                    copy_len <= max_copy_length,
                    max_copy_length <= self.spec_max_len(),
                    max_copy_length <= new_max_str_len,
                    new_stride == new_max_str_len + 1,
                    old_stride == self.spec_stride(),
                    base_new == r * new_stride,
                    base_old == r * old_stride,
                    base_new + new_stride <= total,
                    base_old + old_stride <= self.values_seq().len(),
                    new_values@.len() == total,
                    forall|k: int| 0 <= k < base_new ==> new_values@[k] == outer_vals[k],
                    forall|k: int|
                        base_new + j <= k < total ==> new_values@[k] == C::spec_zero(),
                    forall|k: int|
                        base_new <= k < base_new + j ==> new_values@[k] == self.values_seq()[
                            base_old + (k - base_new)
                        ],
                decreases copy_len - j,
            {
                new_values[base_new + j] = self.values[base_old + j];
                j = j + 1;
            }
            proof {
                assert(slot_of(new_values@, new_stride as int, r as int) =~= spec_resized_row(
                    *old(self),
                    r as int,
                    new_max_str_len as int,
                ));
                assert forall|rr: int| 0 <= rr < r implies #[trigger] slot_of(
                    new_values@,
                    new_stride as int,
                    rr,
                ) == spec_resized_row(*old(self), rr, new_max_str_len as int) by {
                    lemma_rows_disjoint(new_stride as int, rr, r as int);
                    lemma_slot_in_bounds(new_stride as int, rr, batch_size as int);
                    assert(slot_of(new_values@, new_stride as int, rr) =~= slot_of(
                        outer_vals,
                        new_stride as int,
                        rr,
                    ));
                }
                assert((r + 1) * new_stride == r * new_stride + new_stride) by (nonlinear_arith);
            }
            r = r + 1;
        }
        let ghost nv = new_values@;
        self.values = new_values;
        self.max_str_len = new_max_str_len;
        proof {
            let post = *self;
            let pre = *old(self);
            let ns = new_stride as int;
            assert(post.values_seq() == nv);
            assert(post.raw_indicators() == pre.raw_indicators());
            assert(post.values_seq().len() == total);
            assert(post.spec_stride() == ns);
            assert(post.values_seq().len() == post.spec_stride() * post.spec_batch_size());
            assert forall|i: int|
                0 <= i < post.spec_batch_size() implies valid_raw_indicator(
                #[trigger] post.raw_indicators()[i],
            ) by {
                assert(post.raw_indicators()[i] == pre.raw_indicators()[i]);
            }
            assert(post.wf());
            assert forall|rr: int| 0 <= rr < post.spec_batch_size() implies #[trigger] slot_of(
                post.values_seq(),
                post.spec_stride(),
                rr,
            ) == (if rr < num_rows {
                spec_resized_row(pre, rr, new_max_str_len as int)
            } else {
                spec_zero_row::<C>(new_max_str_len + 1)
            }) by {
                if rr >= n {
                    lemma_slot_in_bounds(ns, rr, batch_size as int);
                    assert(batch_size as int * ns == ns * batch_size as int) by (nonlinear_arith);
                    assert(n * ns <= rr * ns) by (nonlinear_arith)
                        requires
                            0 <= n <= rr,
                            ns >= 1,
                    ;
                    assert(rr * ns + ns <= total);
                    assert forall|t: int| 0 <= t < ns implies #[trigger] slot_of(
                        post.values_seq(),
                        ns,
                        rr,
                    )[t] == spec_zero_row::<C>(ns)[t] by {
                        assert(slot_of(post.values_seq(), ns, rr)[t] == nv[rr * ns + t]);
                        assert(n * ns <= rr * ns + t < total);
                    }
                    assert(slot_of(post.values_seq(), ns, rr) =~= spec_zero_row::<C>(ns));
                }
            }
            assert forall|rr: int| 0 <= rr < num_rows && rr < post.spec_batch_size() implies
                #[trigger] prefix_preserved(pre, post, rr) && exact_row_preserved(
                pre,
                post,
                rr,
            ) by {
                lemma_resize_row_preserved(pre, post, rr, num_rows as int);
            }
            assert(rows_preserved(pre, post, num_rows as int));
        }
    }

    /// Sets one row like `set_value`, but a value longer than the committed
    /// maximum does not violate the contract: the buffer first grows to
    /// `grow_len` of the value's length, migrating only the rows before
    /// `index`. This assumes sequential, in-order filling from row zero: on
    /// growth, rows after `index` keep their indicators while their bytes are
    /// zeroed.
    pub fn append(&mut self, index: usize, text: Option<&[C]>)
        requires
            old(self).wf(),
            index < old(self).spec_batch_size(),
            text matches Some(t) ==> t@.len() * C::spec_size() <= isize::MAX,
            text matches Some(t) ==> (t@.len() > old(self).spec_max_len() ==> spec_grow(
                t@.len() as int,
            ) < usize::MAX && (spec_grow(t@.len() as int) + 1) * old(self).spec_batch_size()
                <= usize::MAX),
        ensures
            final(self).wf(),
            final(self).spec_batch_size() == old(self).spec_batch_size(),
            forall|r: int|
                0 <= r < old(self).spec_batch_size() && r != index ==> final(self).raw_indicators()[r] == old(self).raw_indicators()[r],
            (match text {
                Some(t) => t@.len() <= old(self).spec_max_len(),
                None => true,
            }) ==> final(self).spec_max_len() == old(self).spec_max_len() && (forall|r: int|
                0 <= r < old(self).spec_batch_size() && r != index ==> final(self).spec_value_at(
                    r,
                ) == old(self).spec_value_at(r) && final(self).spec_content_length(r) == old(
                    self,
                ).spec_content_length(r)),
            match text {
                None => {
                    &&& final(self).spec_value_at(index as int) is None
                    &&& final(self).spec_content_length(index as int) is None
                    &&& final(self).values_seq() == old(self).values_seq()
                    &&& final(self).raw_indicators() == old(self).raw_indicators().update(
                        index as int,
                        NULL_SENTINEL,
                    )
                },
                Some(t) => {
                    &&& final(self).spec_max_len() >= t@.len()
                    &&& final(self).spec_value_at(index as int) == Some(t@)
                    &&& final(self).spec_content_length(index as int) == Some(t@.len() as int)
                    &&& final(self).raw_indicators() == old(self).raw_indicators().update(
                        index as int,
                        (t@.len() * C::spec_size()) as isize,
                    )
                    &&& t@.len() > old(self).spec_max_len() ==> final(self).spec_max_len()
                        == spec_grow(t@.len() as int) && rows_preserved(
                        *old(self),
                        *final(self),
                        index as int,
                    )
                },
            },
    {
        match text {
            Some(t) => {
                proof {
                    proof_of_size::<C>();
                }
                let grew = t.len() > self.max_str_len;
                if grew {
                    let new_max = grow_len(t.len());
                    self.resize_max_str(new_max, index);
                }
                let ghost mid = *self;
                self.set_value(index, Some(t));
                proof {
                    if grew {
                        let pre = *old(self);
                        let post = *self;
                        let fs = mid.spec_stride();
                        assert forall|r: int|
                            0 <= r < index && r < pre.spec_batch_size() implies #[trigger]
                        prefix_preserved(pre, post, r) && exact_row_preserved(pre, post, r) by {
                            assert(prefix_preserved(pre, mid, r));
                            assert(exact_row_preserved(pre, mid, r));
                            mid.lemma_row_in_bounds(r);
                            post.lemma_row_in_bounds(r);
                            lemma_rows_disjoint(fs, r, index as int);
                            assert(slot_of(post.values_seq(), fs, r) =~= slot_of(
                                mid.values_seq(),
                                fs,
                                r,
                            ));
                            assert(post.spec_value_at(r) == mid.spec_value_at(r));
                            assert(post.spec_content_length(r) == mid.spec_content_length(r));
                        }
                        assert(rows_preserved(pre, post, index as int));
                    }
                }
            },
            None => {
                self.set_value(index, None);
            },
        }
    }

    /// Prepares one row for in-place writing of exactly `length` code units
    /// and hands out the row's mutable data range: the indicator takes the
    /// length in bytes and a terminating zero is written behind the range,
    /// whose previous content is left for the caller to overwrite. Once the
    /// returned slice is released, `lemma_reserved_row` turns this contract
    /// into the row reading back as whatever was written.
    pub fn set_mut(&mut self, index: usize, length: usize) -> (r: &mut [C])
        requires
            old(self).wf(),
            index < old(self).spec_batch_size(),
            length <= old(self).spec_max_len(),
            length * C::spec_size() <= isize::MAX,
        ensures
            r@ == old(self).values_seq().subrange(
                old(self).spec_row_offset(index as int),
                old(self).spec_row_offset(index as int) + length,
            ),
            final(r)@.len() == length,
            final(self).spec_max_len() == old(self).spec_max_len(),
            final(self).spec_batch_size() == old(self).spec_batch_size(),
            final(self).raw_indicators() == old(self).raw_indicators().update(
                index as int,
                (length * C::spec_size()) as isize,
            ),
            final(self).values_seq() == spec_spliced(
                old(self).values_seq().update(
                    old(self).spec_row_offset(index as int) + length,
                    C::spec_zero(),
                ),
                old(self).spec_row_offset(index as int),
                old(self).spec_row_offset(index as int) + length,
                final(r)@,
            ),
    {
        proof {
            self.lemma_row_in_bounds(index as int);
            proof_of_size::<C>();
        }
        let bytes = length * C::size_in_bytes();
        self.indicators[index] = bytes as isize;
        let stride = self.max_str_len + 1;
        let start = index * stride;
        let end = start + length;
        self.values[end] = C::zero();
        let r = crate::sliceops::vec_subrange_mut(&mut self.values, start, end);
        proof {
            assert(r@ =~= old(self).values_seq().subrange(start as int, end as int));
        }
        r
    }

    /// The row as read back after a `set_mut` whose returned range was filled
    /// with `written`: exactly `written`, with every other row untouched.
    pub proof fn lemma_reserved_row(pre: Self, post: Self, index: int, length: int, written: Seq<C>)
        requires
            pre.wf(),
            0 <= index < pre.spec_batch_size(),
            0 <= length <= pre.spec_max_len(),
            length * C::spec_size() <= isize::MAX,
            written.len() == length,
            post.spec_max_len() == pre.spec_max_len(),
            post.spec_batch_size() == pre.spec_batch_size(),
            post.raw_indicators() == pre.raw_indicators().update(
                index,
                (length * C::spec_size()) as isize,
            ),
            post.values_seq() == spec_spliced(
                pre.values_seq().update(pre.spec_row_offset(index) + length, C::spec_zero()),
                pre.spec_row_offset(index),
                pre.spec_row_offset(index) + length,
                written,
            ),
        ensures
            post.wf(),
            post.spec_value_at(index) == Some(written),
            post.spec_content_length(index) == Some(length),
            post.values_seq()[pre.spec_row_offset(index) + length] == C::spec_zero(),
            forall|r2: int|
                0 <= r2 < pre.spec_batch_size() && r2 != index ==> post.spec_value_at(r2) == pre
                    .spec_value_at(r2) && post.spec_content_length(r2) == pre.spec_content_length(
                    r2,
                ) && post.raw_indicators()[r2] == pre.raw_indicators()[r2],
    {
        proof_of_size::<C>();
        pre.lemma_row_in_bounds(index);
        let off = pre.spec_row_offset(index);
        let len0 = pre.values_seq().len() as int;
        let base = pre.values_seq().update(off + length, C::spec_zero());
        assert(post.values_seq().len() == len0);
        assert forall|k: int| 0 <= k < len0 implies #[trigger] post.values_seq()[k] == (if off <= k
            < off + length {
            written[k - off]
        } else if k == off + length {
            C::spec_zero()
        } else {
            pre.values_seq()[k]
        }) by {
            if k < off {
                assert(post.values_seq()[k] == base.subrange(0, off)[k]);
            } else if k < off + length {
                assert(post.values_seq()[k] == written[k - off]);
            } else {
                assert(post.values_seq()[k] == base.subrange(off + length, len0)[k - (off
                    + length)]);
            }
        }
        assert forall|i: int| 0 <= i < post.spec_batch_size() implies valid_raw_indicator(
            #[trigger] post.raw_indicators()[i],
        ) by {
            if i != index {
                assert(post.raw_indicators()[i] == pre.raw_indicators()[i]);
            }
        }
        assert(post.wf());
        lemma_content_of_written_row::<C>(pre, post, index, written);
        post.frame_other_rows(pre, index);
    }

    /// The indicator of a row. A length held in it refers to the value at the
    /// data source and may exceed the committed maximum length: that is how a
    /// caller detects truncation.
    pub fn indicator_at(&self, row_index: usize) -> (r: Indicator)
        requires
            self.wf(),
            row_index < self.spec_batch_size(),
        ensures
            r == self.spec_indicator_at(row_index as int),
    {
        Indicator::from_isize(self.indicators[row_index])
    }

    /// Length, in code units, of the data a row holds in the buffer. Unlike
    /// the indicator this is always clamped to the committed maximum length.
    pub fn content_length_at(&self, row_index: usize) -> (r: Option<usize>)
        requires
            self.wf(),
            row_index < self.spec_batch_size(),
        ensures
            r is Some <==> self.spec_content_length(row_index as int) is Some,
            r matches Some(l) ==> self.spec_content_length(row_index as int) == Some(l as int),
    {
        match self.indicator_at(row_index) {
            Indicator::Null => None,
            Indicator::NoTotal => Some(self.max_str_len),
            Indicator::Length(length_in_bytes) => {
                let length_in_chars = length_in_bytes / C::size_in_bytes();
                let length = if length_in_chars < self.max_str_len {
                    length_in_chars
                } else {
                    self.max_str_len
                };
                Some(length)
            },
        }
    }

    /// The value a row holds in the buffer: `None` for a null row, otherwise
    /// the slice of exactly the row's content length starting at the row's
    /// base offset. Interior zeros are included, the terminator is not.
    pub fn value_at(&self, row_index: usize) -> (r: Option<&[C]>)
        requires
            self.wf(),
            row_index < self.spec_batch_size(),
        ensures
            match r {
                None => self.spec_value_at(row_index as int) is None,
                Some(s) => self.spec_value_at(row_index as int) == Some(s@),
            },
    {
        match self.content_length_at(row_index) {
            None => None,
            Some(length) => {
                proof {
                    self.lemma_row_in_bounds(row_index as int);
                    self.lemma_content_length_le_max(row_index as int);
                }
                let offset = row_index * (self.max_str_len + 1);
                Some(slice_subrange(self.values.as_slice(), offset, offset + length))
            },
        }
    }

    /// The raw indicator words, one per row, for reading out or copying into
    /// another binding representation.
    pub fn raw_indicator_buffer(&self) -> (r: &Vec<isize>)
        ensures
            r@ == self.raw_indicators(),
    {
        &self.indicators
    }

    /// Dismantles the column into its raw parts: the committed maximum
    /// length, the value buffer and the indicator array. This is the guard
    /// for the external bulk transfer, which works on the buffers through raw
    /// pointers: while the column is dismantled no operation of this type can
    /// run, so nothing can reallocate the buffers under the transfer.
    /// `from_raw_parts` reassembles the column afterwards, revalidating its
    /// invariant.
    pub fn into_raw_parts(self) -> (t: (usize, Vec<C>, Vec<isize>))
        ensures
            t.0 == self.spec_max_len(),
            t.1@ == self.values_seq(),
            t.2@ == self.raw_indicators(),
    {
        (self.max_str_len, self.values, self.indicators)
    }

    /// Reassembles a column from raw parts, accepting them only if they form
    /// a well-formed buffer: one stride of values per indicator word, and
    /// every indicator word meaningful.
    pub fn from_raw_parts(max_str_len: usize, values: Vec<C>, indicators: Vec<isize>) -> (r:
        Option<Self>)
        ensures
            match r {
                Some(col) => {
                    &&& col.wf()
                    &&& col.spec_max_len() == max_str_len
                    &&& col.values_seq() == values@
                    &&& col.raw_indicators() == indicators@
                },
                None => !({
                    &&& max_str_len < usize::MAX
                    &&& values@.len() == (max_str_len + 1) * indicators@.len()
                    &&& forall|i: int|
                        0 <= i < indicators@.len() ==> valid_raw_indicator(#[trigger] indicators@[i])
                }),
            },
    {
        if max_str_len == usize::MAX {
            return None;
        }
        let element_size: usize = max_str_len + 1;
        let batch_size = indicators.len();
        if batch_size == 0 {
            if values.len() != 0 {
                proof {
                    assert(element_size as int * 0 == 0) by (nonlinear_arith);
                }
                return None;
            }
            proof {
                assert(element_size as int * 0 == 0) by (nonlinear_arith);
            }
        } else {
            let quotient = values.len() / batch_size;
            if element_size > quotient {
                proof {
                    let e = element_size as int;
                    let b = batch_size as int;
                    let l = values@.len() as int;
                    assert(e * b > l) by (nonlinear_arith)
                        requires
                            b > 0,
                            e > l / b,
                            l >= 0,
                    ;
                }
                return None;
            }
            proof {
                let e = element_size as int;
                let b = batch_size as int;
                let l = values@.len() as int;
                assert(e <= l / b ==> e * b <= l) by (nonlinear_arith)
                    requires
                        b > 0,
                        l >= 0,
                ;
            }
            if element_size * batch_size != values.len() {
                return None;
            }
        }
        let mut i: usize = 0;
        while i < batch_size
            invariant
                i <= batch_size,
                batch_size == indicators@.len(),
                forall|k: int| 0 <= k < i ==> valid_raw_indicator(#[trigger] indicators@[k]),
            decreases batch_size - i,
        {
            let raw = indicators[i];
            if !(raw == NULL_SENTINEL || raw == NO_TOTAL_SENTINEL || raw >= 0) {
                return None;
            }
            i = i + 1;
        }
        Some(TextColumn { max_str_len, values, indicators })
    }

    /// The flat backing storage for the first `num_valid_rows` rows. Each row
    /// is padded to the full stride; the padding's content beyond a row's
    /// content length is whatever earlier writes left there.
    pub fn raw_value_buffer(&self, num_valid_rows: usize) -> (r: &[C])
        requires
            self.wf(),
            num_valid_rows <= self.spec_batch_size(),
        ensures
            r@ == self.values_seq().subrange(
                0,
                self.spec_stride() * num_valid_rows,
            ),
    {
        proof {
            let s = self.spec_stride();
            let n = num_valid_rows as int;
            let b = self.spec_batch_size() as int;
            assert(s * n <= s * b) by (nonlinear_arith)
                requires
                    s >= 1,
                    0 <= n <= b,
            ;
        }
        let end = (self.max_str_len + 1) * num_valid_rows;
        slice_subrange(self.values.as_slice(), 0, end)
    }
}

/// Growth policy for `append`: the required length plus one fifth of it as
/// slack, so that repeated small overflows do not each force a reallocation.
pub open spec fn spec_grow(required: int) -> int {
    required + required / 5
}

/// Growth policy for `append`, executable form.
pub fn grow_len(required: usize) -> (r: usize)
    requires
        spec_grow(required as int) <= usize::MAX,
    ensures
        r == spec_grow(required as int),
        r >= required,
{
    required + required / 5
}

/// `base` with the range `[start, end)` replaced by `mid`.
pub open spec fn spec_spliced<C>(base: Seq<C>, start: int, end: int, mid: Seq<C>) -> Seq<C> {
    base.subrange(0, start) + mid + base.subrange(end, base.len() as int)
}

/// One row's slot of a flat backing storage with the given stride.
pub open spec fn slot_of<C>(vals: Seq<C>, stride: int, r: int) -> Seq<C> {
    vals.subrange(r * stride, r * stride + stride)
}

/// Number of code units `resize_max_str` carries over for a row with raw
/// indicator `raw` when the committed maximum goes from `old_max` to
/// `new_max`: nothing for a null row; the smaller committed maximum for a row
/// without a reported total; for a reported byte length, that length in code
/// units, capped by the smaller committed maximum.
pub open spec fn spec_copy_len<C: TextElement>(raw: isize, old_max: int, new_max: int) -> int {
    match spec_indicator_from(raw) {
        Indicator::Null => 0,
        Indicator::NoTotal => vstd::math::min(old_max, new_max),
        Indicator::Length(nb) => vstd::math::min(
            nb as int / C::spec_size() as int,
            vstd::math::min(old_max, new_max),
        ),
    }
}

/// The slot a resize to committed maximum `new_max` leaves for row `r`: the
/// carried-over prefix of the old slot, zero-padded to the new stride.
pub open spec fn spec_resized_row<C: TextElement>(
    pre: TextColumn<C>,
    r: int,
    new_max: int,
) -> Seq<C> {
    Seq::new(
        (new_max + 1) as nat,
        |j: int|
            if j < spec_copy_len::<C>(
                pre.raw_indicators()[r],
                pre.spec_max_len() as int,
                new_max,
            ) {
                pre.values_seq()[pre.spec_row_offset(r) + j]
            } else {
                C::spec_zero()
            },
    )
}

/// A zero-filled slot of the given stride.
pub open spec fn spec_zero_row<C: TextElement>(stride: int) -> Seq<C> {
    Seq::new(stride as nat, |j: int| C::spec_zero())
}

/// Across a resize, the bytes a row's content occupied keep their positions
/// within the row's slot, as far as the new committed maximum allows.
pub open spec fn prefix_preserved<C: TextElement>(
    pre: TextColumn<C>,
    post: TextColumn<C>,
    r: int,
) -> bool {
    match pre.spec_content_length(r) {
        None => true,
        Some(l) => l <= post.spec_max_len() ==> slot_of(
            post.values_seq(),
            post.spec_stride(),
            r,
        ).subrange(0, l) == slot_of(pre.values_seq(), pre.spec_stride(), r).subrange(0, l),
    }
}

/// Across a resize, a row with an exactly reported length that fits both the
/// old and the new committed maximum reads back unchanged.
pub open spec fn exact_row_preserved<C: TextElement>(
    pre: TextColumn<C>,
    post: TextColumn<C>,
    r: int,
) -> bool {
    match spec_indicator_from(pre.raw_indicators()[r]) {
        Indicator::Length(nb) => nb as int / C::spec_size() as int <= vstd::math::min(
            pre.spec_max_len() as int,
            post.spec_max_len() as int,
        ) ==> post.spec_value_at(r) == pre.spec_value_at(r) && post.spec_content_length(r)
            == pre.spec_content_length(r),
        _ => true,
    }
}

/// Across a resize that migrates the first `num_rows` rows, every migrated
/// row keeps its content prefix and every exactly-reported row that fits both
/// committed maxima reads back unchanged.
pub open spec fn rows_preserved<C: TextElement>(
    pre: TextColumn<C>,
    post: TextColumn<C>,
    num_rows: int,
) -> bool {
    forall|r: int|
        0 <= r < num_rows && r < pre.spec_batch_size() ==> #[trigger] prefix_preserved(
            pre,
            post,
            r,
        ) && exact_row_preserved(pre, post, r)
}

/// A row whose slot starts with a copy of `data`, terminated and carrying an
/// indicator of `data`'s length in bytes, reads back as exactly `data`.
proof fn lemma_content_of_written_row<C: TextElement>(
    pre: TextColumn<C>,
    post: TextColumn<C>,
    index: int,
    data: Seq<C>,
)
    requires
        pre.wf(),
        post.wf(),
        0 <= index < pre.spec_batch_size(),
        post.spec_max_len() == pre.spec_max_len(),
        post.spec_batch_size() == pre.spec_batch_size(),
        data.len() <= pre.spec_max_len(),
        data.len() * C::spec_size() <= isize::MAX,
        post.raw_indicators()[index] == (data.len() * C::spec_size()) as isize,
        forall|t: int|
            0 <= t < data.len() ==> post.values_seq()[post.spec_row_offset(index) + t] == data[t],
    ensures
        post.spec_content_length(index) == Some(data.len() as int),
        post.spec_value_at(index) == Some(data),
{
    proof_of_size::<C>();
    post.lemma_row_in_bounds(index);
    let cs = C::spec_size() as int;
    let l = data.len() as int;
    let nb = l * cs;
    let raw = post.raw_indicators()[index];
    assert(0 <= nb <= isize::MAX);
    assert(raw == nb as isize);
    assert(raw as usize as int == nb);
    vstd::arithmetic::div_mod::lemma_div_multiples_vanish(l, cs);
    assert(cs * l == l * cs) by (nonlinear_arith);
    assert(nb / cs == l);
    assert(post.spec_content_length(index) == Some(l));
    let off = post.spec_row_offset(index);
    assert(post.values_seq().subrange(off, off + l) =~= data);
}

/// Reading back a migrated row: the carried-over prefix keeps every content
/// byte that fits the new committed maximum, and a row with an exactly
/// reported length that fits both maxima reads back unchanged.
proof fn lemma_resize_row_preserved<C: TextElement>(
    pre: TextColumn<C>,
    post: TextColumn<C>,
    r: int,
    num_rows: int,
)
    requires
        pre.wf(),
        post.wf(),
        post.spec_batch_size() == pre.spec_batch_size(),
        post.raw_indicators() == pre.raw_indicators(),
        0 <= r < pre.spec_batch_size(),
        r < num_rows,
        slot_of(post.values_seq(), post.spec_stride(), r) == spec_resized_row(
            pre,
            r,
            post.spec_max_len() as int,
        ),
    ensures
        prefix_preserved(pre, post, r),
        exact_row_preserved(pre, post, r),
{
    proof_of_size::<C>();
    pre.lemma_row_in_bounds(r);
    post.lemma_row_in_bounds(r);
    let om = pre.spec_max_len() as int;
    let nm = post.spec_max_len() as int;
    let cs = C::spec_size() as int;
    let raw = pre.raw_indicators()[r];
    let cl = spec_copy_len::<C>(raw, om, nm);
    let ps = post.spec_stride();
    let slot = slot_of(post.values_seq(), ps, r);
    let pre_slot = slot_of(pre.values_seq(), pre.spec_stride(), r);
    match pre.spec_content_length(r) {
        None => {},
        Some(l) => {
            pre.lemma_content_length_le_max(r);
            if l <= nm {
                assert(l <= cl);
                assert forall|j: int| 0 <= j < l implies slot.subrange(0, l)[j] == pre_slot
                    .subrange(0, l)[j] by {
                    assert(slot[j] == spec_resized_row(pre, r, nm)[j]);
                    assert(pre_slot[j] == pre.values_seq()[r * pre.spec_stride() + j]);
                }
                assert(slot.subrange(0, l) =~= pre_slot.subrange(0, l));
            }
        },
    }
    match spec_indicator_from(raw) {
        Indicator::Length(nb) => {
            let q = nb as int / cs;
            if q <= vstd::math::min(om, nm) {
                assert(pre.spec_content_length(r) == Some(q));
                assert(post.spec_content_length(r) == Some(q));
                assert(q <= cl);
                let so = pre.spec_stride();
                assert forall|j: int| 0 <= j < q implies slot.subrange(0, q)[j] == pre_slot
                    .subrange(0, q)[j] by {
                    assert(slot[j] == spec_resized_row(pre, r, nm)[j]);
                    assert(pre_slot[j] == pre.values_seq()[r * so + j]);
                }
                assert(slot.subrange(0, q) =~= pre_slot.subrange(0, q));
                lemma_subrange_of_subrange(post.values_seq(), r * ps, r * ps + ps, 0, q);
                lemma_subrange_of_subrange(pre.values_seq(), r * so, r * so + so, 0, q);
                assert(post.values_seq().subrange(
                    post.spec_row_offset(r),
                    post.spec_row_offset(r) + q,
                ) == pre.values_seq().subrange(
                    pre.spec_row_offset(r),
                    pre.spec_row_offset(r) + q,
                ));
            }
        },
        _ => {},
    }
}

/// A subrange of a subrange reads directly from the underlying sequence.
pub proof fn lemma_subrange_of_subrange<T>(s: Seq<T>, a: int, b: int, i: int, j: int)
    requires
        0 <= a,
        a + j <= b <= s.len(),
        0 <= i <= j,
    ensures
        s.subrange(a, b).subrange(i, j) == s.subrange(a + i, a + j),
{
    assert(s.subrange(a, b).subrange(i, j) =~= s.subrange(a + i, a + j));
}

/// Two distinct rows occupy disjoint ranges of the flat backing storage.
pub proof fn lemma_rows_disjoint(s: int, r1: int, r2: int)
    requires
        1 <= s,
        0 <= r1 < r2,
    ensures
        r1 * s + s <= r2 * s,
{
    assert(r1 * s + s <= r2 * s) by (nonlinear_arith)
        requires
            1 <= s,
            0 <= r1 < r2,
    ;
}

/// A row's slot lies inside a backing storage of one stride per row.
pub proof fn lemma_slot_in_bounds(s: int, r: int, b: int)
    requires
        1 <= s,
        0 <= r < b,
    ensures
        0 <= r * s,
        r * s + s <= b * s,
{
    assert(0 <= r * s && r * s + s <= b * s) by (nonlinear_arith)
        requires
            1 <= s,
            0 <= r < b,
    ;
}

/// Byte size of one row's slot, terminator slot included, saturated at
/// `usize::MAX`: the number reported by a failing `try_new`.
pub open spec fn spec_element_bytes<C: TextElement>(max_str_len: int) -> int {
    let raw = (max_str_len + 1) * C::spec_size();
    if raw <= usize::MAX {
        raw
    } else {
        usize::MAX as int
    }
}

/// The width in bytes is positive; restated as a free lemma so spec-level
/// reasoning can use it without an exec call.
pub proof fn proof_of_size<C: TextElement>()
    ensures
        1 <= C::spec_size() <= 2,
{
    C::size_positive();
}

fn element_bytes<C: TextElement>(max_str_len: usize) -> (r: usize)
    ensures
        r == spec_element_bytes::<C>(max_str_len as int),
{
    let size = C::size_in_bytes();
    if max_str_len >= usize::MAX / size {
        let q = usize::MAX / size;
        proof {
            let s = size as int;
            let m = max_str_len as int;
            assert((m + 1) * s > usize::MAX) by (nonlinear_arith)
                requires
                    1 <= s <= 2,
                    m >= usize::MAX as int / s,
                    usize::MAX as int / s == q,
            ;
        }
        usize::MAX
    } else {
        proof {
            let s = size as int;
            let m = max_str_len as int;
            let q = usize::MAX as int / size as int;
            assert((m + 1) * s <= usize::MAX) by (nonlinear_arith)
                requires
                    1 <= s <= 2,
                    0 <= m < q,
                    q == usize::MAX as int / s,
            ;
        }
        (max_str_len + 1) * size
    }
}

/// A zero-initialized value buffer of the given length.
fn zeroed_vec<C: TextElement>(len: usize) -> (r: Vec<C>)
    ensures
        r@.len() == len,
        forall|j: int| 0 <= j < len ==> r@[j] == C::spec_zero(),
{
    let mut values: Vec<C> = Vec::new();
    let zero = C::zero();
    let mut i: usize = 0;
    while i < len
        invariant
            i <= len,
            values@.len() == i,
            zero == C::spec_zero(),
            forall|j: int| 0 <= j < i ==> values@[j] == C::spec_zero(),
        decreases len - i,
    {
        values.push(zero);
        i = i + 1;
    }
    values
}

/// A fresh indicator array: one zero word per row.
fn zero_indicators(batch_size: usize) -> (r: Vec<isize>)
    ensures
        r@.len() == batch_size,
        forall|i: int| 0 <= i < batch_size ==> r@[i] == 0isize,
{
    let mut indicators: Vec<isize> = Vec::new();
    let mut i: usize = 0;
    while i < batch_size
        invariant
            i <= batch_size,
            indicators@.len() == i,
            forall|j: int| 0 <= j < i ==> indicators@[j] == 0isize,
        decreases batch_size - i,
    {
        indicators.push(0isize);
        i = i + 1;
    }
    indicators
}

} // verus!

//! Filling a column row by row, bounded to the row-group about to be
//! produced, which may be smaller than the column's full capacity. The
//! writer takes the column over for the duration of the fill and limits
//! writing to rows before its bound; `into_column` hands the column back.

use vstd::prelude::*;

use crate::column::{rows_preserved, spec_grow, spec_spliced, TextColumn};
use crate::element::TextElement;
use crate::indicator::NULL_SENTINEL;

verus! {

/// A bounded writer over a column it temporarily owns.
#[derive(Debug)]
pub struct TextColumnWriter<C> {
    column: TextColumn<C>,
    /// Upper row bound: `write` does not consume items beyond it.
    to: usize,
}

impl<C: TextElement> TextColumn<C> {
    /// A writer able to fill the first `n` rows of the buffer. The writer
    /// takes the column over; `TextColumnWriter::into_column` hands it back.
    pub fn writer_n(self, n: usize) -> (w: TextColumnWriter<C>)
        ensures
            w.spec_col() == self,
            w.spec_to() == n,
    {
        TextColumnWriter { column: self, to: n }
    }
}

impl<C: TextElement> TextColumnWriter<C> {
    /// The column being filled.
    pub closed spec fn spec_col(&self) -> TextColumn<C> {
        self.column
    }

    /// The writer's row bound.
    pub closed spec fn spec_to(&self) -> nat {
        self.to as nat
    }

    /// The column, handed back after the fill.
    pub fn into_column(self) -> (c: TextColumn<C>)
        ensures
            c == self.spec_col(),
    {
        self.column
    }

    /// Fills rows from the start of the column, one item per row: at most as
    /// many as given, and at most the writer's bound many. Extra items are
    /// ignored; with fewer items than the bound, the remaining rows keep
    /// whatever state they held. Items must fit the committed maximum length:
    /// this writer never grows the buffer, only `append` does.
    pub fn write(&mut self, values: &[Option<&[C]>])
        requires
            old(self).spec_col().wf(),
            vstd::math::min(values@.len() as int, old(self).spec_to() as int) <= old(self).spec_col().spec_batch_size(),
            forall|i: int|
                0 <= i < vstd::math::min(values@.len() as int, old(self).spec_to() as int) ==> (
                #[trigger] values@[i] matches Some(d) ==> d@.len() <= old(self).spec_col().spec_max_len() && d@.len() * C::spec_size() <= isize::MAX),
        ensures
            final(self).spec_to() == old(self).spec_to(),
            final(self).spec_col().wf(),
            final(self).spec_col().spec_max_len() == old(self).spec_col().spec_max_len(),
            final(self).spec_col().spec_batch_size() == old(self).spec_col().spec_batch_size(),
            forall|i: int|
                0 <= i < vstd::math::min(values@.len() as int, old(self).spec_to() as int)
                    ==> match #[trigger] values@[i] {
                    None => final(self).spec_col().spec_value_at(i) is None && final(self).spec_col().spec_content_length(i) is None,
                    Some(d) => final(self).spec_col().spec_value_at(i) == Some(d@) && final(self).spec_col().spec_content_length(i) == Some(d@.len() as int),
                },
            forall|r: int|
                vstd::math::min(values@.len() as int, old(self).spec_to() as int) <= r < old(self).spec_col().spec_batch_size() ==> final(self).spec_col().spec_value_at(r) == old(self).spec_col().spec_value_at(r) && final(self).spec_col().spec_content_length(r)
                    == old(self).spec_col().spec_content_length(r) && final(self).spec_col().raw_indicators()[r] == old(self).spec_col().raw_indicators()[r],
    {
        let n = if values.len() < self.to {
            values.len()
        } else {
            self.to
        };
        let mut index: usize = 0;
        while index < n
            invariant
                index <= n,
                n == vstd::math::min(values@.len() as int, old(self).spec_to() as int),
                n <= values@.len(),
                self.spec_to() == old(self).spec_to(),
                n <= self.spec_col().spec_batch_size(),
                self.spec_col().wf(),
                self.spec_col().spec_max_len() == old(self).spec_col().spec_max_len(),
                self.spec_col().spec_batch_size() == old(self).spec_col().spec_batch_size(),
                forall|i: int|
                    0 <= i < n ==> (#[trigger] values@[i] matches Some(d) ==> d@.len() <= old(self).spec_col().spec_max_len() && d@.len() * C::spec_size() <= isize::MAX),
                forall|i: int|
                    0 <= i < index ==> match #[trigger] values@[i] {
                        None => self.spec_col().spec_value_at(i) is None && self
                            .spec_col()
                            .spec_content_length(i) is None,
                        Some(d) => self.spec_col().spec_value_at(i) == Some(d@) && self
                            .spec_col()
                            .spec_content_length(i) == Some(d@.len() as int),
                    },
                forall|r: int|
                    index <= r < old(self).spec_col().spec_batch_size() ==> self
                        .spec_col()
                        .spec_value_at(r) == old(self).spec_col().spec_value_at(r) && self
                        .spec_col()
                        .spec_content_length(r) == old(self).spec_col().spec_content_length(r)
                        && self.spec_col().raw_indicators()[r] == old(self).spec_col().raw_indicators()[r],
            decreases n - index,
        {
            let item = values[index];
            self.column.set_value(index, item);
            index = index + 1;
        }
    }

    /// Committed maximum value length of the column, in code units.
    pub fn max_len(&self) -> (r: usize)
        ensures
            r == self.spec_col().spec_max_len(),
    {
        self.column.max_len()
    }

    /// Discards all content of the column: reallocates for the new maximum
    /// length and marks every row null.
    pub fn set_max_len(&mut self, new_max_len: usize)
        requires
            old(self).spec_col().wf(),
            new_max_len < usize::MAX,
            (new_max_len + 1) * old(self).spec_col().spec_batch_size() <= usize::MAX,
        ensures
            final(self).spec_to() == old(self).spec_to(),
            final(self).spec_col().wf(),
            final(self).spec_col().spec_batch_size() == old(self).spec_col().spec_batch_size(),
            final(self).spec_col().spec_max_len() == new_max_len,
            forall|i: int|
                0 <= i < final(self).spec_col().spec_batch_size() ==> final(self).spec_col().raw_indicators()[i] == NULL_SENTINEL && final(self).spec_col().spec_value_at(i) is None && final(self).spec_col().spec_content_length(
                    i,
                ) is None,
    {
        self.column.set_max_len(new_max_len)
    }

    /// Reallocates the column for a new committed maximum length, migrating
    /// the first `num_rows` rows; see `TextColumn::resize_max_str`.
    pub fn resize_max_str(&mut self, new_max_str_len: usize, num_rows: usize)
        requires
            old(self).spec_col().wf(),
            new_max_str_len < usize::MAX,
            (new_max_str_len + 1) * old(self).spec_col().spec_batch_size() <= usize::MAX,
        ensures
            final(self).spec_to() == old(self).spec_to(),
            final(self).spec_col().wf(),
            final(self).spec_col().spec_max_len() == new_max_str_len,
            final(self).spec_col().spec_batch_size() == old(self).spec_col().spec_batch_size(),
            final(self).spec_col().raw_indicators() == old(self).spec_col().raw_indicators(),
            rows_preserved(old(self).spec_col(), final(self).spec_col(), num_rows as int),
    {
        self.column.resize_max_str(new_max_str_len, num_rows)
    }

    /// Sets one row to null or to a copy of the given code units; see
    /// `TextColumn::set_value`.
    pub fn set_value(&mut self, index: usize, value: Option<&[C]>)
        requires
            old(self).spec_col().wf(),
            index < old(self).spec_col().spec_batch_size(),
            value matches Some(d) ==> d@.len() <= old(self).spec_col().spec_max_len() && d@.len()
                * C::spec_size() <= isize::MAX,
        ensures
            final(self).spec_to() == old(self).spec_to(),
            final(self).spec_col().wf(),
            final(self).spec_col().spec_max_len() == old(self).spec_col().spec_max_len(),
            final(self).spec_col().spec_batch_size() == old(self).spec_col().spec_batch_size(),
            match value {
                None => final(self).spec_col().spec_value_at(index as int) is None && final(self).spec_col().spec_content_length(index as int) is None,
                Some(d) => final(self).spec_col().spec_value_at(index as int) == Some(d@) && final(self).spec_col().spec_content_length(index as int) == Some(d@.len() as int),
            },
            forall|r: int|
                0 <= r < final(self).spec_col().spec_batch_size() && r != index ==> final(self).spec_col().spec_value_at(r) == old(self).spec_col().spec_value_at(r) && final(self).spec_col().spec_content_length(r) == old(self).spec_col().spec_content_length(r),
    {
        self.column.set_value(index, value)
    }

    /// Sets one row like `set_value`, growing the column first when the value
    /// exceeds the committed maximum length; see `TextColumn::append`.
    pub fn append(&mut self, index: usize, text: Option<&[C]>)
        requires
            old(self).spec_col().wf(),
            index < old(self).spec_col().spec_batch_size(),
            text matches Some(t) ==> t@.len() * C::spec_size() <= isize::MAX,
            text matches Some(t) ==> (t@.len() > old(self).spec_col().spec_max_len()
                ==> spec_grow(t@.len() as int) < usize::MAX && (spec_grow(t@.len() as int) + 1)
                * old(self).spec_col().spec_batch_size() <= usize::MAX),
        ensures
            final(self).spec_to() == old(self).spec_to(),
            final(self).spec_col().wf(),
            final(self).spec_col().spec_batch_size() == old(self).spec_col().spec_batch_size(),
            (match text {
                Some(t) => t@.len() <= old(self).spec_col().spec_max_len(),
                None => true,
            }) ==> final(self).spec_col().spec_max_len() == old(self).spec_col().spec_max_len() && (
            forall|r: int|
                0 <= r < old(self).spec_col().spec_batch_size() && r != index ==> final(self).spec_col().spec_value_at(r) == old(self).spec_col().spec_value_at(r) && final(self).spec_col().spec_content_length(r) == old(self).spec_col().spec_content_length(
                    r,
                )),
            match text {
                None => final(self).spec_col().spec_value_at(index as int) is None && final(self).spec_col().spec_content_length(index as int) is None,
                Some(t) => {
                    &&& final(self).spec_col().spec_max_len() >= t@.len()
                    &&& final(self).spec_col().spec_value_at(index as int) == Some(t@)
                    &&& final(self).spec_col().spec_content_length(index as int) == Some(
                        t@.len() as int,
                    )
                    &&& t@.len() > old(self).spec_col().spec_max_len() ==> final(self).spec_col().spec_max_len() == spec_grow(t@.len() as int) && rows_preserved(
                        old(self).spec_col(),
                        final(self).spec_col(),
                        index as int,
                    )
                },
            },
    {
        self.column.append(index, text)
    }

    /// Prepares one row for in-place writing and hands out its mutable data
    /// range; see `TextColumn::set_mut` and `TextColumn::lemma_reserved_row`.
    pub fn set_mut(&mut self, index: usize, length: usize) -> (r: &mut [C])
        requires
            old(self).spec_col().wf(),
            index < old(self).spec_col().spec_batch_size(),
            length <= old(self).spec_col().spec_max_len(),
            length * C::spec_size() <= isize::MAX,
        ensures
            final(self).spec_to() == old(self).spec_to(),
            r@ == old(self).spec_col().values_seq().subrange(
                old(self).spec_col().spec_row_offset(index as int),
                old(self).spec_col().spec_row_offset(index as int) + length,
            ),
            final(r)@.len() == length,
            final(self).spec_col().spec_max_len() == old(self).spec_col().spec_max_len(),
            final(self).spec_col().spec_batch_size() == old(self).spec_col().spec_batch_size(),
            final(self).spec_col().raw_indicators() == old(self).spec_col().raw_indicators().update(
                index as int,
                (length * C::spec_size()) as isize,
            ),
            final(self).spec_col().values_seq() == spec_spliced(
                old(self).spec_col().values_seq().update(
                    old(self).spec_col().spec_row_offset(index as int) + length,
                    C::spec_zero(),
                ),
                old(self).spec_col().spec_row_offset(index as int),
                old(self).spec_col().spec_row_offset(index as int) + length,
                final(r)@,
            ),
    {
        self.column.set_mut(index, length)
    }
}

} // verus!

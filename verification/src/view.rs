//! Read-only access to the valid prefix of a column. The column itself never
//! learns how many of its rows the last bulk transfer filled; that count is
//! reported alongside the transfer, and a view pairs it with a borrow of the
//! column so that every access stays inside the valid prefix.

use vstd::prelude::*;

use crate::column::TextColumn;
use crate::element::TextElement;

verus! {

/// A read-only window over the first `num_rows` rows of a column.
#[derive(Debug, Clone, Copy)]
pub struct TextColumnView<'c, C> {
    num_rows: usize,
    col: &'c TextColumn<C>,
}

impl<'c, C: TextElement> TextColumnView<'c, C> {
    /// The column under the view.
    pub closed spec fn spec_col(&self) -> TextColumn<C> {
        *self.col
    }

    /// Number of valid rows the view exposes.
    pub closed spec fn spec_num_rows(&self) -> nat {
        self.num_rows as nat
    }

    /// The view's invariant: a well-formed column, and a bound that does not
    /// exceed its capacity.
    pub open spec fn wf(&self) -> bool {
        &&& self.spec_col().wf()
        &&& self.spec_num_rows() <= self.spec_col().spec_batch_size()
    }

    /// A view over the first `num_rows` rows of `col`.
    pub fn new(col: &'c TextColumn<C>, num_rows: usize) -> (v: Self)
        requires
            col.wf(),
            num_rows <= col.spec_batch_size(),
        ensures
            v.wf(),
            v.spec_col() == *col,
            v.spec_num_rows() == num_rows,
    {
        TextColumnView { num_rows, col }
    }

    /// The number of valid rows.
    pub fn len(&self) -> (r: usize)
        ensures
            r == self.spec_num_rows(),
    {
        self.num_rows
    }

    /// True if, and only if, the view exposes no rows.
    pub fn is_empty(&self) -> (r: bool)
        ensures
            r == (self.spec_num_rows() == 0),
    {
        self.num_rows == 0
    }

    /// The value of a valid row, without the terminator.
    pub fn get(&self, index: usize) -> (r: Option<&'c [C]>)
        requires
            self.wf(),
            index < self.spec_num_rows(),
        ensures
            match r {
                None => self.spec_col().spec_value_at(index as int) is None,
                Some(s) => self.spec_col().spec_value_at(index as int) == Some(s@),
            },
    {
        self.col.value_at(index)
    }

    /// An iterator over the valid rows, starting at the first.
    pub fn iter(&self) -> (it: TextColumnIt<'c, C>)
        requires
            self.wf(),
        ensures
            it.wf(),
            it.spec_col() == self.spec_col(),
            it.spec_num_rows() == self.spec_num_rows(),
            it.spec_pos() == 0,
    {
        TextColumnIt { pos: 0, num_rows: self.num_rows, col: self.col }
    }

    /// Length, in code units, of the data a valid row holds in the buffer.
    /// Unlike the indicator this is always clamped to the committed maximum.
    pub fn content_length_at(&self, row_index: usize) -> (r: Option<usize>)
        requires
            self.wf(),
            row_index < self.spec_num_rows(),
        ensures
            r is Some <==> self.spec_col().spec_content_length(row_index as int) is Some,
            r matches Some(l) ==> self.spec_col().spec_content_length(row_index as int) == Some(
                l as int,
            ),
    {
        self.col.content_length_at(row_index)
    }

    /// The flat backing storage of the valid prefix, one full stride per row.
    pub fn raw_value_buffer(&self) -> (r: &'c [C])
        requires
            self.wf(),
        ensures
            r@ == self.spec_col().values_seq().subrange(
                0,
                self.spec_col().spec_stride() * self.spec_num_rows(),
            ),
    {
        self.col.raw_value_buffer(self.num_rows)
    }

    /// Committed maximum value length of the underlying column.
    pub fn max_len(&self) -> (r: usize)
        ensures
            r == self.spec_col().spec_max_len(),
    {
        self.col.max_len()
    }
}

/// A forward-only pass over the valid rows of a view, yielding each row's
/// value in row order, one per step. It is not restartable: a fresh pass
/// needs a fresh call to `TextColumnView::iter`.
#[derive(Debug)]
pub struct TextColumnIt<'c, C> {
    pos: usize,
    num_rows: usize,
    col: &'c TextColumn<C>,
}

impl<'c, C: TextElement> TextColumnIt<'c, C> {
    /// The column being read.
    pub closed spec fn spec_col(&self) -> TextColumn<C> {
        *self.col
    }

    /// The bound of the pass: one past the last valid row.
    pub closed spec fn spec_num_rows(&self) -> nat {
        self.num_rows as nat
    }

    /// The next row to yield.
    pub closed spec fn spec_pos(&self) -> nat {
        self.pos as nat
    }

    /// The iterator's invariant.
    pub open spec fn wf(&self) -> bool {
        &&& self.spec_col().wf()
        &&& self.spec_pos() <= self.spec_num_rows()
        &&& self.spec_num_rows() <= self.spec_col().spec_batch_size()
    }

    /// One step: `None` once all valid rows are consumed, otherwise the value
    /// of the next row (which is itself `None` for a null row).
    pub fn next_impl(&mut self) -> (r: Option<Option<&'c [C]>>)
        requires
            old(self).wf(),
        ensures
            final(self).wf(),
            final(self).spec_col() == old(self).spec_col(),
            final(self).spec_num_rows() == old(self).spec_num_rows(),
            old(self).spec_pos() == old(self).spec_num_rows() ==> r is None && final(self).spec_pos() == old(self).spec_pos(),
            old(self).spec_pos() < old(self).spec_num_rows() ==> final(self).spec_pos() == old(self).spec_pos() + 1 && match r {
                None => false,
                Some(None) => old(self).spec_col().spec_value_at(
                    old(self).spec_pos() as int,
                ) is None,
                Some(Some(s)) => old(self).spec_col().spec_value_at(old(self).spec_pos() as int)
                    == Some(s@),
            },
    {
        if self.pos == self.num_rows {
            None
        } else {
            let ret = Some(self.col.value_at(self.pos));
            self.pos = self.pos + 1;
            ret
        }
    }

    /// Exact number of rows the pass will still yield.
    pub fn remaining(&self) -> (r: usize)
        requires
            self.wf(),
        ensures
            r == self.spec_num_rows() - self.spec_pos(),
    {
        self.num_rows - self.pos
    }
}

} // verus!

//! The tape: cells in a row without end in either direction, all zero at
//! first, of which only the visited stretch is kept.

use crate::cell::Cell;
use std::collections::VecDeque;
use vstd::prelude::*;

verus! {

/// A tape as the contracts see it: the values of the cells that exist so far,
/// left to right, and the place of the data pointer among them.
pub struct TapeModel {
    /// The values of the materialized cells.
    pub cells: Seq<int>,
    /// The index in `cells` of the cell under the data pointer.
    pub head: int,
}

impl TapeModel {
    /// The tape of a fresh machine: one cell, which holds zero.
    pub open spec fn initial() -> TapeModel {
        TapeModel { cells: seq![0int], head: 0 }
    }

    /// The data pointer is on a cell that exists.
    pub open spec fn wf(self) -> bool {
        0 <= self.head < self.cells.len()
    }

    /// The value of the cell under the data pointer.
    pub open spec fn current(self) -> int {
        self.cells[self.head]
    }

    /// The tape with `v` in the cell under the data pointer.
    pub open spec fn store(self, v: int) -> TapeModel {
        TapeModel { cells: self.cells.update(self.head, v), head: self.head }
    }

    /// The tape after a move to the right. A cell that was not there yet is
    /// appended, holding zero.
    pub open spec fn right(self) -> TapeModel {
        TapeModel {
            cells: if self.head + 1 < self.cells.len() {
                self.cells
            } else {
                self.cells.push(0)
            },
            head: self.head + 1,
        }
    }

    /// The tape after a move to the left. At the leftmost cell a new cell is
    /// put in front, holding zero, and the data pointer stays at index zero,
    /// which is now that new cell.
    pub open spec fn left(self) -> TapeModel {
        if self.head == 0 {
            TapeModel { cells: seq![0int] + self.cells, head: 0 }
        } else {
            TapeModel { cells: self.cells, head: self.head - 1 }
        }
    }

    /// The tape after `n` moves to the right.
    pub open spec fn rights(self, n: nat) -> TapeModel
        decreases n,
    {
        if n == 0 {
            self
        } else {
            self.rights((n - 1) as nat).right()
        }
    }

    /// The tape after `n` moves to the left.
    pub open spec fn lefts(self, n: nat) -> TapeModel
        decreases n,
    {
        if n == 0 {
            self
        } else {
            self.lefts((n - 1) as nat).left()
        }
    }
}

/// Moving left from the initial position, any number of times, always lands
/// on a cell that holds zero: the tape is then nothing but zeros, with the
/// data pointer on the leftmost.
pub proof fn lemma_left_of_start_is_zero(n: nat)
    ensures
        TapeModel::initial().lefts(n).wf(),
        TapeModel::initial().lefts(n).head == 0,
        TapeModel::initial().lefts(n).cells =~= Seq::new(n + 1, |i: int| 0int),
        TapeModel::initial().lefts(n).current() == 0,
    decreases n,
{
    if n > 0 {
        lemma_left_of_start_is_zero((n - 1) as nat);
    }
}

/// Moving right any number of times never changes a cell that was there, and
/// adds only zeros.
pub proof fn lemma_rights(t: TapeModel, n: nat)
    requires
        t.wf(),
    ensures
        t.rights(n).wf(),
        t.rights(n).head == t.head + n,
        t.rights(n).cells.len() >= t.cells.len(),
        forall|i: int| 0 <= i < t.cells.len() ==> t.rights(n).cells[i] == t.cells[i],
        forall|i: int| t.cells.len() <= i < t.rights(n).cells.len() ==> t.rights(n).cells[i] == 0,
    decreases n,
{
    if n > 0 {
        lemma_rights(t, (n - 1) as nat);
    }
}

/// Moving left at most as many times as the data pointer is from the front
/// leaves every cell as it is.
pub proof fn lemma_lefts_within(t: TapeModel, n: nat)
    requires
        t.wf(),
        n <= t.head,
    ensures
        t.lefts(n).cells == t.cells,
        t.lefts(n).head == t.head - n,
    decreases n,
{
    if n > 0 {
        lemma_lefts_within(t, (n - 1) as nat);
    }
}

/// Moving right some number of times and then left as many times brings the
/// data pointer back to the cell it started on, which holds what it held;
/// so does every other cell that was there.
pub proof fn lemma_right_then_left(t: TapeModel, n: nat)
    requires
        t.wf(),
    ensures
        t.rights(n).lefts(n).wf(),
        t.rights(n).lefts(n).head == t.head,
        t.rights(n).lefts(n).current() == t.current(),
        forall|i: int| 0 <= i < t.cells.len() ==> t.rights(n).lefts(n).cells[i] == t.cells[i],
{
    lemma_rights(t, n);
    lemma_lefts_within(t.rights(n), n);
}

/// `VecDeque`'s `IndexMut`: puts `value` at index `i`, which must be in
/// bounds, and leaves the other elements as they are.
#[verifier::external_body]
fn deque_set<T>(deque: &mut VecDeque<T>, i: usize, value: T)
    requires
        i < old(deque)@.len(),
    ensures
        final(deque)@ == old(deque)@.update(i as int, value),
{
    deque[i] = value;
}

/// The tape of a machine, with its data pointer.
///
/// Only the cells that the data pointer has visited exist. The tape always
/// has at least one cell, and the data pointer is always on one of them.
#[derive(Debug)]
pub struct Tape<I: Cell> {
    cells: VecDeque<I>,
    ptr: usize,
}

impl<I: Cell> View for Tape<I> {
    type V = TapeModel;

    closed spec fn view(&self) -> TapeModel {
        TapeModel { cells: self.cells@.map_values(|c: I| c.value()), head: self.ptr as int }
    }
}

impl<I: Cell> Tape<I> {
    /// The data pointer is on a cell that exists, and every cell holds a
    /// value of the cell type.
    pub open spec fn wf(&self) -> bool {
        &&& self@.wf()
        &&& forall|i: int| 0 <= i < self@.cells.len() ==> 0 <= #[trigger] self@.cells[i] < I::modulus()
    }

    /// A tape of one cell, which holds zero, with the data pointer on it.
    pub fn new() -> (tape: Self)
        ensures
            tape.wf(),
            tape@ == TapeModel::initial(),
    {
        let mut cells: VecDeque<I> = VecDeque::new();
        let zero = I::zero();
        cells.push_back(zero);
        let tape = Tape { cells, ptr: 0 };
        proof {
            zero.lemma_range();
            assert(tape@.cells =~= TapeModel::initial().cells);
        }
        tape
    }

    /// Moves the data pointer one cell to the right, making the cell there
    /// if it does not exist yet.
    pub fn move_right(&mut self)
        requires
            old(self).wf(),
        ensures
            final(self).wf(),
            final(self)@ == old(self)@.right(),
    {
        let len = self.cells.len();
        if self.ptr >= len - 1 {
            let zero = I::zero();
            proof {
                zero.lemma_range();
            }
            self.cells.push_back(zero);
        }
        self.ptr += 1;
        proof {
            assert(final(self)@.cells =~= old(self)@.right().cells);
        }
    }

    /// Moves the data pointer one cell to the left. At the leftmost cell a
    /// new cell is put in front of it and the data pointer stays at the
    /// front.
    pub fn move_left(&mut self)
        requires
            old(self).wf(),
        ensures
            final(self).wf(),
            final(self)@ == old(self)@.left(),
    {
        if self.ptr == 0 {
            let zero = I::zero();
            proof {
                zero.lemma_range();
            }
            self.cells.push_front(zero);
        } else {
            self.ptr -= 1;
        }
        proof {
            assert(final(self)@.cells =~= old(self)@.left().cells);
        }
    }

    /// The index of the cell under the data pointer among the cells that
    /// exist, counted from the leftmost.
    pub fn position(&self) -> (i: usize)
        ensures
            i == self@.head,
    {
        self.ptr
    }

    /// The number of cells that exist.
    pub fn len(&self) -> (n: usize)
        ensures
            n == self@.cells.len(),
    {
        self.cells.len()
    }

    /// The cell under the data pointer.
    pub fn get(&self) -> (cell: I)
        requires
            self.wf(),
        ensures
            cell.value() == self@.current(),
    {
        self.cells[self.ptr]
    }

    /// Puts `cell` under the data pointer.
    pub fn set(&mut self, cell: I)
        requires
            old(self).wf(),
        ensures
            final(self).wf(),
            final(self)@ == old(self)@.store(cell.value()),
    {
        proof {
            cell.lemma_range();
        }
        deque_set(&mut self.cells, self.ptr, cell);
        proof {
            assert(final(self)@.cells =~= old(self)@.store(cell.value()).cells);
        }
    }
}

} // verus!

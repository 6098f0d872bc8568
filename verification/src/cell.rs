//! Cells: unsigned integers of a fixed width, with arithmetic that wraps
//! around.
//!
//! The machine is generic in the cell type. What it needs of a cell type is
//! the trait [`Cell`]; the unsigned integers of 8 to 128 bits have it, each
//! through the `num-traits` operations on that type. What the machine does
//! with a cell is written once, in the functions of this module, and proved
//! from the trait's contracts against the arithmetic on cell values below.

use vstd::prelude::*;

mod width128;
mod width16;
mod width32;
mod width64;
mod width8;

verus! {

/// The value after adding one to `v`, in arithmetic modulo `modulus`.
pub open spec fn succ(v: int, modulus: int) -> int {
    (v + 1) % modulus
}

/// The value after subtracting one from `v`, in arithmetic modulo `modulus`.
pub open spec fn pred(v: int, modulus: int) -> int {
    (v - 1) % modulus
}

/// The byte that is written for a cell of value `v`: `v` modulo 256.
pub open spec fn low_byte(v: int) -> u8 {
    (v % 256) as u8
}

/// The value that a read stores: the byte that was read, or, at the end of
/// the input, the largest value of the cell type.
pub open spec fn loaded(input: Option<u8>, modulus: int) -> int {
    match input {
        Some(byte) => byte as int,
        None => modulus - 1,
    }
}

/// An unsigned integer type that can serve as a cell.
///
/// A cell type has `modulus()` values, from zero up. Its operations are
/// specified on the values they work on. A cell type is at least a byte
/// wide.
pub trait Cell: Copy {
    /// The number of values of the type: two to the power of its width.
    spec fn modulus() -> int;

    /// The number that a cell holds.
    spec fn value(self) -> int;

    /// A cell's value is below the modulus, and a byte always fits.
    proof fn lemma_range(self)
        ensures
            0 <= self.value() < Self::modulus(),
            256 <= Self::modulus(),
    ;

    /// The cell that holds zero.
    fn zero() -> (c: Self)
        ensures
            c.value() == 0,
    ;

    /// The cell that holds one.
    fn one() -> (c: Self)
        ensures
            c.value() == 1,
    ;

    /// The cell that holds the largest value of the type.
    fn max_value() -> (c: Self)
        ensures
            c.value() == Self::modulus() - 1,
    ;

    /// The sum, modulo the modulus.
    fn wrapping_add(self, rhs: Self) -> (c: Self)
        ensures
            c.value() == (self.value() + rhs.value()) % Self::modulus(),
    ;

    /// The difference, modulo the modulus.
    fn wrapping_sub(self, rhs: Self) -> (c: Self)
        ensures
            c.value() == (self.value() - rhs.value()) % Self::modulus(),
    ;

    /// The remainder of the division by `rhs`.
    fn rem(self, rhs: Self) -> (c: Self)
        requires
            rhs.value() != 0,
        ensures
            c.value() == self.value() % rhs.value(),
    ;

    /// Whether the two cells hold the same value.
    fn same(self, rhs: Self) -> (b: bool)
        ensures
            b == (self.value() == rhs.value()),
    ;

    /// The cell that holds `byte`.
    fn from_u8(byte: u8) -> (c: Option<Self>)
        ensures
            c is Some,
            c->0.value() == byte,
    ;

    /// The cell that holds `n`, or `None` where `n` is too large for the type.
    fn from_u16(n: u16) -> (c: Option<Self>)
        ensures
            c is Some <==> n < Self::modulus(),
            c is Some ==> c->0.value() == n,
    ;

    /// The cell's value as a byte, or `None` where it is above 255.
    fn to_u8(self) -> (b: Option<u8>)
        ensures
            b == (if self.value() <= 255 {
                Some(self.value() as u8)
            } else {
                None
            }),
    ;
}

/// The cell after an increment: its value plus one, wrapping around from the
/// largest value to zero.
pub fn increment<I: Cell>(cell: I) -> (c: I)
    ensures
        c.value() == succ(cell.value(), I::modulus()),
{
    cell.wrapping_add(I::one())
}

/// The cell after a decrement: its value minus one, wrapping around from zero
/// to the largest value.
pub fn decrement<I: Cell>(cell: I) -> (c: I)
    ensures
        c.value() == pred(cell.value(), I::modulus()),
{
    cell.wrapping_sub(I::one())
}

/// Whether the cell holds zero.
pub fn is_zero<I: Cell>(cell: I) -> (b: bool)
    ensures
        b == (cell.value() == 0),
{
    cell.same(I::zero())
}

/// The byte to write for a cell: its value modulo 256. For a cell type of one
/// byte this is the value itself.
pub fn output_byte<I: Cell>(cell: I) -> (byte: u8)
    ensures
        byte == low_byte(cell.value()),
{
    proof {
        cell.lemma_range();
    }
    let reduced = match I::from_u16(256) {
        Some(modulus) => cell.rem(modulus),
        None => cell,
    };
    reduced.to_u8().unwrap()
}

/// The cell that a read stores: the byte that was read, widened, or the
/// largest value of the cell type where the input was exhausted.
pub fn input_cell<I: Cell>(input: Option<u8>) -> (c: I)
    ensures
        c.value() == loaded(input, I::modulus()),
{
    match input {
        Some(byte) => I::from_u8(byte).unwrap(),
        None => I::max_value(),
    }
}

/// Incrementing and then decrementing a cell, or the reverse, gives back the
/// value it had, whatever the width and the value, across the wrap-around
/// in either direction.
pub proof fn lemma_increment_decrement(v: int, modulus: int)
    requires
        0 <= v < modulus,
    ensures
        pred(succ(v, modulus), modulus) == v,
        succ(pred(v, modulus), modulus) == v,
        0 <= succ(v, modulus) < modulus,
        0 <= pred(v, modulus) < modulus,
{
    let m = modulus;
    if v + 1 == m {
        assert((v + 1) % m == 0);
        assert((0 - 1) % m == m - 1) by (nonlinear_arith)
            requires
                m > 0,
        ;
    } else {
        assert((v + 1) % m == v + 1) by (nonlinear_arith)
            requires
                0 <= v + 1 < m,
        ;
        assert((v + 1 - 1) % m == v) by (nonlinear_arith)
            requires
                0 <= v < m,
        ;
    }
    if v == 0 {
        assert((0 - 1) % m == m - 1) by (nonlinear_arith)
            requires
                m > 0,
        ;
        assert((m - 1 + 1) % m == 0) by (nonlinear_arith)
            requires
                m > 0,
        ;
    } else {
        assert((v - 1) % m == v - 1) by (nonlinear_arith)
            requires
                0 <= v - 1 < m,
        ;
        assert((v - 1 + 1) % m == v) by (nonlinear_arith)
            requires
                0 <= v < m,
        ;
    }
}

} // verus!

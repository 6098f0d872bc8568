//! `u8` as a cell type, through the `num-traits` operations on `u8`.

use crate::cell::Cell;
use vstd::prelude::*;

verus! {

/// `num_traits::zero` at `u8`: the number 0.
#[verifier::external_body]
fn zero() -> (r: u8)
    ensures
        r == 0,
{
    num_traits::zero::<u8>()
}

/// `num_traits::one` at `u8`: the number 1.
#[verifier::external_body]
fn one() -> (r: u8)
    ensures
        r == 1,
{
    num_traits::one::<u8>()
}

/// `num_traits::Bounded::max_value` of `u8`: the largest `u8`.
#[verifier::external_body]
fn max_value() -> (r: u8)
    ensures
        r == u8::MAX,
{
    <u8 as num_traits::Bounded>::max_value()
}

/// `num_traits::WrappingAdd::wrapping_add` of `u8`: the sum modulo 2^8.
#[verifier::external_body]
fn wrapping_add(x: u8, y: u8) -> (r: u8)
    ensures
        r == (x + y) % 0x100,
{
    num_traits::WrappingAdd::wrapping_add(&x, &y)
}

/// `num_traits::WrappingSub::wrapping_sub` of `u8`: the difference modulo
/// 2^8.
#[verifier::external_body]
fn wrapping_sub(x: u8, y: u8) -> (r: u8)
    ensures
        r == (x - y) % 0x100,
{
    num_traits::WrappingSub::wrapping_sub(&x, &y)
}

/// `num_traits::FromPrimitive::from_u8` of `u8`: always `Some` of the same
/// number.
#[verifier::external_body]
fn from_u8(byte: u8) -> (r: Option<u8>)
    ensures
        r == Some(byte),
{
    <u8 as num_traits::FromPrimitive>::from_u8(byte)
}

/// `num_traits::FromPrimitive::from_u16` of `u8`: `Some` of `n` where `n` is at most 255, `None` above.
#[verifier::external_body]
fn from_u16(n: u16) -> (r: Option<u8>)
    ensures
        r == (if n <= 255 {
            Some(n as u8)
        } else {
            None
        }),
{
    <u8 as num_traits::FromPrimitive>::from_u16(n)
}

/// `num_traits::ToPrimitive::to_u8` of `u8`: always `Some` of the same number.
#[verifier::external_body]
fn to_u8(x: u8) -> (r: Option<u8>)
    ensures
        r == Some(x),
{
    num_traits::ToPrimitive::to_u8(&x)
}

impl Cell for u8 {
    open spec fn modulus() -> int {
        0x100
    }

    open spec fn value(self) -> int {
        self as int
    }

    proof fn lemma_range(self) {
    }

    fn zero() -> (c: u8) {
        zero()
    }

    fn one() -> (c: u8) {
        one()
    }

    fn max_value() -> (c: u8) {
        max_value()
    }

    fn wrapping_add(self, rhs: u8) -> (c: u8) {
        wrapping_add(self, rhs)
    }

    fn wrapping_sub(self, rhs: u8) -> (c: u8) {
        wrapping_sub(self, rhs)
    }

    fn rem(self, rhs: u8) -> (c: u8) {
        self % rhs
    }

    fn same(self, rhs: u8) -> (b: bool) {
        self == rhs
    }

    fn from_u8(byte: u8) -> (c: Option<u8>) {
        from_u8(byte)
    }

    fn from_u16(n: u16) -> (c: Option<u8>) {
        from_u16(n)
    }

    fn to_u8(self) -> (b: Option<u8>) {
        to_u8(self)
    }
}

} // verus!

//! `u32` as a cell type, through the `num-traits` operations on `u32`.

use crate::cell::Cell;
use vstd::prelude::*;

verus! {

/// `num_traits::zero` at `u32`: the number 0.
#[verifier::external_body]
fn zero() -> (r: u32)
    ensures
        r == 0,
{
    num_traits::zero::<u32>()
}

/// `num_traits::one` at `u32`: the number 1.
#[verifier::external_body]
fn one() -> (r: u32)
    ensures
        r == 1,
{
    num_traits::one::<u32>()
}

/// `num_traits::Bounded::max_value` of `u32`: the largest `u32`.
#[verifier::external_body]
fn max_value() -> (r: u32)
    ensures
        r == u32::MAX,
{
    <u32 as num_traits::Bounded>::max_value()
}

/// `num_traits::WrappingAdd::wrapping_add` of `u32`: the sum modulo 2^32.
#[verifier::external_body]
fn wrapping_add(x: u32, y: u32) -> (r: u32)
    ensures
        r == (x + y) % 0x1_0000_0000,
{
    num_traits::WrappingAdd::wrapping_add(&x, &y)
}

/// `num_traits::WrappingSub::wrapping_sub` of `u32`: the difference modulo
/// 2^32.
#[verifier::external_body]
fn wrapping_sub(x: u32, y: u32) -> (r: u32)
    ensures
        r == (x - y) % 0x1_0000_0000,
{
    num_traits::WrappingSub::wrapping_sub(&x, &y)
}

/// `num_traits::FromPrimitive::from_u8` of `u32`: always `Some` of the same
/// number.
#[verifier::external_body]
fn from_u8(byte: u8) -> (r: Option<u32>)
    ensures
        r == Some(byte as u32),
{
    <u32 as num_traits::FromPrimitive>::from_u8(byte)
}

/// `num_traits::FromPrimitive::from_u16` of `u32`: always `Some` of the same number.
#[verifier::external_body]
fn from_u16(n: u16) -> (r: Option<u32>)
    ensures
        r == Some(n as u32),
{
    <u32 as num_traits::FromPrimitive>::from_u16(n)
}

/// `num_traits::ToPrimitive::to_u8` of `u32`: `Some` of the same number where it is at most 255, `None` above.
#[verifier::external_body]
fn to_u8(x: u32) -> (r: Option<u8>)
    ensures
        r == (if x <= 255 {
            Some(x as u8)
        } else {
            None
        }),
{
    num_traits::ToPrimitive::to_u8(&x)
}

impl Cell for u32 {
    open spec fn modulus() -> int {
        0x1_0000_0000
    }

    open spec fn value(self) -> int {
        self as int
    }

    proof fn lemma_range(self) {
    }

    fn zero() -> (c: u32) {
        zero()
    }

    fn one() -> (c: u32) {
        one()
    }

    fn max_value() -> (c: u32) {
        max_value()
    }

    fn wrapping_add(self, rhs: u32) -> (c: u32) {
        wrapping_add(self, rhs)
    }

    fn wrapping_sub(self, rhs: u32) -> (c: u32) {
        wrapping_sub(self, rhs)
    }

    fn rem(self, rhs: u32) -> (c: u32) {
        self % rhs
    }

    fn same(self, rhs: u32) -> (b: bool) {
        self == rhs
    }

    fn from_u8(byte: u8) -> (c: Option<u32>) {
        from_u8(byte)
    }

    fn from_u16(n: u16) -> (c: Option<u32>) {
        from_u16(n)
    }

    fn to_u8(self) -> (b: Option<u8>) {
        to_u8(self)
    }
}

} // verus!

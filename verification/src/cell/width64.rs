//! `u64` as a cell type, through the `num-traits` operations on `u64`.

use crate::cell::Cell;
use vstd::prelude::*;

verus! {

/// `num_traits::zero` at `u64`: the number 0.
#[verifier::external_body]
fn zero() -> (r: u64)
    ensures
        r == 0,
{
    num_traits::zero::<u64>()
}

/// `num_traits::one` at `u64`: the number 1.
#[verifier::external_body]
fn one() -> (r: u64)
    ensures
        r == 1,
{
    num_traits::one::<u64>()
}

/// `num_traits::Bounded::max_value` of `u64`: the largest `u64`.
#[verifier::external_body]
fn max_value() -> (r: u64)
    ensures
        r == u64::MAX,
{
    <u64 as num_traits::Bounded>::max_value()
}

/// `num_traits::WrappingAdd::wrapping_add` of `u64`: the sum modulo 2^64.
#[verifier::external_body]
fn wrapping_add(x: u64, y: u64) -> (r: u64)
    ensures
        r == (x + y) % 0x1_0000_0000_0000_0000,
{
    num_traits::WrappingAdd::wrapping_add(&x, &y)
}

/// `num_traits::WrappingSub::wrapping_sub` of `u64`: the difference modulo
/// 2^64.
#[verifier::external_body]
fn wrapping_sub(x: u64, y: u64) -> (r: u64)
    ensures
        r == (x - y) % 0x1_0000_0000_0000_0000,
{
    num_traits::WrappingSub::wrapping_sub(&x, &y)
}

/// `num_traits::FromPrimitive::from_u8` of `u64`: always `Some` of the same
/// number.
#[verifier::external_body]
fn from_u8(byte: u8) -> (r: Option<u64>)
    ensures
        r == Some(byte as u64),
{
    <u64 as num_traits::FromPrimitive>::from_u8(byte)
}

/// `num_traits::FromPrimitive::from_u16` of `u64`: always `Some` of the same number.
#[verifier::external_body]
fn from_u16(n: u16) -> (r: Option<u64>)
    ensures
        r == Some(n as u64),
{
    <u64 as num_traits::FromPrimitive>::from_u16(n)
}

/// `num_traits::ToPrimitive::to_u8` of `u64`: `Some` of the same number where it is at most 255, `None` above.
#[verifier::external_body]
fn to_u8(x: u64) -> (r: Option<u8>)
    ensures
        r == (if x <= 255 {
            Some(x as u8)
        } else {
            None
        }),
{
    num_traits::ToPrimitive::to_u8(&x)
}

impl Cell for u64 {
    open spec fn modulus() -> int {
        0x1_0000_0000_0000_0000
    }

    open spec fn value(self) -> int {
        self as int
    }

    proof fn lemma_range(self) {
    }

    fn zero() -> (c: u64) {
        zero()
    }

    fn one() -> (c: u64) {
        one()
    }

    fn max_value() -> (c: u64) {
        max_value()
    }

    fn wrapping_add(self, rhs: u64) -> (c: u64) {
        wrapping_add(self, rhs)
    }

    fn wrapping_sub(self, rhs: u64) -> (c: u64) {
        wrapping_sub(self, rhs)
    }

    fn rem(self, rhs: u64) -> (c: u64) {
        self % rhs
    }

    fn same(self, rhs: u64) -> (b: bool) {
        self == rhs
    }

    fn from_u8(byte: u8) -> (c: Option<u64>) {
        from_u8(byte)
    }

    fn from_u16(n: u16) -> (c: Option<u64>) {
        from_u16(n)
    }

    fn to_u8(self) -> (b: Option<u8>) {
        to_u8(self)
    }
}

} // verus!

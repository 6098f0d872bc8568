//! `u128` as a cell type, through the `num-traits` operations on `u128`.

use crate::cell::Cell;
use vstd::prelude::*;

verus! {

/// `num_traits::zero` at `u128`: the number 0.
#[verifier::external_body]
fn zero() -> (r: u128)
    ensures
        r == 0,
{
    num_traits::zero::<u128>()
}

/// `num_traits::one` at `u128`: the number 1.
#[verifier::external_body]
fn one() -> (r: u128)
    ensures
        r == 1,
{
    num_traits::one::<u128>()
}

/// `num_traits::Bounded::max_value` of `u128`: the largest `u128`.
#[verifier::external_body]
fn max_value() -> (r: u128)
    ensures
        r == u128::MAX,
{
    <u128 as num_traits::Bounded>::max_value()
}

/// `num_traits::WrappingAdd::wrapping_add` of `u128`: the sum modulo 2^128.
#[verifier::external_body]
fn wrapping_add(x: u128, y: u128) -> (r: u128)
    ensures
        r == (x + y) % 0x1_0000_0000_0000_0000_0000_0000_0000_0000int,
{
    num_traits::WrappingAdd::wrapping_add(&x, &y)
}

/// `num_traits::WrappingSub::wrapping_sub` of `u128`: the difference modulo
/// 2^128.
#[verifier::external_body]
fn wrapping_sub(x: u128, y: u128) -> (r: u128)
    ensures
        r == (x - y) % 0x1_0000_0000_0000_0000_0000_0000_0000_0000int,
{
    num_traits::WrappingSub::wrapping_sub(&x, &y)
}

/// `num_traits::FromPrimitive::from_u8` of `u128`: always `Some` of the same
/// number.
#[verifier::external_body]
fn from_u8(byte: u8) -> (r: Option<u128>)
    ensures
        r == Some(byte as u128),
{
    <u128 as num_traits::FromPrimitive>::from_u8(byte)
}

/// `num_traits::FromPrimitive::from_u16` of `u128`: always `Some` of the same number.
#[verifier::external_body]
fn from_u16(n: u16) -> (r: Option<u128>)
    ensures
        r == Some(n as u128),
{
    <u128 as num_traits::FromPrimitive>::from_u16(n)
}

/// `num_traits::ToPrimitive::to_u8` of `u128`: `Some` of the same number where it is at most 255, `None` above.
#[verifier::external_body]
fn to_u8(x: u128) -> (r: Option<u8>)
    ensures
        r == (if x <= 255 {
            Some(x as u8)
        } else {
            None
        }),
{
    num_traits::ToPrimitive::to_u8(&x)
}

impl Cell for u128 {
    open spec fn modulus() -> int {
        0x1_0000_0000_0000_0000_0000_0000_0000_0000int
    }

    open spec fn value(self) -> int {
        self as int
    }

    proof fn lemma_range(self) {
    }

    fn zero() -> (c: u128) {
        zero()
    }

    fn one() -> (c: u128) {
        one()
    }

    fn max_value() -> (c: u128) {
        max_value()
    }

    fn wrapping_add(self, rhs: u128) -> (c: u128) {
        wrapping_add(self, rhs)
    }

    fn wrapping_sub(self, rhs: u128) -> (c: u128) {
        wrapping_sub(self, rhs)
    }

    fn rem(self, rhs: u128) -> (c: u128) {
        self % rhs
    }

    fn same(self, rhs: u128) -> (b: bool) {
        self == rhs
    }

    fn from_u8(byte: u8) -> (c: Option<u128>) {
        from_u8(byte)
    }

    fn from_u16(n: u16) -> (c: Option<u128>) {
        from_u16(n)
    }

    fn to_u8(self) -> (b: Option<u8>) {
        to_u8(self)
    }
}

} // verus!

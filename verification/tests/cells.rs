use tape_vm::cell::{decrement, increment, input_cell, is_zero, output_byte};
use tape_vm::Cell;

#[test]
fn increment_wraps_at_the_top_of_each_width() {
    assert_eq!(increment(u8::MAX), 0);
    assert_eq!(increment(u16::MAX), 0);
    assert_eq!(increment(u32::MAX), 0);
    assert_eq!(increment(u64::MAX), 0);
    assert_eq!(increment(u128::MAX), 0);
    assert_eq!(increment(41u8), 42);
    assert_eq!(increment(255u16), 256);
}

#[test]
fn decrement_wraps_at_zero_of_each_width() {
    assert_eq!(decrement(0u8), u8::MAX);
    assert_eq!(decrement(0u16), u16::MAX);
    assert_eq!(decrement(0u32), u32::MAX);
    assert_eq!(decrement(0u64), u64::MAX);
    assert_eq!(decrement(0u128), u128::MAX);
    assert_eq!(decrement(42u8), 41);
    assert_eq!(decrement(256u16), 255);
}

#[test]
fn increment_then_decrement_is_the_identity() {
    for v in [0u8, 1, 127, 128, 254, 255] {
        assert_eq!(decrement(increment(v)), v);
        assert_eq!(increment(decrement(v)), v);
    }
    for v in [0u16, 1, 255, 256, 65534, 65535] {
        assert_eq!(decrement(increment(v)), v);
        assert_eq!(increment(decrement(v)), v);
    }
    for v in [0u128, 1, u128::MAX - 1, u128::MAX] {
        assert_eq!(decrement(increment(v)), v);
        assert_eq!(increment(decrement(v)), v);
    }
    assert_eq!(increment(decrement(0u32)), 0);
    assert_eq!(decrement(increment(u64::MAX)), u64::MAX);
}

#[test]
fn zero_to_max_and_back() {
    let max = decrement(0u16);
    assert_eq!(max, 65535);
    assert_eq!(increment(max), 0);
}

#[test]
fn output_byte_is_the_value_modulo_256() {
    assert_eq!(output_byte(300u16), 44);
    assert_eq!(output_byte(255u16), 255);
    assert_eq!(output_byte(256u16), 0);
    assert_eq!(output_byte(65535u16), 255);
    assert_eq!(output_byte(0x1_0000_0041u64), 0x41);
    assert_eq!(output_byte(u128::MAX), 255);
    assert_eq!(output_byte(0x1234_5678u32), 0x78);
}

#[test]
fn output_byte_of_a_byte_cell_is_the_cell() {
    for v in [0u8, 1, 44, 200, 255] {
        assert_eq!(output_byte(v), v);
    }
}

#[test]
fn input_cell_widens_the_byte() {
    assert_eq!(input_cell::<u8>(Some(200)), 200);
    assert_eq!(input_cell::<u16>(Some(200)), 200);
    assert_eq!(input_cell::<u32>(Some(0)), 0);
    assert_eq!(input_cell::<u64>(Some(255)), 255);
    assert_eq!(input_cell::<u128>(Some(47)), 47);
}

#[test]
fn input_cell_at_the_end_of_input_is_the_largest_value() {
    assert_eq!(input_cell::<u8>(None), 255);
    assert_eq!(input_cell::<u16>(None), 65535);
    assert_eq!(input_cell::<u32>(None), u32::MAX);
    assert_eq!(input_cell::<u64>(None), u64::MAX);
    assert_eq!(input_cell::<u128>(None), u128::MAX);
}

#[test]
fn is_zero_tells_zero_from_the_rest() {
    assert!(is_zero(0u8));
    assert!(!is_zero(1u8));
    assert!(is_zero(0u128));
    assert!(!is_zero(u128::MAX));
    assert!(!is_zero(256u16));
}

#[test]
fn cell_operations_on_u8() {
    assert_eq!(<u8 as Cell>::zero(), 0);
    assert_eq!(<u8 as Cell>::one(), 1);
    assert_eq!(<u8 as Cell>::max_value(), 255);
    assert_eq!(Cell::wrapping_add(250u8, 10), 4);
    assert_eq!(Cell::wrapping_sub(3u8, 5), 254);
    assert_eq!(Cell::rem(200u8, 7), 4);
    assert!(Cell::same(9u8, 9));
    assert!(!Cell::same(9u8, 10));
    assert_eq!(<u8 as Cell>::from_u8(77), Some(77));
    assert_eq!(<u8 as Cell>::from_u16(255), Some(255));
    assert_eq!(<u8 as Cell>::from_u16(256), None);
    assert_eq!(Cell::to_u8(255u8), Some(255));
}

#[test]
fn cell_operations_on_u16() {
    assert_eq!(<u16 as Cell>::zero(), 0);
    assert_eq!(<u16 as Cell>::one(), 1);
    assert_eq!(<u16 as Cell>::max_value(), 65535);
    assert_eq!(Cell::wrapping_add(65530u16, 10), 4);
    assert_eq!(Cell::wrapping_sub(3u16, 5), 65534);
    assert_eq!(Cell::rem(300u16, 256), 44);
    assert_eq!(<u16 as Cell>::from_u8(77), Some(77));
    assert_eq!(<u16 as Cell>::from_u16(256), Some(256));
    assert_eq!(Cell::to_u8(255u16), Some(255));
    assert_eq!(Cell::to_u8(256u16), None);
}

#[test]
fn cell_operations_on_u32() {
    assert_eq!(<u32 as Cell>::zero(), 0);
    assert_eq!(<u32 as Cell>::one(), 1);
    assert_eq!(<u32 as Cell>::max_value(), u32::MAX);
    assert_eq!(Cell::wrapping_add(u32::MAX, 2), 1);
    assert_eq!(Cell::wrapping_sub(0u32, 2), u32::MAX - 1);
    assert_eq!(<u32 as Cell>::from_u8(9), Some(9));
    assert_eq!(<u32 as Cell>::from_u16(65535), Some(65535));
    assert_eq!(Cell::to_u8(9u32), Some(9));
    assert_eq!(Cell::to_u8(70000u32), None);
}

#[test]
fn cell_operations_on_u64() {
    assert_eq!(<u64 as Cell>::zero(), 0);
    assert_eq!(<u64 as Cell>::one(), 1);
    assert_eq!(<u64 as Cell>::max_value(), u64::MAX);
    assert_eq!(Cell::wrapping_add(u64::MAX, 2), 1);
    assert_eq!(Cell::wrapping_sub(0u64, 2), u64::MAX - 1);
    assert_eq!(<u64 as Cell>::from_u8(9), Some(9));
    assert_eq!(<u64 as Cell>::from_u16(256), Some(256));
    assert_eq!(Cell::to_u8(9u64), Some(9));
    assert_eq!(Cell::to_u8(1u64 << 40), None);
}

#[test]
fn cell_operations_on_u128() {
    assert_eq!(<u128 as Cell>::zero(), 0);
    assert_eq!(<u128 as Cell>::one(), 1);
    assert_eq!(<u128 as Cell>::max_value(), u128::MAX);
    assert_eq!(Cell::wrapping_add(u128::MAX, 2), 1);
    assert_eq!(Cell::wrapping_sub(0u128, 2), u128::MAX - 1);
    assert_eq!(<u128 as Cell>::from_u8(9), Some(9));
    assert_eq!(<u128 as Cell>::from_u16(256), Some(256));
    assert_eq!(Cell::to_u8(9u128), Some(9));
    assert_eq!(Cell::to_u8(1u128 << 100), None);
}

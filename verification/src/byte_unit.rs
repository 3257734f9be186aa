//! Byte counts written with binary units: `4.KiB()` is 4096.
//!
//! A count is the number times the unit, as far as a `usize` holds it: what
//! does not fit is cut off, as a shift to the left does.

use vstd::arithmetic::div_mod::{lemma_mod_mod, lemma_mul_mod_noop_left, lemma_small_mod};
use vstd::prelude::*;

verus! {

/// One more than the largest byte count.
pub open spec fn byte_count_limit() -> int {
    usize::MAX + 1
}

/// A number of bytes as a byte count holds it: what is left of it below the
/// limit.
pub open spec fn wrapped(bytes: int) -> int {
    bytes % byte_count_limit()
}

/// A product that fits is held as it is.
pub proof fn lemma_wrapped_exact(bytes: int)
    requires
        0 <= bytes < byte_count_limit(),
    ensures
        wrapped(bytes) == bytes,
{
    lemma_small_mod(bytes as nat, byte_count_limit() as nat);
}

/// What is cut off at 64 bits on the way does not show in the count.
proof fn lemma_wrapped_twice(units: int, cut: int, factor: int, shifted: u64)
    requires
        cut == units % 0x1_0000_0000_0000_0000,
        shifted == (cut * factor) % 0x1_0000_0000_0000_0000,
    ensures
        wrapped(shifted as int) == wrapped(units * factor),
{
    lemma_mul_mod_noop_left(units, factor, 0x1_0000_0000_0000_0000);
    let product = units * factor;
    assert(shifted == product % 0x1_0000_0000_0000_0000);
    if usize::MAX == 0xFFFF_FFFF {
        lemma_mod_mod(product, 0x1_0000_0000, 0x1_0000_0000);
    } else {
        lemma_mod_mod(product, 0x1_0000_0000_0000_0000, 1);
    }
}

/// Masking with all ones of a width keeps what is left below that width.
proof fn lemma_low_half(shifted: u64)
    by (bit_vector)
    ensures
        shifted & 0xFFFF_FFFF == shifted % 0x1_0000_0000,
        shifted & 0xFFFF_FFFF_FFFF_FFFF == shifted,
{
}

/// What a 64-bit number is as a byte count.
fn to_count(shifted: u64) -> (bytes: usize)
    ensures
        bytes == wrapped(shifted as int),
{
    let mask: u64 = usize::MAX as u64;
    let low: u64 = shifted & mask;
    proof {
        lemma_low_half(shifted);
        if usize::MAX == 0xFFFF_FFFF {
            assert(low == shifted % 0x1_0000_0000);
        } else {
            assert(usize::MAX == 0xFFFF_FFFF_FFFF_FFFF);
            lemma_small_mod(shifted as nat, 0x1_0000_0000_0000_0000);
        }
    }
    low as usize
}

/// A shift to the left by 10 multiplies and cuts off at 64 bits.
proof fn lemma_shift_10(cut: u64)
    by (bit_vector)
    ensures
        (cut << 10) == (cut * 0x400) % 0x1_0000_0000_0000_0000,
{
}

/// The number `units`, of which `cut` is what 64 bits hold, in kibibytes.
fn shift_10(cut: u64, Ghost(units): Ghost<int>) -> (bytes: usize)
    requires
        cut == units % 0x1_0000_0000_0000_0000,
    ensures
        bytes == wrapped(units * 0x400),
{
    proof {
        lemma_shift_10(cut);
        lemma_wrapped_twice(units, cut as int, 0x400, cut << 10);
    }
    to_count(cut << 10)
}

/// A shift to the left by 20 multiplies and cuts off at 64 bits.
proof fn lemma_shift_20(cut: u64)
    by (bit_vector)
    ensures
        (cut << 20) == (cut * 0x10_0000) % 0x1_0000_0000_0000_0000,
{
}

/// The number `units`, of which `cut` is what 64 bits hold, in mebibytes.
fn shift_20(cut: u64, Ghost(units): Ghost<int>) -> (bytes: usize)
    requires
        cut == units % 0x1_0000_0000_0000_0000,
    ensures
        bytes == wrapped(units * 0x10_0000),
{
    proof {
        lemma_shift_20(cut);
        lemma_wrapped_twice(units, cut as int, 0x10_0000, cut << 20);
    }
    to_count(cut << 20)
}

/// A shift to the left by 30 multiplies and cuts off at 64 bits.
proof fn lemma_shift_30(cut: u64)
    by (bit_vector)
    ensures
        (cut << 30) == (cut * 0x4000_0000) % 0x1_0000_0000_0000_0000,
{
}

/// The number `units`, of which `cut` is what 64 bits hold, in gibibytes.
fn shift_30(cut: u64, Ghost(units): Ghost<int>) -> (bytes: usize)
    requires
        cut == units % 0x1_0000_0000_0000_0000,
    ensures
        bytes == wrapped(units * 0x4000_0000),
{
    proof {
        lemma_shift_30(cut);
        lemma_wrapped_twice(units, cut as int, 0x4000_0000, cut << 30);
    }
    to_count(cut << 30)
}

/// A shift to the left by 40 multiplies and cuts off at 64 bits.
proof fn lemma_shift_40(cut: u64)
    by (bit_vector)
    ensures
        (cut << 40) == (cut * 0x100_0000_0000) % 0x1_0000_0000_0000_0000,
{
}

/// The number `units`, of which `cut` is what 64 bits hold, in tebibytes.
fn shift_40(cut: u64, Ghost(units): Ghost<int>) -> (bytes: usize)
    requires
        cut == units % 0x1_0000_0000_0000_0000,
    ensures
        bytes == wrapped(units * 0x100_0000_0000),
{
    proof {
        lemma_shift_40(cut);
        lemma_wrapped_twice(units, cut as int, 0x100_0000_0000, cut << 40);
    }
    to_count(cut << 40)
}

/// A shift to the left by 50 multiplies and cuts off at 64 bits.
proof fn lemma_shift_50(cut: u64)
    by (bit_vector)
    ensures
        (cut << 50) == (cut * 0x4_0000_0000_0000) % 0x1_0000_0000_0000_0000,
{
}

/// The number `units`, of which `cut` is what 64 bits hold, in pebibytes.
fn shift_50(cut: u64, Ghost(units): Ghost<int>) -> (bytes: usize)
    requires
        cut == units % 0x1_0000_0000_0000_0000,
    ensures
        bytes == wrapped(units * 0x4_0000_0000_0000),
{
    proof {
        lemma_shift_50(cut);
        lemma_wrapped_twice(units, cut as int, 0x4_0000_0000_0000, cut << 50);
    }
    to_count(cut << 50)
}

/// A shift to the left by 60 multiplies and cuts off at 64 bits.
proof fn lemma_shift_60(cut: u64)
    by (bit_vector)
    ensures
        (cut << 60) == (cut * 0x1000_0000_0000_0000) % 0x1_0000_0000_0000_0000,
{
}

/// The number `units`, of which `cut` is what 64 bits hold, in exbibytes.
fn shift_60(cut: u64, Ghost(units): Ghost<int>) -> (bytes: usize)
    requires
        cut == units % 0x1_0000_0000_0000_0000,
    ensures
        bytes == wrapped(units * 0x1000_0000_0000_0000),
{
    proof {
        lemma_shift_60(cut);
        lemma_wrapped_twice(units, cut as int, 0x1000_0000_0000_0000, cut << 60);
    }
    to_count(cut << 60)
}

/// A `u8` is all there as a 64-bit number.
proof fn lemma_cut_u8(units: u8)
    ensures
        (units as u64) == (units as int) % 0x1_0000_0000_0000_0000,
{
    lemma_small_mod(units as nat, 0x1_0000_0000_0000_0000);
}

/// What 64 bits hold of a `i8`.
proof fn lemma_cut_i8(units: i8)
    by (bit_vector)
    ensures
        (units as u64) == (units as int) % 0x1_0000_0000_0000_0000,
{
}

/// A `u16` is all there as a 64-bit number.
proof fn lemma_cut_u16(units: u16)
    ensures
        (units as u64) == (units as int) % 0x1_0000_0000_0000_0000,
{
    lemma_small_mod(units as nat, 0x1_0000_0000_0000_0000);
}

/// What 64 bits hold of a `i16`.
proof fn lemma_cut_i16(units: i16)
    by (bit_vector)
    ensures
        (units as u64) == (units as int) % 0x1_0000_0000_0000_0000,
{
}

/// A `u32` is all there as a 64-bit number.
proof fn lemma_cut_u32(units: u32)
    ensures
        (units as u64) == (units as int) % 0x1_0000_0000_0000_0000,
{
    lemma_small_mod(units as nat, 0x1_0000_0000_0000_0000);
}

/// What 64 bits hold of a `i32`.
proof fn lemma_cut_i32(units: i32)
    by (bit_vector)
    ensures
        (units as u64) == (units as int) % 0x1_0000_0000_0000_0000,
{
}

/// A `u64` is all there as a 64-bit number.
proof fn lemma_cut_u64(units: u64)
    ensures
        (units as u64) == (units as int) % 0x1_0000_0000_0000_0000,
{
    lemma_small_mod(units as nat, 0x1_0000_0000_0000_0000);
}

/// What 64 bits hold of a `i64`.
proof fn lemma_cut_i64(units: i64)
    by (bit_vector)
    ensures
        (units as u64) == (units as int) % 0x1_0000_0000_0000_0000,
{
}

/// What 64 bits hold of a `u128`.
proof fn lemma_cut_u128(units: u128)
    by (bit_vector)
    ensures
        (units as u64) == (units as int) % 0x1_0000_0000_0000_0000,
{
}

/// What 64 bits hold of a `i128`.
proof fn lemma_cut_i128(units: i128)
    by (bit_vector)
    ensures
        (units as u64) == (units as int) % 0x1_0000_0000_0000_0000,
{
}

/// A `usize` is all there as a 64-bit number.
proof fn lemma_cut_usize(units: usize)
    ensures
        (units as u64) == (units as int) % 0x1_0000_0000_0000_0000,
{
    lemma_small_mod(units as nat, 0x1_0000_0000_0000_0000);
}

/// What 64 bits hold of a `isize`.
proof fn lemma_cut_isize(units: isize)
    by (bit_vector)
    ensures
        (units as u64) == (units as int) % 0x1_0000_0000_0000_0000,
{
}

/// Byte counts in kibibytes.
pub trait KiBToBytes {
    /// The number, taken as kibibytes, in bytes.
    #[allow(non_snake_case)]
    fn KiB(&self) -> usize;
}

/// Byte counts in mebibytes.
pub trait MiBToBytes {
    /// The number, taken as mebibytes, in bytes.
    #[allow(non_snake_case)]
    fn MiB(&self) -> usize;
}

/// Byte counts in gibibytes.
pub trait GiBToBytes {
    /// The number, taken as gibibytes, in bytes.
    #[allow(non_snake_case)]
    fn GiB(&self) -> usize;
}

/// Byte counts in tebibytes.
pub trait TiBToBytes {
    /// The number, taken as tebibytes, in bytes.
    #[allow(non_snake_case)]
    fn TiB(&self) -> usize;
}

/// Byte counts in pebibytes.
pub trait PiBToBytes {
    /// The number, taken as pebibytes, in bytes.
    #[allow(non_snake_case)]
    fn PiB(&self) -> usize;
}

/// Byte counts in exbibytes.
pub trait EiBToBytes {
    /// The number, taken as exbibytes, in bytes.
    #[allow(non_snake_case)]
    fn EiB(&self) -> usize;
}

/// Byte counts in zebibytes. No number of this crate has them: a byte
/// count of 64 bits cannot hold one.
pub trait ZiBToBytes {
    /// The number, taken as zebibytes, in bytes.
    #[allow(non_snake_case)]
    fn ZiB(&self) -> usize;
}

/// Byte counts in yobibytes. No number of this crate has them: a byte
/// count of 64 bits cannot hold one.
pub trait YiBToBytes {
    /// The number, taken as yobibytes, in bytes.
    #[allow(non_snake_case)]
    fn YiB(&self) -> usize;
}

impl KiBToBytes for u8 {
    #[allow(non_snake_case)]
    fn KiB(&self) -> (bytes: usize)
        ensures
            bytes == wrapped(*self * 0x400),
    {
        proof {
            lemma_cut_u8(*self);
        }
        shift_10(*self as u64, Ghost(*self as int))
    }
}

impl MiBToBytes for u8 {
    #[allow(non_snake_case)]
    fn MiB(&self) -> (bytes: usize)
        ensures
            bytes == wrapped(*self * 0x10_0000),
    {
        proof {
            lemma_cut_u8(*self);
        }
        shift_20(*self as u64, Ghost(*self as int))
    }
}

impl GiBToBytes for u8 {
    #[allow(non_snake_case)]
    fn GiB(&self) -> (bytes: usize)
        ensures
            bytes == wrapped(*self * 0x4000_0000),
    {
        proof {
            lemma_cut_u8(*self);
        }
        shift_30(*self as u64, Ghost(*self as int))
    }
}

impl TiBToBytes for u8 {
    #[allow(non_snake_case)]
    fn TiB(&self) -> (bytes: usize)
        ensures
            bytes == wrapped(*self * 0x100_0000_0000),
    {
        proof {
            lemma_cut_u8(*self);
        }
        shift_40(*self as u64, Ghost(*self as int))
    }
}

impl PiBToBytes for u8 {
    #[allow(non_snake_case)]
    fn PiB(&self) -> (bytes: usize)
        ensures
            bytes == wrapped(*self * 0x4_0000_0000_0000),
    {
        proof {
            lemma_cut_u8(*self);
        }
        shift_50(*self as u64, Ghost(*self as int))
    }
}

impl EiBToBytes for u8 {
    #[allow(non_snake_case)]
    fn EiB(&self) -> (bytes: usize)
        ensures
            bytes == wrapped(*self * 0x1000_0000_0000_0000),
    {
        proof {
            lemma_cut_u8(*self);
        }
        shift_60(*self as u64, Ghost(*self as int))
    }
}

impl KiBToBytes for i8 {
    #[allow(non_snake_case)]
    fn KiB(&self) -> (bytes: usize)
        ensures
            bytes == wrapped(*self * 0x400),
    {
        proof {
            lemma_cut_i8(*self);
        }
        shift_10(*self as u64, Ghost(*self as int))
    }
}

impl MiBToBytes for i8 {
    #[allow(non_snake_case)]
    fn MiB(&self) -> (bytes: usize)
        ensures
            bytes == wrapped(*self * 0x10_0000),
    {
        proof {
            lemma_cut_i8(*self);
        }
        shift_20(*self as u64, Ghost(*self as int))
    }
}

impl GiBToBytes for i8 {
    #[allow(non_snake_case)]
    fn GiB(&self) -> (bytes: usize)
        ensures
            bytes == wrapped(*self * 0x4000_0000),
    {
        proof {
            lemma_cut_i8(*self);
        }
        shift_30(*self as u64, Ghost(*self as int))
    }
}

impl TiBToBytes for i8 {
    #[allow(non_snake_case)]
    fn TiB(&self) -> (bytes: usize)
        ensures
            bytes == wrapped(*self * 0x100_0000_0000),
    {
        proof {
            lemma_cut_i8(*self);
        }
        shift_40(*self as u64, Ghost(*self as int))
    }
}

impl PiBToBytes for i8 {
    #[allow(non_snake_case)]
    fn PiB(&self) -> (bytes: usize)
        ensures
            bytes == wrapped(*self * 0x4_0000_0000_0000),
    {
        proof {
            lemma_cut_i8(*self);
        }
        shift_50(*self as u64, Ghost(*self as int))
    }
}

impl EiBToBytes for i8 {
    #[allow(non_snake_case)]
    fn EiB(&self) -> (bytes: usize)
        ensures
            bytes == wrapped(*self * 0x1000_0000_0000_0000),
    {
        proof {
            lemma_cut_i8(*self);
        }
        shift_60(*self as u64, Ghost(*self as int))
    }
}

impl KiBToBytes for u16 {
    #[allow(non_snake_case)]
    fn KiB(&self) -> (bytes: usize)
        ensures
            bytes == wrapped(*self * 0x400),
    {
        proof {
            lemma_cut_u16(*self);
        }
        shift_10(*self as u64, Ghost(*self as int))
    }
}

impl MiBToBytes for u16 {
    #[allow(non_snake_case)]
    fn MiB(&self) -> (bytes: usize)
        ensures
            bytes == wrapped(*self * 0x10_0000),
    {
        proof {
            lemma_cut_u16(*self);
        }
        shift_20(*self as u64, Ghost(*self as int))
    }
}

impl GiBToBytes for u16 {
    #[allow(non_snake_case)]
    fn GiB(&self) -> (bytes: usize)
        ensures
            bytes == wrapped(*self * 0x4000_0000),
    {
        proof {
            lemma_cut_u16(*self);
        }
        shift_30(*self as u64, Ghost(*self as int))
    }
}

impl TiBToBytes for u16 {
    #[allow(non_snake_case)]
    fn TiB(&self) -> (bytes: usize)
        ensures
            bytes == wrapped(*self * 0x100_0000_0000),
    {
        proof {
            lemma_cut_u16(*self);
        }
        shift_40(*self as u64, Ghost(*self as int))
    }
}

impl PiBToBytes for u16 {
    #[allow(non_snake_case)]
    fn PiB(&self) -> (bytes: usize)
        ensures
            bytes == wrapped(*self * 0x4_0000_0000_0000),
    {
        proof {
            lemma_cut_u16(*self);
        }
        shift_50(*self as u64, Ghost(*self as int))
    }
}

impl EiBToBytes for u16 {
    #[allow(non_snake_case)]
    fn EiB(&self) -> (bytes: usize)
        ensures
            bytes == wrapped(*self * 0x1000_0000_0000_0000),
    {
        proof {
            lemma_cut_u16(*self);
        }
        shift_60(*self as u64, Ghost(*self as int))
    }
}

impl KiBToBytes for i16 {
    #[allow(non_snake_case)]
    fn KiB(&self) -> (bytes: usize)
        ensures
            bytes == wrapped(*self * 0x400),
    {
        proof {
            lemma_cut_i16(*self);
        }
        shift_10(*self as u64, Ghost(*self as int))
    }
}

impl MiBToBytes for i16 {
    #[allow(non_snake_case)]
    fn MiB(&self) -> (bytes: usize)
        ensures
            bytes == wrapped(*self * 0x10_0000),
    {
        proof {
            lemma_cut_i16(*self);
        }
        shift_20(*self as u64, Ghost(*self as int))
    }
}

impl GiBToBytes for i16 {
    #[allow(non_snake_case)]
    fn GiB(&self) -> (bytes: usize)
        ensures
            bytes == wrapped(*self * 0x4000_0000),
    {
        proof {
            lemma_cut_i16(*self);
        }
        shift_30(*self as u64, Ghost(*self as int))
    }
}

impl TiBToBytes for i16 {
    #[allow(non_snake_case)]
    fn TiB(&self) -> (bytes: usize)
        ensures
            bytes == wrapped(*self * 0x100_0000_0000),
    {
        proof {
            lemma_cut_i16(*self);
        }
        shift_40(*self as u64, Ghost(*self as int))
    }
}

impl PiBToBytes for i16 {
    #[allow(non_snake_case)]
    fn PiB(&self) -> (bytes: usize)
        ensures
            bytes == wrapped(*self * 0x4_0000_0000_0000),
    {
        proof {
            lemma_cut_i16(*self);
        }
        shift_50(*self as u64, Ghost(*self as int))
    }
}

impl EiBToBytes for i16 {
    #[allow(non_snake_case)]
    fn EiB(&self) -> (bytes: usize)
        ensures
            bytes == wrapped(*self * 0x1000_0000_0000_0000),
    {
        proof {
            lemma_cut_i16(*self);
        }
        shift_60(*self as u64, Ghost(*self as int))
    }
}

impl KiBToBytes for u32 {
    #[allow(non_snake_case)]
    fn KiB(&self) -> (bytes: usize)
        ensures
            bytes == wrapped(*self * 0x400),
    {
        proof {
            lemma_cut_u32(*self);
        }
        shift_10(*self as u64, Ghost(*self as int))
    }
}

impl MiBToBytes for u32 {
    #[allow(non_snake_case)]
    fn MiB(&self) -> (bytes: usize)
        ensures
            bytes == wrapped(*self * 0x10_0000),
    {
        proof {
            lemma_cut_u32(*self);
        }
        shift_20(*self as u64, Ghost(*self as int))
    }
}

impl GiBToBytes for u32 {
    #[allow(non_snake_case)]
    fn GiB(&self) -> (bytes: usize)
        ensures
            bytes == wrapped(*self * 0x4000_0000),
    {
        proof {
            lemma_cut_u32(*self);
        }
        shift_30(*self as u64, Ghost(*self as int))
    }
}

impl TiBToBytes for u32 {
    #[allow(non_snake_case)]
    fn TiB(&self) -> (bytes: usize)
        ensures
            bytes == wrapped(*self * 0x100_0000_0000),
    {
        proof {
            lemma_cut_u32(*self);
        }
        shift_40(*self as u64, Ghost(*self as int))
    }
}

impl PiBToBytes for u32 {
    #[allow(non_snake_case)]
    fn PiB(&self) -> (bytes: usize)
        ensures
            bytes == wrapped(*self * 0x4_0000_0000_0000),
    {
        proof {
            lemma_cut_u32(*self);
        }
        shift_50(*self as u64, Ghost(*self as int))
    }
}

impl EiBToBytes for u32 {
    #[allow(non_snake_case)]
    fn EiB(&self) -> (bytes: usize)
        ensures
            bytes == wrapped(*self * 0x1000_0000_0000_0000),
    {
        proof {
            lemma_cut_u32(*self);
        }
        shift_60(*self as u64, Ghost(*self as int))
    }
}

impl KiBToBytes for i32 {
    #[allow(non_snake_case)]
    fn KiB(&self) -> (bytes: usize)
        ensures
            bytes == wrapped(*self * 0x400),
    {
        proof {
            lemma_cut_i32(*self);
        }
        shift_10(*self as u64, Ghost(*self as int))
    }
}

impl MiBToBytes for i32 {
    #[allow(non_snake_case)]
    fn MiB(&self) -> (bytes: usize)
        ensures
            bytes == wrapped(*self * 0x10_0000),
    {
        proof {
            lemma_cut_i32(*self);
        }
        shift_20(*self as u64, Ghost(*self as int))
    }
}

impl GiBToBytes for i32 {
    #[allow(non_snake_case)]
    fn GiB(&self) -> (bytes: usize)
        ensures
            bytes == wrapped(*self * 0x4000_0000),
    {
        proof {
            lemma_cut_i32(*self);
        }
        shift_30(*self as u64, Ghost(*self as int))
    }
}

impl TiBToBytes for i32 {
    #[allow(non_snake_case)]
    fn TiB(&self) -> (bytes: usize)
        ensures
            bytes == wrapped(*self * 0x100_0000_0000),
    {
        proof {
            lemma_cut_i32(*self);
        }
        shift_40(*self as u64, Ghost(*self as int))
    }
}

impl PiBToBytes for i32 {
    #[allow(non_snake_case)]
    fn PiB(&self) -> (bytes: usize)
        ensures
            bytes == wrapped(*self * 0x4_0000_0000_0000),
    {
        proof {
            lemma_cut_i32(*self);
        }
        shift_50(*self as u64, Ghost(*self as int))
    }
}

impl EiBToBytes for i32 {
    #[allow(non_snake_case)]
    fn EiB(&self) -> (bytes: usize)
        ensures
            bytes == wrapped(*self * 0x1000_0000_0000_0000),
    {
        proof {
            lemma_cut_i32(*self);
        }
        shift_60(*self as u64, Ghost(*self as int))
    }
}

impl KiBToBytes for u64 {
    #[allow(non_snake_case)]
    fn KiB(&self) -> (bytes: usize)
        ensures
            bytes == wrapped(*self * 0x400),
    {
        proof {
            lemma_cut_u64(*self);
        }
        shift_10(*self as u64, Ghost(*self as int))
    }
}

impl MiBToBytes for u64 {
    #[allow(non_snake_case)]
    fn MiB(&self) -> (bytes: usize)
        ensures
            bytes == wrapped(*self * 0x10_0000),
    {
        proof {
            lemma_cut_u64(*self);
        }
        shift_20(*self as u64, Ghost(*self as int))
    }
}

impl GiBToBytes for u64 {
    #[allow(non_snake_case)]
    fn GiB(&self) -> (bytes: usize)
        ensures
            bytes == wrapped(*self * 0x4000_0000),
    {
        proof {
            lemma_cut_u64(*self);
        }
        shift_30(*self as u64, Ghost(*self as int))
    }
}

impl TiBToBytes for u64 {
    #[allow(non_snake_case)]
    fn TiB(&self) -> (bytes: usize)
        ensures
            bytes == wrapped(*self * 0x100_0000_0000),
    {
        proof {
            lemma_cut_u64(*self);
        }
        shift_40(*self as u64, Ghost(*self as int))
    }
}

impl PiBToBytes for u64 {
    #[allow(non_snake_case)]
    fn PiB(&self) -> (bytes: usize)
        ensures
            bytes == wrapped(*self * 0x4_0000_0000_0000),
    {
        proof {
            lemma_cut_u64(*self);
        }
        shift_50(*self as u64, Ghost(*self as int))
    }
}

impl EiBToBytes for u64 {
    #[allow(non_snake_case)]
    fn EiB(&self) -> (bytes: usize)
        ensures
            bytes == wrapped(*self * 0x1000_0000_0000_0000),
    {
        proof {
            lemma_cut_u64(*self);
        }
        shift_60(*self as u64, Ghost(*self as int))
    }
}

impl KiBToBytes for i64 {
    #[allow(non_snake_case)]
    fn KiB(&self) -> (bytes: usize)
        ensures
            bytes == wrapped(*self * 0x400),
    {
        proof {
            lemma_cut_i64(*self);
        }
        shift_10(*self as u64, Ghost(*self as int))
    }
}

impl MiBToBytes for i64 {
    #[allow(non_snake_case)]
    fn MiB(&self) -> (bytes: usize)
        ensures
            bytes == wrapped(*self * 0x10_0000),
    {
        proof {
            lemma_cut_i64(*self);
        }
        shift_20(*self as u64, Ghost(*self as int))
    }
}

impl GiBToBytes for i64 {
    #[allow(non_snake_case)]
    fn GiB(&self) -> (bytes: usize)
        ensures
            bytes == wrapped(*self * 0x4000_0000),
    {
        proof {
            lemma_cut_i64(*self);
        }
        shift_30(*self as u64, Ghost(*self as int))
    }
}

impl TiBToBytes for i64 {
    #[allow(non_snake_case)]
    fn TiB(&self) -> (bytes: usize)
        ensures
            bytes == wrapped(*self * 0x100_0000_0000),
    {
        proof {
            lemma_cut_i64(*self);
        }
        shift_40(*self as u64, Ghost(*self as int))
    }
}

impl PiBToBytes for i64 {
    #[allow(non_snake_case)]
    fn PiB(&self) -> (bytes: usize)
        ensures
            bytes == wrapped(*self * 0x4_0000_0000_0000),
    {
        proof {
            lemma_cut_i64(*self);
        }
        shift_50(*self as u64, Ghost(*self as int))
    }
}

impl EiBToBytes for i64 {
    #[allow(non_snake_case)]
    fn EiB(&self) -> (bytes: usize)
        ensures
            bytes == wrapped(*self * 0x1000_0000_0000_0000),
    {
        proof {
            lemma_cut_i64(*self);
        }
        shift_60(*self as u64, Ghost(*self as int))
    }
}

impl KiBToBytes for u128 {
    #[allow(non_snake_case)]
    fn KiB(&self) -> (bytes: usize)
        ensures
            bytes == wrapped(*self * 0x400),
    {
        proof {
            lemma_cut_u128(*self);
        }
        shift_10(*self as u64, Ghost(*self as int))
    }
}

impl MiBToBytes for u128 {
    #[allow(non_snake_case)]
    fn MiB(&self) -> (bytes: usize)
        ensures
            bytes == wrapped(*self * 0x10_0000),
    {
        proof {
            lemma_cut_u128(*self);
        }
        shift_20(*self as u64, Ghost(*self as int))
    }
}

impl GiBToBytes for u128 {
    #[allow(non_snake_case)]
    fn GiB(&self) -> (bytes: usize)
        ensures
            bytes == wrapped(*self * 0x4000_0000),
    {
        proof {
            lemma_cut_u128(*self);
        }
        shift_30(*self as u64, Ghost(*self as int))
    }
}

impl TiBToBytes for u128 {
    #[allow(non_snake_case)]
    fn TiB(&self) -> (bytes: usize)
        ensures
            bytes == wrapped(*self * 0x100_0000_0000),
    {
        proof {
            lemma_cut_u128(*self);
        }
        shift_40(*self as u64, Ghost(*self as int))
    }
}

impl PiBToBytes for u128 {
    #[allow(non_snake_case)]
    fn PiB(&self) -> (bytes: usize)
        ensures
            bytes == wrapped(*self * 0x4_0000_0000_0000),
    {
        proof {
            lemma_cut_u128(*self);
        }
        shift_50(*self as u64, Ghost(*self as int))
    }
}

impl EiBToBytes for u128 {
    #[allow(non_snake_case)]
    fn EiB(&self) -> (bytes: usize)
        ensures
            bytes == wrapped(*self * 0x1000_0000_0000_0000),
    {
        proof {
            lemma_cut_u128(*self);
        }
        shift_60(*self as u64, Ghost(*self as int))
    }
}

impl KiBToBytes for i128 {
    #[allow(non_snake_case)]
    fn KiB(&self) -> (bytes: usize)
        ensures
            bytes == wrapped(*self * 0x400),
    {
        proof {
            lemma_cut_i128(*self);
        }
        shift_10(*self as u64, Ghost(*self as int))
    }
}

impl MiBToBytes for i128 {
    #[allow(non_snake_case)]
    fn MiB(&self) -> (bytes: usize)
        ensures
            bytes == wrapped(*self * 0x10_0000),
    {
        proof {
            lemma_cut_i128(*self);
        }
        shift_20(*self as u64, Ghost(*self as int))
    }
}

impl GiBToBytes for i128 {
    #[allow(non_snake_case)]
    fn GiB(&self) -> (bytes: usize)
        ensures
            bytes == wrapped(*self * 0x4000_0000),
    {
        proof {
            lemma_cut_i128(*self);
        }
        shift_30(*self as u64, Ghost(*self as int))
    }
}

impl TiBToBytes for i128 {
    #[allow(non_snake_case)]
    fn TiB(&self) -> (bytes: usize)
        ensures
            bytes == wrapped(*self * 0x100_0000_0000),
    {
        proof {
            lemma_cut_i128(*self);
        }
        shift_40(*self as u64, Ghost(*self as int))
    }
}

impl PiBToBytes for i128 {
    #[allow(non_snake_case)]
    fn PiB(&self) -> (bytes: usize)
        ensures
            bytes == wrapped(*self * 0x4_0000_0000_0000),
    {
        proof {
            lemma_cut_i128(*self);
        }
        shift_50(*self as u64, Ghost(*self as int))
    }
}

impl EiBToBytes for i128 {
    #[allow(non_snake_case)]
    fn EiB(&self) -> (bytes: usize)
        ensures
            bytes == wrapped(*self * 0x1000_0000_0000_0000),
    {
        proof {
            lemma_cut_i128(*self);
        }
        shift_60(*self as u64, Ghost(*self as int))
    }
}

impl KiBToBytes for usize {
    #[allow(non_snake_case)]
    fn KiB(&self) -> (bytes: usize)
        ensures
            bytes == wrapped(*self * 0x400),
    {
        proof {
            lemma_cut_usize(*self);
        }
        shift_10(*self as u64, Ghost(*self as int))
    }
}

impl MiBToBytes for usize {
    #[allow(non_snake_case)]
    fn MiB(&self) -> (bytes: usize)
        ensures
            bytes == wrapped(*self * 0x10_0000),
    {
        proof {
            lemma_cut_usize(*self);
        }
        shift_20(*self as u64, Ghost(*self as int))
    }
}

impl GiBToBytes for usize {
    #[allow(non_snake_case)]
    fn GiB(&self) -> (bytes: usize)
        ensures
            bytes == wrapped(*self * 0x4000_0000),
    {
        proof {
            lemma_cut_usize(*self);
        }
        shift_30(*self as u64, Ghost(*self as int))
    }
}

impl TiBToBytes for usize {
    #[allow(non_snake_case)]
    fn TiB(&self) -> (bytes: usize)
        ensures
            bytes == wrapped(*self * 0x100_0000_0000),
    {
        proof {
            lemma_cut_usize(*self);
        }
        shift_40(*self as u64, Ghost(*self as int))
    }
}

impl PiBToBytes for usize {
    #[allow(non_snake_case)]
    fn PiB(&self) -> (bytes: usize)
        ensures
            bytes == wrapped(*self * 0x4_0000_0000_0000),
    {
        proof {
            lemma_cut_usize(*self);
        }
        shift_50(*self as u64, Ghost(*self as int))
    }
}

impl EiBToBytes for usize {
    #[allow(non_snake_case)]
    fn EiB(&self) -> (bytes: usize)
        ensures
            bytes == wrapped(*self * 0x1000_0000_0000_0000),
    {
        proof {
            lemma_cut_usize(*self);
        }
        shift_60(*self as u64, Ghost(*self as int))
    }
}

impl KiBToBytes for isize {
    #[allow(non_snake_case)]
    fn KiB(&self) -> (bytes: usize)
        ensures
            bytes == wrapped(*self * 0x400),
    {
        proof {
            lemma_cut_isize(*self);
        }
        shift_10(*self as u64, Ghost(*self as int))
    }
}

impl MiBToBytes for isize {
    #[allow(non_snake_case)]
    fn MiB(&self) -> (bytes: usize)
        ensures
            bytes == wrapped(*self * 0x10_0000),
    {
        proof {
            lemma_cut_isize(*self);
        }
        shift_20(*self as u64, Ghost(*self as int))
    }
}

impl GiBToBytes for isize {
    #[allow(non_snake_case)]
    fn GiB(&self) -> (bytes: usize)
        ensures
            bytes == wrapped(*self * 0x4000_0000),
    {
        proof {
            lemma_cut_isize(*self);
        }
        shift_30(*self as u64, Ghost(*self as int))
    }
}

impl TiBToBytes for isize {
    #[allow(non_snake_case)]
    fn TiB(&self) -> (bytes: usize)
        ensures
            bytes == wrapped(*self * 0x100_0000_0000),
    {
        proof {
            lemma_cut_isize(*self);
        }
        shift_40(*self as u64, Ghost(*self as int))
    }
}

impl PiBToBytes for isize {
    #[allow(non_snake_case)]
    fn PiB(&self) -> (bytes: usize)
        ensures
            bytes == wrapped(*self * 0x4_0000_0000_0000),
    {
        proof {
            lemma_cut_isize(*self);
        }
        shift_50(*self as u64, Ghost(*self as int))
    }
}

impl EiBToBytes for isize {
    #[allow(non_snake_case)]
    fn EiB(&self) -> (bytes: usize)
        ensures
            bytes == wrapped(*self * 0x1000_0000_0000_0000),
    {
        proof {
            lemma_cut_isize(*self);
        }
        shift_60(*self as u64, Ghost(*self as int))
    }
}

} // verus!

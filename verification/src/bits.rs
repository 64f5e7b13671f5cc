//! Small bit-level helpers shared by the bus, the PPU and the processor:
//! 32-bit rotation, arithmetic shift, bit tests, and the lemmas about
//! masking that keep every table index in bounds.

use vstd::prelude::*;

verus! {

/// `x` rotated right by `s` bits, for `s < 32`.
pub open spec fn rot_right32(x: u32, s: u32) -> u32
    recommends
        s < 32,
{
    if s == 0 {
        x
    } else {
        (x >> s) | (x << (32 - s) as u32)
    }
}

/// Whether bit `i` of `x` is set, for `i < 32`.
pub open spec fn bit_set(x: u32, i: u32) -> bool
    recommends
        i < 32,
{
    (x >> i) & 1 == 1
}

/// `x` shifted right arithmetically by `s` bits, for `s < 32`: the sign
/// bit is replicated into the vacated positions.
pub open spec fn asr32(x: u32, s: u32) -> u32
    recommends
        s < 32,
{
    if s == 0 {
        x
    } else if bit_set(x, 31) {
        (x >> s) | (0xFFFF_FFFFu32 << (32 - s) as u32)
    } else {
        x >> s
    }
}

/// Executable 32-bit rotate right.
pub fn rotate_right32(x: u32, s: u32) -> (r: u32)
    requires
        s < 32,
    ensures
        r == rot_right32(x, s),
{
    if s == 0 {
        x
    } else {
        (x >> s) | (x << (32 - s))
    }
}

/// Executable arithmetic shift right.
pub fn arith_shift_right32(x: u32, s: u32) -> (r: u32)
    requires
        s < 32,
    ensures
        r == asr32(x, s),
{
    if s == 0 {
        x
    } else if (x >> 31) & 1 == 1 {
        (x >> s) | (0xFFFF_FFFFu32 << (32 - s))
    } else {
        x >> s
    }
}

/// Addition on `u32` that wraps around on overflow.
pub open spec fn wadd(a: u32, b: u32) -> u32 {
    vstd::wrapping::u32_specs::wrapping_add(a, b)
}

/// Subtraction on `u32` that wraps around on underflow.
pub open spec fn wsub(a: u32, b: u32) -> u32 {
    vstd::wrapping::u32_specs::wrapping_sub(a, b)
}

/// Every mask used to index a backing buffer keeps the index under the
/// buffer's length.
pub proof fn lemma_mask_bounds()
    by (bit_vector)
    ensures
        forall|a: u32| #[trigger] (a & 0x3_FFFF) < 0x4_0000,
        forall|a: u32| #[trigger] (a & 0x7FFF) < 0x8000,
        forall|a: u32| #[trigger] (a & 0x1FF_FFFF) < 0x200_0000,
        forall|a: u32| #[trigger] (a & 0x3FF) < 0x400,
        forall|a: u32| #[trigger] ((a & 0x3FE) >> 1) < 0x200,
        forall|a: u32| (a & 0x3FE) + 1 < 0x400,
        forall|a: u32| #[trigger] (a & 0x1_7FFF) < 0x1_8000,
        forall|a: u32| #[trigger] ((a >> 16) & 1) == 0 || ((a >> 16) & 1) == 1,
        forall|a: u32| (a >> 16) & 1 == 0 ==> #[trigger] (a & 0x1_FFFF) < 0x1_0000,
        forall|a: u32| #[trigger] (a & 0xFFFF) < 0x1_0000,
        forall|a: u32| #[trigger] (a & 0xF) < 16,
        forall|a: u32| #[trigger] (a & 0x1F) < 32,
        forall|a: u32| #[trigger] (a & 0xFF) < 0x100,
        forall|a: u32| #[trigger] (a & 0xFFF) < 0x1000,
        forall|a: u32| #[trigger] (a & 0x7) < 8,
        forall|a: u32| #[trigger] (a & 3) < 4,
        forall|a: u32| #[trigger] (a & 1) < 2,
        forall|a: u32| #[trigger] (a >> 0) == a,
{
}

} // verus!

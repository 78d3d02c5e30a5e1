//! The packed pixel format: one `u32` holding red, green and blue bytes,
//! red in bits 16..24, green in bits 8..16 and blue in bits 0..8.

use vstd::prelude::*;

verus! {

/// The integer value of the pixel with the given channel bytes.
pub open spec fn packed_value(r: u8, g: u8, b: u8) -> int {
    r as int * 65536 + g as int * 256 + b as int
}

/// Packs three channel bytes into one pixel.
pub fn pack_rgb(r: u8, g: u8, b: u8) -> (p: u32)
    ensures
        p as int == packed_value(r, g, b),
        p < 0x0100_0000,
{
    let (r32, g32, b32) = (r as u32, g as u32, b as u32);
    let p = b32 | (g32 << 8u32) | (r32 << 16u32);
    assert(b32 | (g32 << 8u32) | (r32 << 16u32) == r32 * 65536 + g32 * 256 + b32) by (bit_vector)
        requires
            r32 < 256,
            g32 < 256,
            b32 < 256,
    ;
    p
}


/// The red byte of a pixel value.
pub open spec fn red_byte(p: int) -> int {
    (p / 65536) % 256
}

/// The green byte of a pixel value.
pub open spec fn green_byte(p: int) -> int {
    (p / 256) % 256
}

/// The blue byte of a pixel value.
pub open spec fn blue_byte(p: int) -> int {
    p % 256
}

/// Reads the red byte of a pixel.
pub fn red_of(p: u32) -> (r: u8)
    ensures
        r as int == red_byte(p as int),
{
    let v = (p >> 16u32) & 0xFFu32;
    assert(v == (p / 65536) % 256 && v < 256) by (bit_vector)
        requires
            v == (p >> 16u32) & 0xFFu32,
    ;
    v as u8
}

/// Reads the green byte of a pixel.
pub fn green_of(p: u32) -> (g: u8)
    ensures
        g as int == green_byte(p as int),
{
    let v = (p >> 8u32) & 0xFFu32;
    assert(v == (p / 256) % 256 && v < 256) by (bit_vector)
        requires
            v == (p >> 8u32) & 0xFFu32,
    ;
    v as u8
}

/// Reads the blue byte of a pixel.
pub fn blue_of(p: u32) -> (b: u8)
    ensures
        b as int == blue_byte(p as int),
{
    let v = p & 0xFFu32;
    assert(v == p % 256 && v < 256) by (bit_vector)
        requires
            v == p & 0xFFu32,
    ;
    v as u8
}

/// Each channel byte packed into a pixel is read back unchanged from its own
/// position: red from the high byte, green from the middle, blue from the low.
pub proof fn lemma_pack_channels(r: u8, g: u8, b: u8)
    ensures
        red_byte(packed_value(r, g, b)) == r as int,
        green_byte(packed_value(r, g, b)) == g as int,
        blue_byte(packed_value(r, g, b)) == b as int,
{
    let (ri, gi, bi) = (r as int, g as int, b as int);
    assert((ri * 65536 + gi * 256 + bi) / 65536 == ri) by (nonlinear_arith)
        requires
            0 <= ri < 256,
            0 <= gi < 256,
            0 <= bi < 256,
    ;
    assert((ri * 65536 + gi * 256 + bi) / 256 == ri * 256 + gi) by (nonlinear_arith)
        requires
            0 <= ri < 256,
            0 <= gi < 256,
            0 <= bi < 256,
    ;
    assert((ri * 256 + gi) % 256 == gi) by (nonlinear_arith)
        requires
            0 <= ri < 256,
            0 <= gi < 256,
    ;
    assert((ri * 65536 + gi * 256 + bi) % 256 == bi) by (nonlinear_arith)
        requires
            0 <= ri < 256,
            0 <= gi < 256,
            0 <= bi < 256,
    ;
}

} // verus!

//! RGB565 colors, the pixel format of the ST7789 panel: five bits of red,
//! six of green and five of blue in one 16-bit word, sent high byte first.

use vstd::prelude::*;

verus! {

/// The RGB565 word of an 8-bit-per-channel color: the top five bits of red,
/// the top six of green and the top five of blue.
pub open spec fn rgb565_spec(r: u8, g: u8, b: u8) -> int {
    (r as int / 8) * 2048 + (g as int / 4) * 32 + b as int / 8
}

/// The red field (0..=31) of an RGB565 word.
pub open spec fn red5(v: int) -> int {
    v / 2048
}

/// The green field (0..=63) of an RGB565 word.
pub open spec fn green6(v: int) -> int {
    (v / 32) % 64
}

/// The blue field (0..=31) of an RGB565 word.
pub open spec fn blue5(v: int) -> int {
    v % 32
}

/// The word that the two bytes `hi`, `lo` of a pixel hold.
pub open spec fn word_of(hi: u8, lo: u8) -> int {
    hi as int * 256 + lo as int
}

/// Packs an 8-bit-per-channel color into RGB565, dropping the low bits of
/// each channel.
pub fn rgb565(r: u8, g: u8, b: u8) -> (v: u16)
    ensures
        v == rgb565_spec(r, g, b),
{
    let v: u16 = ((r as u16 & 0xF8) << 8) | ((g as u16 & 0xFC) << 3) | (b as u16 >> 3);
    assert(v == (r / 8) * 2048 + (g / 4) * 32 + b / 8) by (bit_vector)
        requires
            v == ((r as u16 & 0xF8) << 8) | ((g as u16 & 0xFC) << 3) | (b as u16 >> 3),
    ;
    v
}

/// Expands the RGB565 pixel stored as `hi`, `lo` into 8-bit channels, each
/// field shifted to the top of its byte (the conversion the preview image
/// of the headless display uses).
pub fn rgb888_of_pixel(hi: u8, lo: u8) -> (rgb: [u8; 3])
    ensures
        rgb[0] == red5(word_of(hi, lo)) * 8,
        rgb[1] == green6(word_of(hi, lo)) * 4,
        rgb[2] == blue5(word_of(hi, lo)) * 8,
{
    let raw: u16 = ((hi as u16) << 8) | lo as u16;
    assert(raw == hi * 256 + lo) by (bit_vector)
        requires
            raw == ((hi as u16) << 8) | lo as u16,
    ;
    let r: u8 = (((raw >> 11) & 0x1F) << 3) as u8;
    let g: u8 = (((raw >> 5) & 0x3F) << 2) as u8;
    let b: u8 = ((raw & 0x1F) << 3) as u8;
    assert(r == (raw / 2048) * 8 && g == ((raw / 32) % 64) * 4 && b == (raw % 32) * 8) by (bit_vector)
        requires
            r == (((raw >> 11) & 0x1F) << 3) as u8,
            g == (((raw >> 5) & 0x3F) << 2) as u8,
            b == ((raw & 0x1F) << 3) as u8,
    ;
    [r, g, b]
}

/// Packing a color into RGB565 and expanding it again keeps the top five
/// bits of red and blue and the top six bits of green, and clears the rest.
pub proof fn lemma_expand_after_pack(r: u8, g: u8, b: u8)
    ensures
        red5(rgb565_spec(r, g, b)) * 8 == r as int - r as int % 8,
        green6(rgb565_spec(r, g, b)) * 4 == g as int - g as int % 4,
        blue5(rgb565_spec(r, g, b)) * 8 == b as int - b as int % 8,
{
    let v = rgb565_spec(r, g, b);
    assert(red5(v) == r as int / 8) by (nonlinear_arith)
        requires
            v == (r as int / 8) * 2048 + (g as int / 4) * 32 + b as int / 8,
            0 <= r as int <= 255,
            0 <= g as int <= 255,
            0 <= b as int <= 255,
    ;
    assert(green6(v) == g as int / 4) by (nonlinear_arith)
        requires
            v == (r as int / 8) * 2048 + (g as int / 4) * 32 + b as int / 8,
            0 <= r as int <= 255,
            0 <= g as int <= 255,
            0 <= b as int <= 255,
    ;
    assert(blue5(v) == b as int / 8) by (nonlinear_arith)
        requires
            v == (r as int / 8) * 2048 + (g as int / 4) * 32 + b as int / 8,
            0 <= r as int <= 255,
            0 <= g as int <= 255,
            0 <= b as int <= 255,
    ;
}

/// Every RGB565 word is the packing of its own expansion: expanding a pixel
/// and packing it again gives back the same word.
pub proof fn lemma_pack_after_expand(hi: u8, lo: u8)
    ensures
        rgb565_spec(
            (red5(word_of(hi, lo)) * 8) as u8,
            (green6(word_of(hi, lo)) * 4) as u8,
            (blue5(word_of(hi, lo)) * 8) as u8,
        ) == word_of(hi, lo),
{
    let v = word_of(hi, lo);
    assert(0 <= v < 65536);
    let r = red5(v);
    let g = green6(v);
    let b = blue5(v);
    assert(0 <= r < 32);
    assert(0 <= g < 64);
    assert(0 <= b < 32);
    assert(v == r * 2048 + g * 32 + b);
    assert((r * 8) / 8 == r);
    assert((g * 4) / 4 == g);
    assert((b * 8) / 8 == b);
}

} // verus!

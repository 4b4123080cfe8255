//! The 240x280 RGB565 framebuffer that the menu is drawn into, two bytes
//! per pixel, high byte first, rows top to bottom.

use vstd::prelude::*;

use crate::color::{blue5, green6, red5, rgb565_spec, word_of};

verus! {

/// Width of the panel in pixels.
pub const WIDTH: u32 = 240;

/// Height of the panel in pixels.
pub const HEIGHT: u32 = 280;

/// Size of a frame in bytes.
pub const BUF_SIZE: usize = 134400;

/// Whether `(x, y)` lies on the panel.
pub open spec fn on_screen(x: int, y: int) -> bool {
    0 <= x < WIDTH && 0 <= y < HEIGHT
}

/// Offset of the high byte of pixel `(x, y)` in a frame.
pub open spec fn byte_index(x: int, y: int) -> int {
    (y * WIDTH + x) * 2
}

/// The RGB565 word of pixel `(x, y)` of frame `s`.
pub open spec fn pixel_word(s: Seq<u8>, x: int, y: int) -> int {
    word_of(s[byte_index(x, y)], s[byte_index(x, y) + 1])
}

/// Column of the pixel that byte `k` of a frame belongs to.
pub open spec fn column_of(k: int) -> int {
    (k / 2) % WIDTH as int
}

/// Row of the pixel that byte `k` of a frame belongs to.
pub open spec fn row_of(k: int) -> int {
    (k / 2) / WIDTH as int
}

/// Frame `s` with pixel `(x, y)` set to `word`; unchanged when the point
/// is off the panel.
pub open spec fn with_pixel(s: Seq<u8>, x: int, y: int, word: int) -> Seq<u8> {
    if on_screen(x, y) {
        s.update(byte_index(x, y), (word / 256) as u8).update(byte_index(x, y) + 1, (word % 256) as u8)
    } else {
        s
    }
}

/// Whether `(px, py)` lies within `r` of the corner center `(cx, cy)`.
pub open spec fn in_corner_disc(px: int, py: int, cx: int, cy: int, r: int) -> bool {
    (px - cx) * (px - cx) + (py - cy) * (py - cy) <= r * r
}

/// Whether pixel `(px, py)` of a `w` x `h` image lies inside the image
/// with its four corners rounded to radius `r` (no rounding when `r <= 0`).
/// Each corner square of side `r` keeps only the pixels within `r` of the
/// center placed `r` pixels in from both of its outer edges.
pub open spec fn inside_rounded_rect(px: int, py: int, w: int, h: int, r: int) -> bool {
    if r <= 0 {
        true
    } else if px < r && py < r {
        in_corner_disc(px, py, r, r, r)
    } else if px >= w - r && py < r {
        in_corner_disc(px, py, w - r - 1, r, r)
    } else if px < r && py >= h - r {
        in_corner_disc(px, py, r, h - r - 1, r)
    } else if px >= w - r && py >= h - r {
        in_corner_disc(px, py, w - r - 1, h - r - 1, r)
    } else {
        true
    }
}

/// One channel of a source-over blend with opacity `a` out of 255,
/// rounded down.
pub open spec fn blend_channel(src: int, dst: int, a: int) -> int {
    (src * a + dst * (255 - a)) / 255
}

/// The RGB565 word that a source pixel `(sr, sg, sb, sa)` leaves over the
/// RGB565 word `bg`: its own color when fully opaque, otherwise each of its
/// channels, cut to the field's width, blended into the field of `bg`.
pub open spec fn blended_word(sr: u8, sg: u8, sb: u8, sa: u8, bg: int) -> int {
    if sa == 255 {
        rgb565_spec(sr, sg, sb)
    } else {
        blend_channel(sr as int / 8, red5(bg), sa as int) * 2048
            + blend_channel(sg as int / 4, green6(bg), sa as int) * 32
            + blend_channel(sb as int / 8, blue5(bg), sa as int)
    }
}

/// Offset of pixel `(px, py)` in a row-major RGBA image `w` pixels wide.
pub open spec fn source_offset(w: u32, px: int, py: int) -> int {
    (py * w + px) * 4
}

/// Whether blitting the `w` x `h` RGBA image `rgba` at `(dst_x, dst_y)` with
/// corner radius `corner` paints the panel pixel `(x, y)`: the pixel falls
/// on the image, inside its rounded outline, the image holds its four
/// bytes, and its alpha is not zero.
pub open spec fn blit_hits(
    dst_x: i32,
    dst_y: i32,
    w: u32,
    h: u32,
    corner: u32,
    rgba: Seq<u8>,
    x: int,
    y: int,
) -> bool {
    let px = x - dst_x;
    let py = y - dst_y;
    &&& 0 <= px < w
    &&& 0 <= py < h
    &&& inside_rounded_rect(px, py, w as int, h as int, (corner as i32) as int)
    &&& source_offset(w, px, py) + 3 < rgba.len()
    &&& rgba[source_offset(w, px, py) + 3] != 0
}

/// The word that pixel `(x, y)` of frame `old` holds after the blit paints it.
pub open spec fn blit_word(
    old: Seq<u8>,
    dst_x: i32,
    dst_y: i32,
    w: u32,
    rgba: Seq<u8>,
    x: int,
    y: int,
) -> int {
    let o = source_offset(w, x - dst_x, y - dst_y);
    blended_word(rgba[o], rgba[o + 1], rgba[o + 2], rgba[o + 3], pixel_word(old, x, y))
}

/// Byte `k` of a frame in which the pixel of `k` is painted with `word`.
pub open spec fn word_byte(k: int, word: int) -> u8 {
    if k % 2 == 0 {
        (word / 256) as u8
    } else {
        (word % 256) as u8
    }
}

/// Frame `old` after the blit: every pixel the blit paints holds its
/// blended word, every other byte is unchanged.
pub open spec fn blit_image(
    old: Seq<u8>,
    dst_x: i32,
    dst_y: i32,
    w: u32,
    h: u32,
    corner: u32,
    rgba: Seq<u8>,
) -> Seq<u8> {
    Seq::new(
        old.len(),
        |k: int|
            if blit_hits(dst_x, dst_y, w, h, corner, rgba, column_of(k), row_of(k)) {
                word_byte(k, blit_word(old, dst_x, dst_y, w, rgba, column_of(k), row_of(k)))
            } else {
                old[k]
            },
    )
}

/// Whether source pixel `(px, py)` comes before `(col, row)` in row-major
/// order.
spec fn visited_before(px: int, py: int, row: int, col: int) -> bool {
    py < row || (py == row && px < col)
}

/// The blit carried out on the source pixels before `(col, row)`.
spec fn blit_partial(
    old: Seq<u8>,
    dst_x: i32,
    dst_y: i32,
    w: u32,
    h: u32,
    corner: u32,
    rgba: Seq<u8>,
    row: int,
    col: int,
) -> Seq<u8> {
    Seq::new(
        old.len(),
        |k: int|
            if blit_hits(dst_x, dst_y, w, h, corner, rgba, column_of(k), row_of(k))
                && visited_before(column_of(k) - dst_x, row_of(k) - dst_y, row, col) {
                word_byte(k, blit_word(old, dst_x, dst_y, w, rgba, column_of(k), row_of(k)))
            } else {
                old[k]
            },
    )
}

/// The bytes of a frame that belong to pixel `(x, y)` are exactly the two
/// at its byte index.
proof fn lemma_bytes_of_pixel(k: int, x: int, y: int)
    requires
        0 <= k < BUF_SIZE,
        on_screen(x, y),
    ensures
        (column_of(k) == x && row_of(k) == y) <==> (k == byte_index(x, y) || k == byte_index(x, y)
            + 1),
        on_screen(column_of(k), row_of(k)),
        k % 2 == 0 <==> k == byte_index(column_of(k), row_of(k)),
        k % 2 == 1 <==> k == byte_index(column_of(k), row_of(k)) + 1,
{
}

/// Integer form of the rounded-rectangle test; the squares are taken in
/// 64 bits, where no pixel of an image up to 2^31 wide can overflow them.
fn inside_rounded_rect_exec(px: i64, py: i64, w: i64, h: i64, r: i64) -> (b: bool)
    requires
        0 <= px < w <= i32::MAX,
        0 <= py < h <= i32::MAX,
        r <= i32::MAX,
    ensures
        b == inside_rounded_rect(px as int, py as int, w as int, h as int, r as int),
{
    if r <= 0 {
        return true;
    }
    let (cx, cy): (i64, i64) = if px < r && py < r {
        (r, r)
    } else if px >= w - r && py < r {
        (w - r - 1, r)
    } else if px < r && py >= h - r {
        (r, h - r - 1)
    } else if px >= w - r && py >= h - r {
        (w - r - 1, h - r - 1)
    } else {
        return true;
    };
    let dx = px - cx;
    let dy = py - cy;
    assert(-r <= dx <= r && -r <= dy <= r);
    assert(0 <= dx * dx <= r * r && 0 <= dy * dy <= r * r && r * r < 0x4000_0000_0000_0000)
        by (nonlinear_arith)
        requires
            -r <= dx <= r,
            -r <= dy <= r,
            0 < r <= 0x7fff_ffff,
    ;
    dx * dx + dy * dy <= r * r
}

/// The two bytes of the pixel that source pixel `(sr, sg, sb, sa)` leaves
/// over the pixel stored as `hi`, `lo`.
fn blend_pixel(hi: u8, lo: u8, sr: u8, sg: u8, sb: u8, sa: u8) -> (out: (u8, u8))
    ensures
        out.0 == blended_word(sr, sg, sb, sa, word_of(hi, lo)) / 256,
        out.1 == blended_word(sr, sg, sb, sa, word_of(hi, lo)) % 256,
{
    let v: u16 = if sa == 255 {
        let v: u16 = ((sr as u16 & 0xF8) << 8) | ((sg as u16 & 0xFC) << 3) | (sb as u16 >> 3);
        assert(v == (sr / 8) * 2048 + (sg / 4) * 32 + sb / 8) by (bit_vector)
            requires
                v == ((sr as u16 & 0xF8) << 8) | ((sg as u16 & 0xFC) << 3) | (sb as u16 >> 3),
        ;
        v
    } else {
        let bg: u16 = ((hi as u16) << 8) | lo as u16;
        let br: u16 = (bg >> 11) & 0x1F;
        let bgr: u16 = (bg >> 5) & 0x3F;
        let bb: u16 = bg & 0x1F;
        assert(bg == hi * 256 + lo && br == bg / 2048 && bgr == (bg / 32) % 64 && bb == bg % 32)
            by (bit_vector)
            requires
                bg == ((hi as u16) << 8) | lo as u16,
                br == (bg >> 11) & 0x1F,
                bgr == (bg >> 5) & 0x3F,
                bb == bg & 0x1F,
        ;
        let a: u16 = sa as u16;
        let ia: u16 = 255 - a;
        let s5r: u16 = sr as u16 >> 3;
        let s6g: u16 = sg as u16 >> 2;
        let s5b: u16 = sb as u16 >> 3;
        assert(s5r == sr / 8 && s6g == sg / 4 && s5b == sb / 8) by (bit_vector)
            requires
                s5r == sr as u16 >> 3,
                s6g == sg as u16 >> 2,
                s5b == sb as u16 >> 3,
        ;
        proof {
            lemma_blend_bounds(s5r as int, br as int, a as int, 31);
            lemma_blend_bounds(s6g as int, bgr as int, a as int, 63);
            lemma_blend_bounds(s5b as int, bb as int, a as int, 31);
        }
        let or: u16 = (s5r * a + br * ia) / 255;
        let og: u16 = (s6g * a + bgr * ia) / 255;
        let ob: u16 = (s5b * a + bb * ia) / 255;
        let v: u16 = ((or & 0x1F) << 11) | ((og & 0x3F) << 5) | (ob & 0x1F);
        assert(v == or * 2048 + og * 32 + ob) by (bit_vector)
            requires
                v == ((or & 0x1F) << 11) | ((og & 0x3F) << 5) | (ob & 0x1F),
                or <= 31,
                og <= 63,
                ob <= 31,
        ;
        v
    };
    let out_hi: u8 = (v >> 8) as u8;
    let out_lo: u8 = v as u8;
    assert(out_hi == v / 256 && out_lo == v % 256) by (bit_vector)
        requires
            out_hi == (v >> 8) as u8,
            out_lo == v as u8,
    ;
    (out_hi, out_lo)
}

/// A blend of two channel values no larger than `m` is no larger than `m`.
proof fn lemma_blend_bounds(x: int, y: int, a: int, m: int)
    requires
        0 <= x <= m,
        0 <= y <= m,
        0 <= a <= 255,
        0 <= m <= 63,
    ensures
        0 <= x * a <= m * 255,
        0 <= y * (255 - a) <= m * 255,
        x * a + y * (255 - a) <= m * 255,
        0 <= blend_channel(x, y, a) <= m,
{
    assert(0 <= x * a <= m * 255 && 0 <= y * (255 - a) <= m * (255 - a) && x * a <= m * a)
        by (nonlinear_arith)
        requires
            0 <= x <= m,
            0 <= y <= m,
            0 <= a <= 255,
    ;
    assert(m * a + m * (255 - a) == m * 255) by (nonlinear_arith);
}

/// The fields of an RGB565 word assembled from fields `r`, `g`, `b` are
/// those fields.
proof fn lemma_fields_of_word(r: int, g: int, b: int)
    requires
        0 <= r <= 31,
        0 <= g <= 63,
        0 <= b <= 31,
    ensures
        0 <= r * 2048 + g * 32 + b < 65536,
        red5(r * 2048 + g * 32 + b) == r,
        green6(r * 2048 + g * 32 + b) == g,
        blue5(r * 2048 + g * 32 + b) == b,
{
    let v = r * 2048 + g * 32 + b;
    vstd::arithmetic::div_mod::lemma_fundamental_div_mod_converse(v, 2048, r, g * 32 + b);
    vstd::arithmetic::div_mod::lemma_fundamental_div_mod_converse(v, 32, r * 64 + g, b);
    vstd::arithmetic::div_mod::lemma_fundamental_div_mod_converse(r * 64 + g, 64, r, g);
}

/// The fields of an RGB565 word lie in their ranges.
proof fn lemma_field_ranges(v: int)
    requires
        0 <= v < 65536,
    ensures
        0 <= red5(v) <= 31,
        0 <= green6(v) <= 63,
        0 <= blue5(v) <= 31,
{
}

/// A partly transparent source pixel weighs itself by its alpha and the
/// background by the rest: each field (red, green, blue) of the blended
/// word is the source's channel cut to the field's width times the alpha,
/// plus the background's field times 255 minus the alpha, divided by 255
/// and rounded down.
pub proof fn lemma_partial_alpha_weighs_source_by_alpha(sr: u8, sg: u8, sb: u8, sa: u8, bg: int)
    requires
        0 < sa < 255,
        0 <= bg < 65536,
    ensures
        0 <= blended_word(sr, sg, sb, sa, bg) < 65536,
        red5(blended_word(sr, sg, sb, sa, bg)) == ((sr as int / 8) * sa + red5(bg) * (255 - sa))
            / 255,
        green6(blended_word(sr, sg, sb, sa, bg)) == ((sg as int / 4) * sa + green6(bg) * (255
            - sa)) / 255,
        blue5(blended_word(sr, sg, sb, sa, bg)) == ((sb as int / 8) * sa + blue5(bg) * (255 - sa))
            / 255,
{
    lemma_field_ranges(bg);
    let r = blend_channel(sr as int / 8, red5(bg), sa as int);
    let g = blend_channel(sg as int / 4, green6(bg), sa as int);
    let b = blend_channel(sb as int / 8, blue5(bg), sa as int);
    lemma_blend_bounds(sr as int / 8, red5(bg), sa as int, 31);
    lemma_blend_bounds(sg as int / 4, green6(bg), sa as int, 63);
    lemma_blend_bounds(sb as int / 8, blue5(bg), sa as int, 31);
    lemma_fields_of_word(r, g, b);
}

/// One field of a blend moves toward the source's field as the alpha grows,
/// and stays between the background's field and the source's.
proof fn lemma_mix_moves_toward_source(src: int, dst: int, a1: int, a2: int, m: int)
    requires
        0 <= src <= m,
        0 <= dst <= m,
        0 <= a1 <= a2 <= 255,
        0 <= m <= 63,
    ensures
        src >= dst ==> dst <= (src * a1 + dst * (255 - a1)) / 255 <= (src * a2 + dst * (255
            - a2)) / 255 <= src,
        src <= dst ==> dst >= (src * a1 + dst * (255 - a1)) / 255 >= (src * a2 + dst * (255
            - a2)) / 255 >= src,
{
    let x1 = src * a1 + dst * (255 - a1);
    let x2 = src * a2 + dst * (255 - a2);
    assert(x1 == dst * 255 + (src - dst) * a1 && x2 == dst * 255 + (src - dst) * a2 && x2 - x1 == (
    src - dst) * (a2 - a1) && src * 255 - x2 == (src - dst) * (255 - a2)) by (nonlinear_arith)
        requires
            x1 == src * a1 + dst * (255 - a1),
            x2 == src * a2 + dst * (255 - a2),
    ;
    assert((dst * 255) / 255 == dst) by {
        vstd::arithmetic::div_mod::lemma_fundamental_div_mod_converse(dst * 255, 255, dst, 0);
    }
    assert((src * 255) / 255 == src) by {
        vstd::arithmetic::div_mod::lemma_fundamental_div_mod_converse(src * 255, 255, src, 0);
    }
    if src >= dst {
        assert((src - dst) * a1 >= 0 && (src - dst) * (a2 - a1) >= 0 && (src - dst) * (255 - a2)
            >= 0) by (nonlinear_arith)
            requires
                src >= dst,
                0 <= a1 <= a2 <= 255,
        ;
        vstd::arithmetic::div_mod::lemma_div_is_ordered(dst * 255, x1, 255);
        vstd::arithmetic::div_mod::lemma_div_is_ordered(x1, x2, 255);
        vstd::arithmetic::div_mod::lemma_div_is_ordered(x2, src * 255, 255);
    }
    if src <= dst {
        assert((src - dst) * a1 <= 0 && (src - dst) * (a2 - a1) <= 0 && (src - dst) * (255 - a2)
            <= 0) by (nonlinear_arith)
            requires
                src <= dst,
                0 <= a1 <= a2 <= 255,
        ;
        vstd::arithmetic::div_mod::lemma_div_is_ordered(x1, dst * 255, 255);
        vstd::arithmetic::div_mod::lemma_div_is_ordered(x2, x1, 255);
        vstd::arithmetic::div_mod::lemma_div_is_ordered(src * 255, x2, 255);
    }
}

/// The more opaque a partly transparent source pixel, the more of it shows:
/// raising its alpha never moves a field of the blended word away from the
/// source's field, and every field lies between the background's field and
/// the source's.
pub proof fn lemma_more_opaque_source_shows_more(
    sr: u8,
    sg: u8,
    sb: u8,
    a1: u8,
    a2: u8,
    bg: int,
)
    requires
        0 < a1 <= a2 < 255,
        0 <= bg < 65536,
    ensures
        sr / 8 >= red5(bg) ==> red5(bg) <= red5(blended_word(sr, sg, sb, a1, bg)) <= red5(
            blended_word(sr, sg, sb, a2, bg),
        ) <= sr / 8,
        sr / 8 <= red5(bg) ==> red5(bg) >= red5(blended_word(sr, sg, sb, a1, bg)) >= red5(
            blended_word(sr, sg, sb, a2, bg),
        ) >= sr / 8,
        sg / 4 >= green6(bg) ==> green6(bg) <= green6(blended_word(sr, sg, sb, a1, bg)) <= green6(
            blended_word(sr, sg, sb, a2, bg),
        ) <= sg / 4,
        sg / 4 <= green6(bg) ==> green6(bg) >= green6(blended_word(sr, sg, sb, a1, bg)) >= green6(
            blended_word(sr, sg, sb, a2, bg),
        ) >= sg / 4,
        sb / 8 >= blue5(bg) ==> blue5(bg) <= blue5(blended_word(sr, sg, sb, a1, bg)) <= blue5(
            blended_word(sr, sg, sb, a2, bg),
        ) <= sb / 8,
        sb / 8 <= blue5(bg) ==> blue5(bg) >= blue5(blended_word(sr, sg, sb, a1, bg)) >= blue5(
            blended_word(sr, sg, sb, a2, bg),
        ) >= sb / 8,
{
    lemma_field_ranges(bg);
    lemma_partial_alpha_weighs_source_by_alpha(sr, sg, sb, a1, bg);
    lemma_partial_alpha_weighs_source_by_alpha(sr, sg, sb, a2, bg);
    lemma_mix_moves_toward_source(sr as int / 8, red5(bg), a1 as int, a2 as int, 31);
    lemma_mix_moves_toward_source(sg as int / 4, green6(bg), a1 as int, a2 as int, 63);
    lemma_mix_moves_toward_source(sb as int / 8, blue5(bg), a1 as int, a2 as int, 31);
}

/// On the frame, a pixel that the blit paints with a partly transparent
/// source pixel of alpha `a` gets, in each field, the source's channel cut
/// to the field's width times `a`, plus the field the pixel held before
/// times 255 minus `a`, divided by 255 and rounded down.
pub proof fn lemma_partial_alpha_blit_mixes(
    old: Seq<u8>,
    dst_x: i32,
    dst_y: i32,
    w: u32,
    h: u32,
    corner: u32,
    rgba: Seq<u8>,
    x: int,
    y: int,
)
    requires
        old.len() == BUF_SIZE,
        on_screen(x, y),
        blit_hits(dst_x, dst_y, w, h, corner, rgba, x, y),
        rgba[source_offset(w, x - dst_x, y - dst_y) + 3] < 255,
    ensures
        ({
            let o = source_offset(w, x - dst_x, y - dst_y);
            let a = rgba[o + 3] as int;
            let before = pixel_word(old, x, y);
            let after = pixel_word(blit_image(old, dst_x, dst_y, w, h, corner, rgba), x, y);
            &&& red5(after) == ((rgba[o] / 8) * a + red5(before) * (255 - a)) / 255
            &&& green6(after) == ((rgba[o + 1] / 4) * a + green6(before) * (255 - a)) / 255
            &&& blue5(after) == ((rgba[o + 2] / 8) * a + blue5(before) * (255 - a)) / 255
        }),
{
    let k = byte_index(x, y);
    lemma_bytes_of_pixel(k, x, y);
    lemma_bytes_of_pixel(k + 1, x, y);
    let o = source_offset(w, x - dst_x, y - dst_y);
    let before = pixel_word(old, x, y);
    assert(0 <= before < 65536);
    lemma_partial_alpha_weighs_source_by_alpha(rgba[o], rgba[o + 1], rgba[o + 2], rgba[o + 3], before);
    let v = blended_word(rgba[o], rgba[o + 1], rgba[o + 2], rgba[o + 3], before);
    assert(v == blit_word(old, dst_x, dst_y, w, rgba, x, y));
    assert(k % 2 == 0);
    assert(pixel_word(blit_image(old, dst_x, dst_y, w, h, corner, rgba), x, y) == v);
}

/// A blit changes no pixel outside the `w` x `h` rectangle at
/// `(dst_x, dst_y)`.
pub proof fn lemma_blit_keeps_outside(
    old: Seq<u8>,
    dst_x: i32,
    dst_y: i32,
    w: u32,
    h: u32,
    corner: u32,
    rgba: Seq<u8>,
    x: int,
    y: int,
)
    requires
        old.len() == BUF_SIZE,
        on_screen(x, y),
        !(dst_x <= x < dst_x + w && dst_y <= y < dst_y + h),
    ensures
        pixel_word(blit_image(old, dst_x, dst_y, w, h, corner, rgba), x, y) == pixel_word(old, x, y),
{
    lemma_bytes_of_pixel(byte_index(x, y), x, y);
    lemma_bytes_of_pixel(byte_index(x, y) + 1, x, y);
}

/// Blitting an image whose every alpha byte is zero leaves the frame as it
/// was.
pub proof fn lemma_transparent_blit_is_identity(
    old: Seq<u8>,
    dst_x: i32,
    dst_y: i32,
    w: u32,
    h: u32,
    corner: u32,
    rgba: Seq<u8>,
)
    requires
        old.len() == BUF_SIZE,
        forall|i: int| 0 <= i < rgba.len() && i % 4 == 3 ==> rgba[i] == 0,
    ensures
        blit_image(old, dst_x, dst_y, w, h, corner, rgba) == old,
{
    assert forall|k: int| 0 <= k < old.len() implies blit_image(
        old,
        dst_x,
        dst_y,
        w,
        h,
        corner,
        rgba,
    )[k] == old[k] by {
        let px = column_of(k) - dst_x;
        let py = row_of(k) - dst_y;
        if 0 <= px < w && 0 <= py < h {
            assert((source_offset(w, px, py) + 3) % 4 == 3) by (nonlinear_arith)
                requires
                    source_offset(w, px, py) == (py * w + px) * 4,
            ;
        }
    }
    assert(blit_image(old, dst_x, dst_y, w, h, corner, rgba) =~= old);
}

/// A pixel that the blit paints with a fully opaque source pixel holds that
/// pixel's own RGB565 color, whatever the frame held there before: its two
/// bytes are the ones that drawing that color at the pixel writes.
pub proof fn lemma_opaque_blit_replaces(
    old: Seq<u8>,
    dst_x: i32,
    dst_y: i32,
    w: u32,
    h: u32,
    corner: u32,
    rgba: Seq<u8>,
    x: int,
    y: int,
)
    requires
        old.len() == BUF_SIZE,
        on_screen(x, y),
        blit_hits(dst_x, dst_y, w, h, corner, rgba, x, y),
        rgba[source_offset(w, x - dst_x, y - dst_y) + 3] == 255,
    ensures
        pixel_word(blit_image(old, dst_x, dst_y, w, h, corner, rgba), x, y) == rgb565_spec(
            rgba[source_offset(w, x - dst_x, y - dst_y)],
            rgba[source_offset(w, x - dst_x, y - dst_y) + 1],
            rgba[source_offset(w, x - dst_x, y - dst_y) + 2],
        ),
        ({
            let o = source_offset(w, x - dst_x, y - dst_y);
            let drawn = with_pixel(
                old,
                x,
                y,
                rgb565_spec(rgba[o], rgba[o + 1], rgba[o + 2]) as int,
            );
            &&& blit_image(old, dst_x, dst_y, w, h, corner, rgba)[byte_index(x, y)] == drawn[byte_index(x, y)]
            &&& blit_image(old, dst_x, dst_y, w, h, corner, rgba)[byte_index(x, y) + 1] == drawn[byte_index(x, y) + 1]
        }),
{
    let k = byte_index(x, y);
    lemma_bytes_of_pixel(k, x, y);
    lemma_bytes_of_pixel(k + 1, x, y);
    let o = source_offset(w, x - dst_x, y - dst_y);
    let v = rgb565_spec(rgba[o], rgba[o + 1], rgba[o + 2]);
    assert(0 <= v < 65536);
    assert(k % 2 == 0);
}

/// Blitting an image none of whose pixels is partly transparent (every
/// alpha byte is 0 or 255) a second time changes nothing: the frame after
/// two equal blits is the frame after one.
pub proof fn lemma_blit_without_partial_alpha_is_idempotent(
    old: Seq<u8>,
    dst_x: i32,
    dst_y: i32,
    w: u32,
    h: u32,
    corner: u32,
    rgba: Seq<u8>,
)
    requires
        old.len() == BUF_SIZE,
        forall|i: int| 0 <= i < rgba.len() && i % 4 == 3 ==> rgba[i] == 0 || rgba[i] == 255,
    ensures
        blit_image(blit_image(old, dst_x, dst_y, w, h, corner, rgba), dst_x, dst_y, w, h, corner, rgba)
            == blit_image(old, dst_x, dst_y, w, h, corner, rgba),
{
    let once = blit_image(old, dst_x, dst_y, w, h, corner, rgba);
    let twice = blit_image(once, dst_x, dst_y, w, h, corner, rgba);
    assert forall|k: int| 0 <= k < once.len() implies twice[k] == once[k] by {
        let x = column_of(k);
        let y = row_of(k);
        if blit_hits(dst_x, dst_y, w, h, corner, rgba, x, y) {
            let px = x - dst_x;
            let py = y - dst_y;
            let o = source_offset(w, px, py);
            assert((o + 3) % 4 == 3) by (nonlinear_arith)
                requires
                    o == (py * w + px) * 4,
            ;
            assert(rgba[o + 3] == 255);
            assert(blit_word(once, dst_x, dst_y, w, rgba, x, y) == blit_word(old, dst_x, dst_y, w, rgba, x, y));
        }
    }
    assert(twice =~= once);
}

/// Drawing pixel `(x, y)` on the panel sets that pixel to the given word
/// and leaves every other pixel as it was.
pub proof fn lemma_draw_pixel_sets_only_it(s: Seq<u8>, x: int, y: int, raw: u16, x2: int, y2: int)
    requires
        s.len() == BUF_SIZE,
        on_screen(x, y),
        on_screen(x2, y2),
    ensures
        pixel_word(with_pixel(s, x, y, raw as int), x, y) == raw,
        (x2, y2) != (x, y) ==> pixel_word(with_pixel(s, x, y, raw as int), x2, y2) == pixel_word(
            s,
            x2,
            y2,
        ),
{
    lemma_bytes_of_pixel(byte_index(x2, y2), x, y);
    lemma_bytes_of_pixel(byte_index(x2, y2) + 1, x, y);
    lemma_bytes_of_pixel(byte_index(x2, y2), x2, y2);
}

/// A full frame of RGB565 pixels.
pub struct Framebuffer {
    buf: Vec<u8>,
}

impl View for Framebuffer {
    type V = Seq<u8>;

    closed spec fn view(&self) -> Seq<u8> {
        self.buf@
    }
}

impl Framebuffer {
    /// A black frame (every byte zero).
    pub fn new() -> (fb: Self)
        ensures
            fb@ == Seq::new(BUF_SIZE as nat, |_k: int| 0u8),
    {
        let mut buf: Vec<u8> = Vec::new();
        while buf.len() < BUF_SIZE
            invariant
                buf.len() <= BUF_SIZE,
                forall|k: int| 0 <= k < buf.len() ==> buf@[k] == 0u8,
            decreases BUF_SIZE - buf.len(),
        {
            buf.push(0u8);
        }
        assert(buf@ =~= Seq::new(BUF_SIZE as nat, |_k: int| 0u8));
        Framebuffer { buf }
    }

    /// The frame's bytes, as the display expects them.
    pub fn as_bytes(&self) -> (bytes: &[u8])
        ensures
            bytes@ == self@,
    {
        self.buf.as_slice()
    }

    /// Sets pixel `(x, y)` to the RGB565 word `raw`; a point off the panel
    /// is ignored.
    pub fn draw_pixel(&mut self, x: i32, y: i32, raw: u16)
        requires
            old(self)@.len() == BUF_SIZE,
        ensures
            final(self)@ == with_pixel(old(self)@, x as int, y as int, raw as int),
    {
        if x >= 0 && y >= 0 && (x as u32) < WIDTH && (y as u32) < HEIGHT {
            let xu: usize = x as usize;
            let yu: usize = y as usize;
            assert(xu < 240 && yu < 280);
            let idx: usize = (yu * 240 + xu) * 2;
            let hi: u8 = (raw >> 8) as u8;
            let lo: u8 = raw as u8;
            assert(hi == raw / 256 && lo == raw % 256) by (bit_vector)
                requires
                    hi == (raw >> 8) as u8,
                    lo == raw as u8,
            ;
            self.buf.set(idx, hi);
            self.buf.set(idx + 1, lo);
        }
    }

    /// Sets every pixel of the frame to the RGB565 word `raw`; what the
    /// frame held before does not matter.
    pub fn fill(&mut self, raw: u16)
        requires
            old(self)@.len() == BUF_SIZE,
        ensures
            final(self)@ == Seq::new(BUF_SIZE as nat, |k: int| word_byte(k, raw as int)),
    {
        let hi: u8 = (raw >> 8) as u8;
        let lo: u8 = raw as u8;
        assert(hi == raw / 256 && lo == raw % 256) by (bit_vector)
            requires
                hi == (raw >> 8) as u8,
                lo == raw as u8,
        ;
        let mut i: usize = 0;
        while i < BUF_SIZE
            invariant
                self.buf@.len() == BUF_SIZE,
                i <= BUF_SIZE,
                i % 2 == 0,
                hi == raw / 256,
                lo == raw % 256,
                forall|k: int| 0 <= k < i ==> self.buf@[k] == word_byte(k, raw as int),
            decreases BUF_SIZE - i,
        {
            self.buf.set(i, hi);
            self.buf.set(i + 1, lo);
            assert((i + 1) % 2 == 1);
            i = i + 2;
        }
        assert(self@ =~= Seq::new(BUF_SIZE as nat, |k: int| word_byte(k, raw as int)));
    }

    /// Copies the `w` x `h` RGBA image `rgba` (row-major, four bytes per
    /// pixel) onto the frame with its top-left corner at `(dst_x, dst_y)`,
    /// masking the image to a rectangle with corners rounded to radius
    /// `corner` and alpha-blending it over the frame. Pixels off the panel,
    /// outside the rounded outline, beyond the end of `rgba` or fully
    /// transparent are skipped.
    pub fn blit_rgba_rounded(
        &mut self,
        dst_x: i32,
        dst_y: i32,
        w: u32,
        h: u32,
        corner: u32,
        rgba: &[u8],
    )
        requires
            old(self)@.len() == BUF_SIZE,
            w as int * h as int <= 0x4000_0000,
        ensures
            final(self)@ == blit_image(old(self)@, dst_x, dst_y, w, h, corner, rgba@),
    {
        let ghost old_buf = self@;
        let cr: i64 = (corner as i32) as i64;
        let mut py: u32 = 0;
        assert(self@ =~= blit_partial(old_buf, dst_x, dst_y, w, h, corner, rgba@, 0, 0));
        while py < h
            invariant
                old_buf.len() == BUF_SIZE,
                self@.len() == BUF_SIZE,
                w as int * h as int <= 0x4000_0000,
                py <= h,
                cr == (corner as i32) as int,
                self@ == blit_partial(old_buf, dst_x, dst_y, w, h, corner, rgba@, py as int, 0),
            decreases h - py,
        {
            assert(w <= 0x4000_0000 && (py as int) * (w as int) + w <= 0x4000_0000) by (nonlinear_arith)
                requires
                    w as int * h as int <= 0x4000_0000,
                    py < h,
            ;
            let mut px: u32 = 0;
            while px < w
                invariant
                    old_buf.len() == BUF_SIZE,
                    self@.len() == BUF_SIZE,
                    w as int * h as int <= 0x4000_0000,
                    w <= 0x4000_0000,
                    (py as int) * (w as int) + w <= 0x4000_0000,
                    py < h,
                    px <= w,
                    cr == (corner as i32) as int,
                    self@ == blit_partial(
                        old_buf,
                        dst_x,
                        dst_y,
                        w,
                        h,
                        corner,
                        rgba@,
                        py as int,
                        px as int,
                    ),
                decreases w - px,
            {
                self.blit_step(Ghost(old_buf), dst_x, dst_y, w, h, corner, cr, rgba, px, py);
                px = px + 1;
            }
            assert(self@ =~= blit_partial(
                old_buf,
                dst_x,
                dst_y,
                w,
                h,
                corner,
                rgba@,
                py + 1,
                0,
            ));
            py = py + 1;
        }
        assert(self@ =~= blit_image(old_buf, dst_x, dst_y, w, h, corner, rgba@));
    }

    /// One source pixel `(px, py)` of `blit_rgba_rounded`.
    fn blit_step(
        &mut self,
        Ghost(old_buf): Ghost<Seq<u8>>,
        dst_x: i32,
        dst_y: i32,
        w: u32,
        h: u32,
        corner: u32,
        cr: i64,
        rgba: &[u8],
        px: u32,
        py: u32,
    )
        requires
            old_buf.len() == BUF_SIZE,
            old(self)@.len() == BUF_SIZE,
            w <= 0x4000_0000,
            w as int * h as int <= 0x4000_0000,
            (py as int) * (w as int) + w <= 0x4000_0000,
            py < h,
            px < w,
            cr == (corner as i32) as int,
            old(self)@ == blit_partial(
                old_buf,
                dst_x,
                dst_y,
                w,
                h,
                corner,
                rgba@,
                py as int,
                px as int,
            ),
        ensures
            final(self)@ == blit_partial(
                old_buf,
                dst_x,
                dst_y,
                w,
                h,
                corner,
                rgba@,
                py as int,
                px + 1,
            ),
    {
        let ghost before = self@;
        let ghost after = blit_partial(
            old_buf,
            dst_x,
            dst_y,
            w,
            h,
            corner,
            rgba@,
            py as int,
            px + 1,
        );
        assert(h <= 0x4000_0000) by (nonlinear_arith)
            requires
                w as int * h as int <= 0x4000_0000,
                px < w,
        ;
        let dx: i64 = dst_x as i64 + px as i64;
        let dy: i64 = dst_y as i64 + py as i64;
        let skip: bool;
        if !inside_rounded_rect_exec(px as i64, py as i64, w as i64, h as i64, cr) {
            skip = true;
        } else {
            let src: usize = ((py as u64 * w as u64 + px as u64) * 4) as usize;
            if src + 3 >= rgba.len() {
                skip = true;
            } else {
                let sr = rgba[src];
                let sg = rgba[src + 1];
                let sb = rgba[src + 2];
                let sa = rgba[src + 3];
                if sa == 0 || dx < 0 || dy < 0 || dx >= 240 || dy >= 280 {
                    skip = true;
                } else {
                    skip = false;
                    let idx: usize = (dy as usize * 240 + dx as usize) * 2;
                    let (hi, lo) = blend_pixel(self.buf[idx], self.buf[idx + 1], sr, sg, sb, sa);
                    proof {
                        assert(before[idx as int] == old_buf[idx as int]) by {
                            lemma_bytes_of_pixel(idx as int, dx as int, dy as int);
                        }
                        assert(before[idx + 1] == old_buf[idx + 1]) by {
                            lemma_bytes_of_pixel(idx + 1, dx as int, dy as int);
                        }
                    }
                    self.buf.set(idx, hi);
                    self.buf.set(idx + 1, lo);
                    proof {
                        assert forall|k: int| 0 <= k < BUF_SIZE implies self@[k] == after[k] by {
                            lemma_bytes_of_pixel(k, dx as int, dy as int);
                        }
                        assert(self@ =~= after);
                    }
                }
            }
        }
        if skip {
            proof {
                assert forall|k: int| 0 <= k < BUF_SIZE implies before[k] == after[k] by {
                    if on_screen(dx as int, dy as int) {
                        lemma_bytes_of_pixel(k, dx as int, dy as int);
                    } else {
                        lemma_bytes_of_pixel(k, 0, 0);
                    }
                }
                assert(before =~= after);
            }
        }
    }
}

} // verus!

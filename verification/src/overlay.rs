//! The window as an overlay: its styles and its colour key.
use crate::picture::Color;
use vstd::prelude::*;

verus! {

/// The style bits of a title bar, a sizing border, the three boxes and the
/// system menu.
pub const FRAME_STYLES: i32 = 0x00cf_0000;

/// The extended style bits of a layered window that lets clicks through.
pub const OVERLAY_STYLES: i32 = 0x0008_0020;

/// The style of a window without its frame; all other bits stay.
pub open spec fn frameless(style: i32) -> i32 {
    style & !FRAME_STYLES
}

/// The extended style of a window that is layered and lets clicks through.
pub open spec fn overlaid(style: i32) -> i32 {
    style | OVERLAY_STYLES
}

/// A frameless window has no title bar, no sizing border, no minimize or
/// maximize box and no system menu, and keeps every other bit of its style.
pub proof fn law_frameless_windows_lose_their_frame(style: i32)
    ensures
        frameless(style) & 0x00c0_0000i32 == 0,
        frameless(style) & 0x0004_0000i32 == 0,
        frameless(style) & 0x0002_0000i32 == 0,
        frameless(style) & 0x0001_0000i32 == 0,
        frameless(style) & 0x0008_0000i32 == 0,
        frameless(style) | (style & 0x00cf_0000i32) == style,
{
    assert(frameless(style) == style & !0x00cf_0000i32);
    assert((style & !0x00cf_0000i32) & 0x00c0_0000i32 == 0) by (bit_vector);
    assert((style & !0x00cf_0000i32) & 0x0004_0000i32 == 0) by (bit_vector);
    assert((style & !0x00cf_0000i32) & 0x0002_0000i32 == 0) by (bit_vector);
    assert((style & !0x00cf_0000i32) & 0x0001_0000i32 == 0) by (bit_vector);
    assert((style & !0x00cf_0000i32) & 0x0008_0000i32 == 0) by (bit_vector);
    assert((style & !0x00cf_0000i32) | (style & 0x00cf_0000i32) == style) by (bit_vector);
}

/// An overlay is layered and lets clicks through, and keeps every other bit of
/// its extended style.
pub proof fn law_overlays_let_clicks_through(style: i32)
    ensures
        overlaid(style) & 0x0008_0000i32 == 0x0008_0000i32,
        overlaid(style) & 0x20i32 == 0x20i32,
        overlaid(style) & !0x0008_0020i32 == style & !0x0008_0020i32,
{
    assert(overlaid(style) == style | 0x0008_0020i32);
    assert((style | 0x0008_0020i32) & 0x0008_0000i32 == 0x0008_0000i32) by (bit_vector);
    assert((style | 0x0008_0020i32) & 0x20i32 == 0x20i32) by (bit_vector);
    assert((style | 0x0008_0020i32) & !0x0008_0020i32 == style & !0x0008_0020i32) by (bit_vector);
}

/// The style of a window without its frame; all other bits stay.
pub fn frameless_style(style: i32) -> (r: i32)
    ensures
        r == frameless(style),
        r == style & !FRAME_STYLES,
        r & FRAME_STYLES == 0,
        r & !FRAME_STYLES == style & !FRAME_STYLES,
{
    proof {
        assert((style & !0x00cf_0000i32) & 0x00cf_0000i32 == 0) by (bit_vector);
        assert((style & !0x00cf_0000i32) & !0x00cf_0000i32 == style & !0x00cf_0000i32) by (bit_vector);
    }
    style & !FRAME_STYLES
}

/// The extended style of a window that is layered and lets clicks through; all
/// other bits stay.
pub fn overlay_style(style: i32) -> (r: i32)
    ensures
        r == overlaid(style),
        r == style | OVERLAY_STYLES,
        r & OVERLAY_STYLES == OVERLAY_STYLES,
        r & !OVERLAY_STYLES == style & !OVERLAY_STYLES,
{
    proof {
        assert((style | 0x0008_0020i32) & 0x0008_0020i32 == 0x0008_0020i32) by (bit_vector);
        assert((style | 0x0008_0020i32) & !0x0008_0020i32 == style & !0x0008_0020i32) by (bit_vector);
    }
    style | OVERLAY_STYLES
}

/// Setting a window up twice is setting it up once.
pub proof fn law_setup_is_idempotent(style: i32)
    ensures
        (style & !FRAME_STYLES) & !FRAME_STYLES == style & !FRAME_STYLES,
        (style | OVERLAY_STYLES) | OVERLAY_STYLES == style | OVERLAY_STYLES,
{
    assert((style & !0x00cf_0000i32) & !0x00cf_0000i32 == style & !0x00cf_0000i32) by (bit_vector);
    assert((style | 0x0008_0020i32) | 0x0008_0020i32 == style | 0x0008_0020i32) by (bit_vector);
}

/// The colour that the compositor makes transparent.
pub open spec fn key() -> Color {
    Color { r: 1, g: 0, b: 1, a: 255 }
}

/// The colour that the compositor makes transparent.
pub fn color_key() -> (r: Color)
    ensures
        r == key(),
{
    Color { r: 1, g: 0, b: 1, a: 255 }
}

/// A colour as the window system writes it: red in the lowest byte, then green,
/// then blue.
pub open spec fn color_ref_of(color: Color) -> int {
    color.r + 0x100 * color.g + 0x1_0000 * color.b
}

/// Computes `color_ref_of`.
pub fn color_ref(color: Color) -> (r: u32)
    ensures
        r == color_ref_of(color),
{
    color.r as u32 + 0x100 * color.g as u32 + 0x1_0000 * color.b as u32
}

/// Red is the lowest byte, green the next and blue the third, so that opaque
/// colours are told apart; alpha does not count.
pub proof fn law_color_ref_holds_the_channels(color: Color)
    ensures
        color_ref_of(color) % 0x100 == color.r,
        color_ref_of(color) / 0x100 % 0x100 == color.g,
        color_ref_of(color) / 0x1_0000 == color.b,
{
}

/// The key is opaque, with the least red and blue that can be told from none.
pub proof fn law_key_is_all_but_black()
    ensures
        key().r == 1,
        key().g == 0,
        key().b == 1,
        key().a == 255,
{
}

/// The key that the window is given is the colour that the overlay is filled
/// with, and no other opaque colour has it.
pub proof fn law_key_matches_the_fill(color: Color)
    ensures
        color_ref_of(key()) == 0x0001_0001,
        color.a == 255 && color_ref_of(color) == color_ref_of(key()) ==> color == key(),
{
}

} // verus!

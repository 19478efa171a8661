//! Integer geometry of the bar's shapes: separator and spinner widths and
//! the clamping of rectangles to the canvas.
use vstd::prelude::*;
use crate::types::PowerlineStyle;

verus! {

/// Width of a separator of the given style on a bar `height` pixels high.
pub open spec fn powerline_width_spec(height: u32, style: PowerlineStyle) -> int {
    match style {
        PowerlineStyle::Powerline => (height + 1) / 2,
        PowerlineStyle::Octagon => (height + 1) / 4,
        PowerlineStyle::Circle => (height + 1) / 2,
        PowerlineStyle::Block => 3,
        PowerlineStyle::Fade => (height / 2) as int,
    }
}

/// Width of a separator of the given style on a bar `height` pixels high.
pub fn powerline_width(height: u32, style: PowerlineStyle) -> (w: u32)
    requires
        style is Octagon ==> height < u32::MAX,
    ensures
        w == powerline_width_spec(height, style),
{
    match style {
        PowerlineStyle::Powerline => height / 2 + height % 2,
        PowerlineStyle::Octagon => (height + 1) / 4,
        PowerlineStyle::Circle => height / 2 + height % 2,
        PowerlineStyle::Block => 3,
        PowerlineStyle::Fade => height / 2,
    }
}

/// Width (and height) of the spinner shape: a square cell.
pub fn spinner_size(height: u32) -> (s: u32)
    ensures
        s == height,
{
    height
}

/// The part of the rectangle at (`x`, `y`) of size `w` x `h` that lies on a
/// canvas of `pw` x `ph` pixels: its clamped width and height (`None` when
/// nothing of it is on the canvas).
pub fn clamp_rect(pw: u32, ph: u32, x: u32, y: u32, w: u32, h: u32) -> (r: Option<(u32, u32)>)
    ensures
        ({
            let cw = if w <= pw - x { w as int } else if x <= pw { pw - x } else { 0 };
            let ch = if h <= ph - y { h as int } else if y <= ph { ph - y } else { 0 };
            r == if cw == 0 || ch == 0 { None } else { Some((cw as u32, ch as u32)) }
        }),
{
    let cw = if x <= pw { if w <= pw - x { w } else { pw - x } } else { 0 };
    let ch = if y <= ph { if h <= ph - y { h } else { ph - y } } else { 0 };
    if cw == 0 || ch == 0 {
        None
    } else {
        Some((cw, ch))
    }
}

/// Distance from the top of the bar to the text's baseline: text of the
/// font's ascent and descent is centered in the bar's height.
pub fn baseline_offset(canvas_height: u32, ascent: u32, descent: u32) -> (r: u32)
    requires
        ascent + descent <= canvas_height,
    ensures
        r == (canvas_height - (ascent + descent)) / 2 + ascent,
{
    (canvas_height - (ascent + descent)) / 2 + ascent
}

/// How a rasterized glyph stores its pixels: one coverage byte per pixel,
/// four color bytes per pixel, or three subpixel coverage bytes per pixel.
#[derive(Debug, Clone, Copy, PartialEq, Eq, Structural)]
pub enum GlyphContent {
    Mask,
    Color,
    SubpixelMask,
}

/// Position in a glyph's data of the coverage of pixel `idx`: the byte
/// itself, the alpha byte of the color, or the green subpixel.
pub open spec fn alpha_index(content: GlyphContent, idx: int) -> int {
    match content {
        GlyphContent::Mask => idx,
        GlyphContent::Color => idx * 4 + 3,
        GlyphContent::SubpixelMask => idx * 3 + 1,
    }
}

/// Coverage of pixel `idx` of a glyph (0 where the data is short).
pub fn glyph_alpha(content: GlyphContent, data: &[u8], idx: usize) -> (r: u8)
    requires
        alpha_index(content, idx as int) <= usize::MAX,
    ensures
        r == if alpha_index(content, idx as int) < data@.len() {
            data@[alpha_index(content, idx as int)]
        } else {
            0u8
        },
{
    let k: usize = match content {
        GlyphContent::Mask => idx,
        GlyphContent::Color => idx * 4 + 3,
        GlyphContent::SubpixelMask => idx * 3 + 1,
    };
    if k < data.len() { data[k] } else { 0 }
}

/// Byte offset in a canvas of `pw` x `ph` pixels (4 bytes each) of the
/// pixel at (`px`, `py`); `None` where it lies off the canvas.
pub fn canvas_offset(px: i32, py: i32, pw: i32, ph: i32) -> (r: Option<usize>)
    requires
        pw >= 0,
        ph >= 0,
        pw * ph * 4 <= u32::MAX,
    ensures
        r == if px < 0 || py < 0 || px >= pw || py >= ph {
            None::<usize>
        } else {
            Some(((py * pw + px) * 4) as usize)
        },
{
    if px < 0 || py < 0 || px >= pw || py >= ph {
        return None;
    }
    let (x, y, w) = (px as u32, py as u32, pw as u32);
    assert(y * w + x < w * (ph as u32)) by (nonlinear_arith)
        requires
            x < w,
            y < ph,
    ;
    let off: u32 = y * w + x;
    Some(off as usize * 4)
}

/// Vertical offset of an icon `icon_height` pixels high, centered on a bar
/// `canvas_height` pixels high (0 where it is higher).
pub fn icon_y_offset(canvas_height: u32, icon_height: u32) -> (r: u32)
    ensures
        r == if canvas_height >= icon_height { (canvas_height - icon_height) / 2 } else { 0 },
{
    if canvas_height >= icon_height { (canvas_height - icon_height) / 2 } else { 0 }
}

} // verus!

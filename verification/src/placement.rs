use vstd::prelude::*;

use crate::dwindle::{fits_i32, Rect};
use crate::monitors::WinRect;

verus! {

/// Window style bit: the window has a title bar.
pub const WS_CAPTION: u32 = 0x00C0_0000;

/// Window style bit: the window has a sizing border.
pub const WS_THICKFRAME: u32 = 0x0004_0000;

/// Window style bit: the window has a system menu.
pub const WS_SYSMENU: u32 = 0x0008_0000;

/// The decorations a tiled window loses and a floating one gets back:
/// caption, sizing border and system menu.
pub const WINDOW_DECORATIONS: u32 = 0x00CC_0000;

/// The style to give a window that is being tiled: `style` without its
/// decorations, or `None` when it has no caption (then the style is left
/// as it is).
pub fn undecorated_style(style: u32) -> (r: Option<u32>)
    ensures
        r == (if style & WS_CAPTION != 0 {
            Some(style & !WINDOW_DECORATIONS)
        } else {
            None
        }),
        r matches Some(s) ==> s & WINDOW_DECORATIONS == 0,
        r matches Some(s) ==> s | WINDOW_DECORATIONS == style | WINDOW_DECORATIONS,
{
    if style & WS_CAPTION != 0 {
        let s = style & !WINDOW_DECORATIONS;
        assert(s & 0x00CC_0000u32 == 0 && s | 0x00CC_0000u32 == style | 0x00CC_0000u32)
            by (bit_vector)
            requires
                s == style & !0x00CC_0000u32,
        ;
        Some(s)
    } else {
        None
    }
}

/// The style to give a window that floats again: `style` with its
/// decorations.
pub fn decorated_style(style: u32) -> (r: u32)
    ensures
        r == style | WINDOW_DECORATIONS,
        r & WS_CAPTION != 0,
        r & !WINDOW_DECORATIONS == style & !WINDOW_DECORATIONS,
{
    let r = style | WINDOW_DECORATIONS;
    assert(r & 0x00C0_0000u32 != 0 && r & !0x00CC_0000u32 == style & !0x00CC_0000u32)
        by (bit_vector)
        requires
            r == style | 0x00CC_0000u32,
    ;
    r
}

/// How far the visible frame `frame` of a window is inset from its outer
/// rectangle `window`: the left and top insets, then how much wider and
/// taller the outer rectangle is.
pub open spec fn frame_offsets(window: WinRect, frame: WinRect) -> (int, int, int, int) {
    (
        frame.left - window.left,
        frame.top - window.top,
        (window.right - window.left) - (frame.right - frame.left),
        (window.bottom - window.top) - (frame.bottom - frame.top),
    )
}

/// The outer rectangle (left, top, width, height) that puts the visible
/// frame of the window exactly on `rect`.
pub open spec fn outer_placement(rect: Rect, window: WinRect, frame: WinRect) -> (
    int,
    int,
    int,
    int,
) {
    let (ox, oy, ow, oh) = frame_offsets(window, frame);
    (rect.x - ox, rect.y - oy, rect.width + ow, rect.height + oh)
}

/// Every quantity in computing the outer placement fits in an `i32`.
pub open spec fn placement_fits(rect: Rect, window: WinRect, frame: WinRect) -> bool {
    let (ox, oy, ow, oh) = frame_offsets(window, frame);
    let (x, y, w, h) = outer_placement(rect, window, frame);
    &&& fits_i32(ox)
    &&& fits_i32(oy)
    &&& fits_i32(window.right - window.left)
    &&& fits_i32(frame.right - frame.left)
    &&& fits_i32(window.bottom - window.top)
    &&& fits_i32(frame.bottom - frame.top)
    &&& fits_i32(ow)
    &&& fits_i32(oh)
    &&& fits_i32(x)
    &&& fits_i32(y)
    &&& fits_i32(w)
    &&& fits_i32(h)
}

fn in_i32(v: i64) -> (r: bool)
    ensures
        r == fits_i32(v as int),
{
    i32::MIN as i64 <= v && v <= i32::MAX as i64
}

/// Whether the outer placement for `rect` can be computed without
/// overflow.
pub fn can_place(rect: Rect, window: WinRect, frame: WinRect) -> (r: bool)
    ensures
        r == placement_fits(rect, window, frame),
{
    let ox = frame.left as i64 - window.left as i64;
    let oy = frame.top as i64 - window.top as i64;
    let ww = window.right as i64 - window.left as i64;
    let fw = frame.right as i64 - frame.left as i64;
    let wh = window.bottom as i64 - window.top as i64;
    let fh = frame.bottom as i64 - frame.top as i64;
    let ow = ww - fw;
    let oh = wh - fh;
    let x = rect.x as i64 - ox;
    let y = rect.y as i64 - oy;
    let w = rect.width as i64 + ow;
    let h = rect.height as i64 + oh;
    in_i32(ox) && in_i32(oy) && in_i32(ww) && in_i32(fw) && in_i32(wh) && in_i32(fh) && in_i32(ow)
        && in_i32(oh) && in_i32(x) && in_i32(y) && in_i32(w) && in_i32(h)
}

/// The outer rectangle to move a window to so that its visible frame,
/// whose inset from the outer rectangle is read from `window` and
/// `frame`, lands exactly on `rect`.
pub fn frame_placement(rect: Rect, window: WinRect, frame: WinRect) -> (r: Rect)
    requires
        placement_fits(rect, window, frame),
    ensures
        (r.x as int, r.y as int, r.width as int, r.height as int) == outer_placement(
            rect,
            window,
            frame,
        ),
        window == frame ==> r == rect,
{
    let off_x = frame.left - window.left;
    let off_y = frame.top - window.top;
    let off_w = (window.right - window.left) - (frame.right - frame.left);
    let off_h = (window.bottom - window.top) - (frame.bottom - frame.top);
    Rect {
        x: rect.x - off_x,
        y: rect.y - off_y,
        width: rect.width + off_w,
        height: rect.height + off_h,
    }
}

} // verus!

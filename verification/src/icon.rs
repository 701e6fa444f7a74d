//! The tray icon's pixels: a light clipboard shape with a clip at the top
//! and four ruled lines, on a transparent background.
use vstd::prelude::*;

use crate::image::pixel_offset;

verus! {

/// Width and height of the tray icon, in pixels.
pub const ICON_SIZE: u32 = 22;

/// The RGBA colour of pixel (`x`, `y`) of the icon.
pub open spec fn icon_pixel(x: int, y: int) -> (u8, u8, u8, u8) {
    if 6 <= x < 16 && (y == 7 || y == 10 || y == 13 || y == 16) {
        (100, 110, 120, 255)
    } else if 8 <= x < 14 && (y == 1 || y == 2) {
        (200, 205, 210, 255)
    } else if 4 <= x < 18 && 3 <= y < 20 {
        (220, 225, 230, 255)
    } else {
        (0, 0, 0, 0)
    }
}

/// Channel `c` (red, green, blue, alpha) of a colour.
pub open spec fn channel(p: (u8, u8, u8, u8), c: int) -> u8 {
    if c == 0 {
        p.0
    } else if c == 1 {
        p.1
    } else if c == 2 {
        p.2
    } else {
        p.3
    }
}

fn icon_pixel_color(x: u32, y: u32) -> (p: (u8, u8, u8, u8))
    ensures
        p == icon_pixel(x as int, y as int),
{
    if 6 <= x && x < 16 && (y == 7 || y == 10 || y == 13 || y == 16) {
        (100, 110, 120, 255)
    } else if 8 <= x && x < 14 && (y == 1 || y == 2) {
        (200, 205, 210, 255)
    } else if 4 <= x && x < 18 && 3 <= y && y < 20 {
        (220, 225, 230, 255)
    } else {
        (0, 0, 0, 0)
    }
}

/// The icon as RGBA bytes, row by row.
pub fn clipboard_icon_rgba() -> (out: Vec<u8>)
    ensures
        out@.len() == ICON_SIZE * ICON_SIZE * 4,
        forall|x: int, y: int, c: int|
            0 <= x < ICON_SIZE && 0 <= y < ICON_SIZE && 0 <= c < 4 ==> #[trigger] out@[pixel_offset(
                ICON_SIZE as int,
                x,
                y,
                c,
            )] == channel(icon_pixel(x, y), c),
{
    let size = ICON_SIZE;
    let ghost w = size as int;
    let mut out: Vec<u8> = Vec::new();
    let mut y: u32 = 0;
    while y < size
        invariant
            size == ICON_SIZE,
            w == 22,
            y <= size,
            out@.len() == pixel_offset(w, 0, y as int, 0),
            forall|x: int, yy: int, c: int|
                0 <= x < w && 0 <= yy < y && 0 <= c < 4 ==> #[trigger] out@[pixel_offset(w, x, yy, c)]
                    == channel(icon_pixel(x, yy), c),
        decreases size - y,
    {
        let mut x: u32 = 0;
        while x < size
            invariant
                size == ICON_SIZE,
                w == 22,
                y < size,
                x <= size,
                out@.len() == pixel_offset(w, x as int, y as int, 0),
                forall|xx: int, yy: int, c: int|
                    0 <= xx < w && 0 <= yy < y && 0 <= c < 4 ==> #[trigger] out@[pixel_offset(w, xx, yy, c)]
                        == channel(icon_pixel(xx, yy), c),
                forall|xx: int, c: int|
                    0 <= xx < x && 0 <= c < 4 ==> #[trigger] out@[pixel_offset(w, xx, y as int, c)]
                        == channel(icon_pixel(xx, y as int), c),
            decreases size - x,
        {
            let p = icon_pixel_color(x, y);
            let ghost start = out@.len();
            let ghost before = out@;
            out.push(p.0);
            out.push(p.1);
            out.push(p.2);
            out.push(p.3);
            assert forall|xx: int, yy: int, c: int|
                0 <= xx < w && 0 <= yy < y && 0 <= c < 4 implies #[trigger] out@[pixel_offset(w, xx, yy, c)]
                    == channel(icon_pixel(xx, yy), c) by {
                assert(pixel_offset(w, xx, yy, c) < pixel_offset(w, 0, y as int, 0)) by (nonlinear_arith)
                    requires
                        0 <= xx < w,
                        0 <= yy < y,
                        0 <= c < 4,
                ;
                assert(out@[pixel_offset(w, xx, yy, c)] == before[pixel_offset(w, xx, yy, c)]);
            }
            assert forall|xx: int, c: int|
                0 <= xx < x + 1 && 0 <= c < 4 implies #[trigger] out@[pixel_offset(w, xx, y as int, c)]
                    == channel(icon_pixel(xx, y as int), c) by {
                if xx < x {
                    assert(out@[pixel_offset(w, xx, y as int, c)] == before[pixel_offset(w, xx, y as int, c)]);
                } else {
                    assert(pixel_offset(w, xx, y as int, c) == start + c);
                }
            }
            x = x + 1;
        }
        y = y + 1;
    }
    out
}

} // verus!

//! Pinhole camera: where the ray through a pixel meets the image plane.
//!
//! The image plane is the plane `z = 0`. A pixel `(x, y)` of a frame of
//! `width` by `height` pixels is mapped in four steps:
//! the row is flipped (`screen_y = height - y`, world `+y` points up),
//! the pixel centre is normalised to `[0, 1]` by dividing `(x + 1/2, screen_y + 1/2)`
//! by `(width, height)`, the result is centred by subtracting `1/2`, and the
//! horizontal coordinate is stretched by the aspect ratio `width / height`.
//! Worked out as fractions, both coordinates share the denominator `2 * height`:
//! the horizontal numerator is `2x + 1 - width` and the vertical one is
//! `2 * screen_y + 1 - height`. They are computed here exactly, in integers.
use vstd::prelude::*;

verus! {

/// A point `(x_num / denom, y_num / denom, 0)` on the image plane.
#[derive(Clone, Copy, Debug, PartialEq, Eq)]
pub struct PlanePoint {
    pub x_num: i64,
    pub y_num: i64,
    pub denom: u64,
}

/// The row counted from the bottom of the frame, as the world's `+y` runs.
pub open spec fn screen_row(pixel_y: int, height: int) -> int {
    height - pixel_y
}

/// Numerator of `((x + 1/2) / width - 1/2) * (width / height)` over `2 * height`.
pub open spec fn plane_x_num(pixel_x: int, width: int) -> int {
    2 * pixel_x + 1 - width
}

/// Numerator of `(screen_y + 1/2) / height - 1/2` over `2 * height`.
pub open spec fn plane_y_num(pixel_y: int, height: int) -> int {
    2 * screen_row(pixel_y, height) + 1 - height
}

/// The image-plane point that the camera ray through pixel `(x, y)` aims at.
pub open spec fn plane_target(pixel_x: u32, pixel_y: u32, width: u32, height: u32) -> PlanePoint {
    PlanePoint {
        x_num: plane_x_num(pixel_x as int, width as int) as i64,
        y_num: plane_y_num(pixel_y as int, height as int) as i64,
        denom: (2 * height) as u64,
    }
}

/// Maps pixel `(pixel_x, pixel_y)` of a `width` by `height` frame (row 0 at the
/// top) to the point of the image plane that its camera ray passes through.
pub fn pixel_target(pixel_x: u32, pixel_y: u32, width: u32, height: u32) -> (r: PlanePoint)
    requires
        pixel_x < width,
        pixel_y < height,
    ensures
        r == plane_target(pixel_x, pixel_y, width, height),
        r.x_num == plane_x_num(pixel_x as int, width as int),
        r.y_num == plane_y_num(pixel_y as int, height as int),
        r.denom == 2 * height,
{
    let screen_y: u32 = height - pixel_y;
    let x_num: i64 = 2 * (pixel_x as i64) + 1 - (width as i64);
    let y_num: i64 = 2 * (screen_y as i64) + 1 - (height as i64);
    let denom: u64 = 2 * (height as u64);
    PlanePoint { x_num, y_num, denom }
}

/// Row 0 is the top of the frame: a pixel further down aims lower on the image
/// plane, and a pixel further right aims further right. Column `(width - 1) / 2`
/// of an odd width aims at `x = 0`; since the flip counts rows from `height`
/// down to 1, row `(height + 1) / 2` of an odd height aims at `y = 0`.
pub proof fn lemma_plane_orientation(x1: u32, y1: u32, x2: u32, y2: u32, width: u32, height: u32)
    requires
        x1 <= x2 < width,
        y1 <= y2 < height,
    ensures
        plane_x_num(x1 as int, width as int) <= plane_x_num(x2 as int, width as int),
        plane_y_num(y1 as int, height as int) >= plane_y_num(y2 as int, height as int),
        x1 < x2 ==> plane_x_num(x1 as int, width as int) < plane_x_num(x2 as int, width as int),
        y1 < y2 ==> plane_y_num(y1 as int, height as int) > plane_y_num(y2 as int, height as int),
        2 * x1 + 1 == width ==> plane_x_num(x1 as int, width as int) == 0,
        2 * y1 == height + 1 ==> plane_y_num(y1 as int, height as int) == 0,
{
}

} // verus!

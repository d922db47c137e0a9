//! The frame loop: every pixel of the output image is shaded, row by row.
//!
//! The pixel buffer is the `image` crate's `RgbImage`. Its contents are seen
//! through two names: its size, and its pixels in row-major order.
use vstd::prelude::*;
use image::{Rgb, RgbImage};
use crate::camera::{pixel_target, plane_target, PlanePoint};

verus! {

/// The pixel buffer of a frame: an `image::RgbImage`, kept opaque and seen
/// through `image_size` and `image_pixels`.
#[verifier::external_body]
pub struct Frame {
    img: RgbImage,
}

/// Width and height of an image, in pixels.
pub uninterp spec fn image_size(img: Frame) -> (u32, u32);

/// The pixels of an image, row by row from the top, each row from the left.
pub uninterp spec fn image_pixels(img: Frame) -> Seq<[u8; 3]>;

/// Position of pixel `(x, y)` in the row-major sequence of a `width`-wide image.
pub open spec fn pixel_index(x: int, y: int, width: int) -> int {
    y * width + x
}

/// Relies on `ImageBuffer::new`: an image of the given size whose pixels are
/// all zero. It panics when `3 * width * height` overflows `usize`.
#[verifier::external_body]
fn blank_image(width: u32, height: u32) -> (img: Frame)
    requires
        3 * (width as int) * (height as int) <= usize::MAX,
    ensures
        image_size(img) == (width, height),
        image_pixels(img) == Seq::new((width as int * height as int) as nat, |i: int| [0u8, 0u8, 0u8]),
{
    Frame { img: RgbImage::new(width, height) }
}

/// Relies on `ImageBuffer::put_pixel`: overwrites pixel `(x, y)`, stored at
/// `y * width + x` in row-major order. It panics outside the image.
#[verifier::external_body]
fn set_pixel(img: &mut Frame, x: u32, y: u32, rgb: [u8; 3])
    requires
        x < image_size(*old(img)).0,
        y < image_size(*old(img)).1,
    ensures
        image_size(*final(img)) == image_size(*old(img)),
        image_pixels(*final(img)) == image_pixels(*old(img)).update(
            pixel_index(x as int, y as int, image_size(*old(img)).0 as int),
            rgb,
        ),
{
    img.img.put_pixel(x, y, Rgb(rgb))
}

/// Renders a `width` by `height` frame. For each pixel, in row-major order, the
/// camera maps it to its point on the image plane and `shade` turns that point
/// into the pixel's colour: afterwards every pixel holds a colour that `shade`
/// may return for the pixel's own point.
pub fn render_frame<F: Fn(PlanePoint) -> [u8; 3]>(width: u32, height: u32, shade: F) -> (img: Frame)
    requires
        3 * (width as int) * (height as int) <= usize::MAX,
        forall|x: u32, y: u32|
            x < width && y < height ==> shade.requires((#[trigger] plane_target(x, y, width, height),)),
    ensures
        image_size(img) == (width, height),
        image_pixels(img).len() == width as int * height as int,
        forall|x: u32, y: u32|
            x < width && y < height ==> shade.ensures(
                (plane_target(x, y, width, height),),
                #[trigger] image_pixels(img)[pixel_index(x as int, y as int, width as int)],
            ),
{
    let mut img = blank_image(width, height);
    let mut y: u32 = 0;
    while y < height
        invariant
            0 <= y <= height,
            3 * (width as int) * (height as int) <= usize::MAX,
            forall|x: u32, y: u32|
                x < width && y < height ==> shade.requires((#[trigger] plane_target(x, y, width, height),)),
            image_size(img) == (width, height),
            image_pixels(img).len() == width as int * height as int,
            forall|px: u32, py: u32|
                px < width && py < y ==> shade.ensures(
                    (plane_target(px, py, width, height),),
                    #[trigger] image_pixels(img)[pixel_index(px as int, py as int, width as int)],
                ),
        decreases height - y,
    {
        let mut x: u32 = 0;
        while x < width
            invariant
                0 <= x <= width,
                0 <= y < height,
                forall|x: u32, y: u32|
                    x < width && y < height ==> shade.requires((#[trigger] plane_target(x, y, width, height),)),
                image_size(img) == (width, height),
                image_pixels(img).len() == width as int * height as int,
                forall|px: u32, py: u32|
                    (py < y && px < width) || (py == y && px < x) ==> shade.ensures(
                        (plane_target(px, py, width, height),),
                        #[trigger] image_pixels(img)[pixel_index(px as int, py as int, width as int)],
                    ),
            decreases width - x,
        {
            let target = pixel_target(x, y, width, height);
            let rgb = shade(target);
            let ghost before = image_pixels(img);
            proof {
                lemma_index_in_frame(x as int, y as int, width as int, height as int);
            }
            set_pixel(&mut img, x, y, rgb);
            proof {
                let at = pixel_index(x as int, y as int, width as int);
                assert(image_pixels(img)[at] == rgb);
                assert forall|px: u32, py: u32|
                    (py < y && px < width) || (py == y && px < x + 1) implies shade.ensures(
                        (plane_target(px, py, width, height),),
                        #[trigger] image_pixels(img)[pixel_index(px as int, py as int, width as int)],
                    ) by {
                    lemma_index_in_frame(px as int, py as int, width as int, height as int);
                    if px != x || py != y {
                        lemma_index_order(px as int, py as int, x as int, y as int, width as int);
                        assert(image_pixels(img)[pixel_index(px as int, py as int, width as int)]
                            == before[pixel_index(px as int, py as int, width as int)]);
                    }
                }
            }
            x = x + 1;
        }
        proof {
            assert forall|px: u32, py: u32|
                px < width && py < y + 1 implies shade.ensures(
                    (plane_target(px, py, width, height),),
                    #[trigger] image_pixels(img)[pixel_index(px as int, py as int, width as int)],
                ) by {
                assert((py < y && px < width) || (py == y && px < x));
            }
        }
        y = y + 1;
    }
    img
}

/// A pixel inside the frame has its index inside the buffer.
proof fn lemma_index_in_frame(x: int, y: int, width: int, height: int)
    requires
        0 <= x < width,
        0 <= y < height,
    ensures
        0 <= pixel_index(x, y, width) < width * height,
{
    assert(0 <= y * width) by (nonlinear_arith)
        requires 0 <= y, 0 <= width;
    assert(y * width + x < width * height) by (nonlinear_arith)
        requires 0 <= x < width, 0 <= y < height;
}

/// Pixels visited earlier in row-major order have smaller indices.
proof fn lemma_index_order(px: int, py: int, x: int, y: int, width: int)
    requires
        0 <= px < width,
        0 <= x < width,
        0 <= py <= y,
        py < y || px < x,
    ensures
        pixel_index(px, py, width) < pixel_index(x, y, width),
{
    assert(py * width + px < y * width + x) by (nonlinear_arith)
        requires 0 <= px < width, 0 <= x < width, 0 <= py <= y, py < y || px < x;
}

impl Frame {
    /// Relies on `ImageBuffer::into_raw`: the pixels' channels in row-major order.
    #[verifier::external_body]
    pub fn into_raw(self) -> (r: Vec<u8>)
        ensures
            r@.len() == 3 * image_pixels(self).len(),
            forall|i: int, c: int|
                0 <= i < image_pixels(self).len() && 0 <= c < 3 ==> r@[3 * i + c] == #[trigger] image_pixels(self)[i][c],
    {
        self.img.into_raw()
    }
}

} // verus!

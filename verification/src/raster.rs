//! Pixel buffers held by the document.
//!
//! The pixels themselves live in `image::DynamicImage` values, which the
//! library only carries; a [`Raster`] records beside them the dimensions
//! that the document logic reads.

use std::sync::Arc;
use vstd::prelude::*;

verus! {

#[verifier::external_type_specification]
#[verifier::external_body]
pub struct ExDynamicImage(image::DynamicImage);

/// Largest pixel count for which a new RGBA8 buffer is allocated
/// (4 bytes per pixel stay far below `isize::MAX`).
pub const MAX_RASTER_PIXELS: u64 = 0x1_0000_0000_0000;

/// Whether a `width` × `height` RGBA8 buffer may be allocated: at most
/// `MAX_RASTER_PIXELS` pixels, whose four bytes each the machine's sizes
/// can count.
pub open spec fn raster_fits(width: u32, height: u32) -> bool {
    &&& width as int * height as int <= MAX_RASTER_PIXELS as int
    &&& width as int * height as int * 4 <= usize::MAX as int
}

/// Whether `pixels` RGBA8 pixels may be allocated (see `raster_fits`).
pub fn pixel_count_fits(pixels: u64) -> (fits: bool)
    ensures
        fits == (pixels as int <= MAX_RASTER_PIXELS as int && pixels as int * 4 <= usize::MAX as int),
{
    pixels <= MAX_RASTER_PIXELS && (pixels as u128) * 4 <= (usize::MAX as u128)
}

/// An image shared by reference counting, with its dimensions.
///
/// Invariant (kept by every constructor of this module): `width` and
/// `height` are the dimensions of `pixels`.
pub struct Raster {
    pub width: u32,
    pub height: u32,
    pub pixels: Arc<image::DynamicImage>,
}

/// Width in pixels of an image (`image::DynamicImage::width`).
pub uninterp spec fn image_width(img: image::DynamicImage) -> u32;

/// Height in pixels of an image (`image::DynamicImage::height`).
pub uninterp spec fn image_height(img: image::DynamicImage) -> u32;

/// The fully transparent RGBA8 image of a size (`DynamicImage::new_rgba8`).
pub uninterp spec fn blank_image(width: u32, height: u32) -> image::DynamicImage;

/// The RGBA8 image of a size whose every pixel is `pixel`
/// (`ImageBuffer::from_pixel`).
pub uninterp spec fn filled_image(width: u32, height: u32, pixel: Seq<u8>) -> image::DynamicImage;

/// The opaque white RGBA8 image of a size.
pub open spec fn white_image(width: u32, height: u32) -> image::DynamicImage {
    filled_image(width, height, seq![255u8, 255u8, 255u8, 255u8])
}

/// An image mirrored left to right (`DynamicImage::fliph`).
pub uninterp spec fn mirrored_left_right(img: image::DynamicImage) -> image::DynamicImage;

/// An image mirrored top to bottom (`DynamicImage::flipv`).
pub uninterp spec fn mirrored_top_bottom(img: image::DynamicImage) -> image::DynamicImage;

/// The cut-out of an image (`DynamicImage::crop_imm`).
pub uninterp spec fn cut_image(
    img: image::DynamicImage,
    x: u32,
    y: u32,
    width: u32,
    height: u32,
) -> image::DynamicImage;

/// Extent of a cut-out along one axis, as `crop_imm` clips it: the start
/// is clamped to the image, the length to what is left after it.
pub open spec fn clipped_extent(total: u32, start: u32, len: u32) -> u32 {
    let s = if start < total { start } else { total };
    if len < total - s { len } else { (total - s) as u32 }
}

/// `image::DynamicImage::new_rgba8`: a buffer of `width` × `height`
/// zeroed RGBA8 pixels.
#[verifier::external_body]
fn new_transparent(width: u32, height: u32) -> (img: Arc<image::DynamicImage>)
    requires
        raster_fits(width, height),
    ensures
        *img == blank_image(width, height),
        image_width(*img) == width,
        image_height(*img) == height,
{
    Arc::new(image::DynamicImage::new_rgba8(width, height))
}

/// `image::ImageBuffer::from_pixel` with an RGBA8 pixel, wrapped as a
/// `DynamicImage`: an image of the given size whose every pixel is
/// `pixel`.
#[verifier::external_body]
fn new_filled(width: u32, height: u32, pixel: [u8; 4]) -> (img: Arc<image::DynamicImage>)
    requires
        raster_fits(width, height),
    ensures
        *img == filled_image(width, height, pixel@),
        image_width(*img) == width,
        image_height(*img) == height,
{
    let buffer = image::ImageBuffer::from_pixel(width, height, image::Rgba(pixel));
    Arc::new(image::DynamicImage::ImageRgba8(buffer))
}

/// `image::DynamicImage::fliph`: the image mirrored left to right, by
/// `imageops::flip_horizontal`, which keeps the dimensions.
#[verifier::external_body]
fn mirror_left_right(img: &Arc<image::DynamicImage>) -> (out: Arc<image::DynamicImage>)
    ensures
        *out == mirrored_left_right(**img),
        image_width(*out) == image_width(**img),
        image_height(*out) == image_height(**img),
{
    Arc::new(img.fliph())
}

/// `image::DynamicImage::flipv`: the image mirrored top to bottom, by
/// `imageops::flip_vertical`, which keeps the dimensions.
#[verifier::external_body]
fn mirror_top_bottom(img: &Arc<image::DynamicImage>) -> (out: Arc<image::DynamicImage>)
    ensures
        *out == mirrored_top_bottom(**img),
        image_width(*out) == image_width(**img),
        image_height(*out) == image_height(**img),
{
    Arc::new(img.flipv())
}

/// `image::DynamicImage::crop_imm`: the cut-out whose top-left corner is
/// `(x, y)`, clipped to the image by `imageops::crop_dimms`.
#[verifier::external_body]
fn cut_out(img: &Arc<image::DynamicImage>, x: u32, y: u32, width: u32, height: u32) -> (out: Arc<
    image::DynamicImage,
>)
    ensures
        *out == cut_image(**img, x, y, width, height),
        image_width(*out) == clipped_extent(image_width(**img), x, width),
        image_height(*out) == clipped_extent(image_height(**img), y, height),
{
    Arc::new(img.crop_imm(x, y, width, height))
}

/// `std::sync::Arc::clone`: a second pointer to the same allocation,
/// hence to the same image.
#[verifier::external_body]
fn share_pixels(img: &Arc<image::DynamicImage>) -> (out: Arc<image::DynamicImage>)
    ensures
        out == *img,
{
    Arc::clone(img)
}

/// `image::DynamicImage::width`.
#[verifier::external_body]
fn width_of(img: &image::DynamicImage) -> (width: u32)
    ensures
        width == image_width(*img),
{
    img.width()
}

/// `image::DynamicImage::height`.
#[verifier::external_body]
fn height_of(img: &image::DynamicImage) -> (height: u32)
    ensures
        height == image_height(*img),
{
    img.height()
}

/// How a destructive edit reworks every raster of a pixel layer.
#[derive(Clone, Copy)]
pub enum RasterOp {
    /// Mirror left to right (`true`) or top to bottom (`false`).
    Mirror(bool),
    /// Keep the `width` × `height` rectangle at `(x, y)`.
    Cut(u32, u32, u32, u32),
}

impl Raster {
    /// Whether the recorded dimensions are those of the pixels.
    pub open spec fn wf(self) -> bool {
        self.width == image_width(*self.pixels) && self.height == image_height(*self.pixels)
    }

    /// A transparent image of the given size.
    pub fn transparent(width: u32, height: u32) -> (r: Raster)
        requires
            raster_fits(width, height),
        ensures
            r.wf(),
            r.width == width,
            r.height == height,
            *r.pixels == blank_image(width, height),
    {
        Raster { width, height, pixels: new_transparent(width, height) }
    }

    /// An opaque white image of the given size (a mask that hides nothing).
    pub fn opaque_white(width: u32, height: u32) -> (r: Raster)
        requires
            raster_fits(width, height),
        ensures
            r.wf(),
            r.width == width,
            r.height == height,
            *r.pixels == white_image(width, height),
    {
        let white: [u8; 4] = [255, 255, 255, 255];
        assert(white@ =~= seq![255u8, 255u8, 255u8, 255u8]);
        Raster { width, height, pixels: new_filled(width, height, white) }
    }

    /// Takes an image, recording its dimensions.
    pub fn from_image(image: image::DynamicImage) -> (r: Raster)
        ensures
            r.wf(),
            *r.pixels == image,
    {
        let width = width_of(&image);
        let height = height_of(&image);
        Raster { width, height, pixels: Arc::new(image) }
    }

    /// Another handle on the same pixels (no pixel is copied).
    pub fn share(&self) -> (r: Raster)
        ensures
            r == *self,
    {
        Raster { width: self.width, height: self.height, pixels: share_pixels(&self.pixels) }
    }

    /// The image reworked by `op`.
    pub fn reworked(&self, op: RasterOp) -> (r: Raster)
        ensures
            raster_reworked(*self, op, r),
    {
        match op {
            RasterOp::Mirror(horizontal) => {
                let pixels = if horizontal {
                    mirror_left_right(&self.pixels)
                } else {
                    mirror_top_bottom(&self.pixels)
                };
                Raster { width: self.width, height: self.height, pixels }
            },
            RasterOp::Cut(x, y, width, height) => {
                let w = if x < self.width { self.width - x } else { 0 };
                let h = if y < self.height { self.height - y } else { 0 };
                Raster {
                    width: if width < w { width } else { w },
                    height: if height < h { height } else { h },
                    pixels: cut_out(&self.pixels, x, y, width, height),
                }
            },
        }
    }
}

/// `after` is `before` reworked by `op`: same transformation of the
/// pixels, dimensions as the image crate computes them, and a well-formed
/// raster stays well-formed.
pub open spec fn raster_reworked(before: Raster, op: RasterOp, after: Raster) -> bool {
    &&& before.wf() ==> after.wf()
    &&& match op {
        RasterOp::Mirror(horizontal) => {
            &&& after.width == before.width
            &&& after.height == before.height
            &&& *after.pixels == if horizontal {
                mirrored_left_right(*before.pixels)
            } else {
                mirrored_top_bottom(*before.pixels)
            }
        },
        RasterOp::Cut(x, y, width, height) => {
            &&& after.width == clipped_extent(before.width, x, width)
            &&& after.height == clipped_extent(before.height, y, height)
            &&& *after.pixels == cut_image(*before.pixels, x, y, width, height)
        },
    }
}

/// RGBA8 buffer shared with the interface without copying.
pub struct RgbaBuf {
    pub width: u32,
    pub height: u32,
    pub data: Arc<Vec<u8>>,
}

impl RgbaBuf {
    /// A shareable RGBA buffer made of raw bytes.
    pub fn from_vec(width: u32, height: u32, data: Vec<u8>) -> (buf: RgbaBuf)
        ensures
            buf.width == width,
            buf.height == height,
            buf.data@ == data@,
    {
        RgbaBuf { width, height, data: Arc::new(data) }
    }
}

} // verus!

//! Decoded images of the `image` crate, by their extent and their pixels.
//!
//! The crate decodes, turns and scales; this module says what each call does to
//! the pixels, so that the code around the calls can be verified.

use vstd::prelude::*;

verus! {

/// A decoded image of the `image` crate.
#[verifier::external_type_specification]
#[verifier::external_body]
pub struct ExDynamicImage(image::DynamicImage);

/// The width and the height of a decoded image, in pixels.
pub uninterp spec fn image_extent(image: image::DynamicImage) -> (nat, nat);

/// The pixels of a decoded image by column and row, each as its red, green, blue
/// and alpha values.
pub uninterp spec fn image_pixels(image: image::DynamicImage) -> Map<(int, int), (u8, u8, u8, u8)>;

/// The bytes of one pixel of a decoded image.
pub uninterp spec fn pixel_bytes(image: image::DynamicImage) -> u8;

/// The samples of one pixel of a decoded image.
pub uninterp spec fn pixel_samples(image: image::DynamicImage) -> u8;

/// The image that the `image` crate decodes from the bytes of a file in the given
/// format, if the bytes can be decoded.
pub uninterp spec fn decoded_image(bytes: Seq<u8>, format: ImageKind) -> Option<
    image::DynamicImage,
>;

/// The image scaled to fit the given width and height with a triangle filter.
pub uninterp spec fn resized_image(
    image: image::DynamicImage,
    width: u32,
    height: u32,
) -> image::DynamicImage;

/// The image scaled down to fit the given width and height by block averages.
pub uninterp spec fn shrunk_image(
    image: image::DynamicImage,
    width: u32,
    height: u32,
) -> image::DynamicImage;

/// An image format that thumbnails can be made from.
#[derive(Debug, Clone, Copy, PartialEq, Eq, Structural)]
pub enum ImageKind {
    /// JPEG.
    Jpeg,
    /// PNG.
    Png,
    /// GIF.
    Gif,
    /// WebP.
    WebP,
    /// Windows bitmap.
    Bmp,
    /// TIFF.
    Tiff,
}

/// Whether a column and a row lie inside an image.
pub open spec fn inside(extent: (nat, nat), x: int, y: int) -> bool {
    0 <= x < extent.0 && 0 <= y < extent.1
}

/// Whether a buffer of that many pixels, each of so many bytes, can be allocated.
pub open spec fn fits_memory(width: nat, height: nat, bytes: nat) -> bool {
    width * height * bytes <= isize::MAX
}

/// Whether a copy of the image with four channels of a byte each can be allocated.
pub open spec fn turnable(image: image::DynamicImage) -> bool {
    fits_memory(image_extent(image).0, image_extent(image).1, 4)
}

/// A side of at least one pixel.
pub open spec fn side(n: u32) -> nat {
    if n == 0 {
        1
    } else {
        n as nat
    }
}

/// The longest side that an image can be scaled to with a filter. Where the pixels of
/// the result lie in the image is computed in floating point of 32 bits; up to this
/// side, whatever the image, the error is less than the filter is wide.
pub const MAX_SCALED_SIDE: u32 = 0x10_0000;

/// Whether an image can be scaled to fit the given width and height with a filter: the
/// sides are within what the computation is good for, and the buffers that it works on
/// can be allocated.
pub open spec fn scalable(extent: (nat, nat), width: u32, height: u32) -> bool {
    &&& width <= MAX_SCALED_SIDE
    &&& height <= MAX_SCALED_SIDE
    &&& fits_memory(1, extent.1, 16)
    &&& fits_memory(extent.0, side(height), 16)
    &&& fits_memory(side(width), side(height), 16)
}

/// The least that a side becomes which is scaled by the quotient of the two numbers:
/// the nearest number, or the one below it where two are about as near, but one pixel
/// at the least.
pub open spec fn scaled_side(side: nat, by: nat, of: nat) -> nat {
    let nearest = (1024 * (side * by) + 511 * of) / (1024 * of);
    if nearest == 0 {
        1
    } else {
        nearest
    }
}

/// The least extent that an image is scaled down to so that it fits the given width and
/// height, with its proportions kept.
pub open spec fn scaled_extent(extent: (nat, nat), width: u32, height: u32) -> (nat, nat) {
    if width == 0 || height == 0 || extent.0 == 0 || extent.1 == 0 {
        (1, 1)
    } else if extent.0 * height as nat >= extent.1 * width as nat {
        (width as nat, scaled_side(extent.1, width as nat, extent.0))
    } else {
        (scaled_side(extent.0, height as nat, extent.1), height as nat)
    }
}

/// How many pixels along one side of an image are averaged at the most, where the side
/// is scaled down to the given number of pixels: as many as come to one of these, and
/// one more on each end, and what floating point adds on a long side.
pub open spec fn block_side(side: nat, scaled: nat) -> nat {
    let most = side / scaled + 2 + side / 0x20_0000;
    if side < most {
        side
    } else {
        most
    }
}

/// How many pixels can be averaged: the sum of as many samples, with half as many for
/// rounding, fits 32 bits, or it is taken in floating point.
pub open spec fn block_limit(bytes: u8, samples: u8) -> nat {
    if bytes <= samples {
        16_810_048
    } else if bytes <= 2 * samples {
        0x1_0000
    } else {
        0xffff_ffff
    }
}

/// Whether an image can be scaled down to the given width and height by averages: the
/// result can be allocated, and no pixel of it is the average of too many.
pub open spec fn averageable(
    extent: (nat, nat),
    bytes: u8,
    samples: u8,
    width: u32,
    height: u32,
) -> bool {
    let scaled = scaled_extent(extent, width, height);
    &&& fits_memory(side(width), side(height), 16)
    &&& block_side(extent.0, scaled.0) * block_side(extent.1, scaled.1) <= block_limit(
        bytes,
        samples,
    )
}

/// Whether an image can be scaled down to the given width and height by averages.
pub open spec fn shrinkable(image: image::DynamicImage, width: u32, height: u32) -> bool {
    averageable(image_extent(image), pixel_bytes(image), pixel_samples(image), width, height)
}

/// Whether an extent fits a width and a height; no side is less than one pixel.
pub open spec fn fits_sides(extent: (nat, nat), width: u32, height: u32) -> bool {
    extent.0 <= side(width) && extent.1 <= side(height)
}

/// `image::DynamicImage::color` and `image::ColorType::bytes_per_pixel`: the bytes of
/// one pixel.
#[verifier::external_body]
fn bytes_of_pixel(image: &image::DynamicImage) -> (r: u8)
    ensures
        r == pixel_bytes(*image),
{
    image.color().bytes_per_pixel()
}

/// `image::DynamicImage::color` and `image::ColorType::channel_count`: the samples of
/// one pixel.
#[verifier::external_body]
fn samples_of_pixel(image: &image::DynamicImage) -> (r: u8)
    ensures
        r == pixel_samples(*image),
{
    image.color().channel_count()
}

/// `image::GenericImageView::dimensions`: the width and the height of the image.
#[verifier::external_body]
pub(crate) fn dimensions(image: &image::DynamicImage) -> (r: (u32, u32))
    ensures
        (r.0 as nat, r.1 as nat) == image_extent(*image),
{
    image::GenericImageView::dimensions(image)
}

/// `image::imageops::flip_horizontal`: each row is reversed.
#[verifier::external_body]
pub(crate) fn flip_horizontal(image: &image::DynamicImage) -> (r: image::DynamicImage)
    requires
        turnable(*image),
    ensures
        image_extent(r) == image_extent(*image),
        forall|x: int, y: int|
            inside(image_extent(*image), x, y) ==> #[trigger] image_pixels(r)[(x, y)]
                == image_pixels(*image)[(image_extent(*image).0 - 1 - x, y)],
{
    image::DynamicImage::ImageRgba8(image::imageops::flip_horizontal(image))
}

/// `image::imageops::flip_vertical`: each column is reversed.
#[verifier::external_body]
pub(crate) fn flip_vertical(image: &image::DynamicImage) -> (r: image::DynamicImage)
    requires
        turnable(*image),
    ensures
        image_extent(r) == image_extent(*image),
        forall|x: int, y: int|
            inside(image_extent(*image), x, y) ==> #[trigger] image_pixels(r)[(x, y)]
                == image_pixels(*image)[(x, image_extent(*image).1 - 1 - y)],
{
    image::DynamicImage::ImageRgba8(image::imageops::flip_vertical(image))
}

/// `image::imageops::rotate180`: each row and each column is reversed.
#[verifier::external_body]
pub(crate) fn rotate180(image: &image::DynamicImage) -> (r: image::DynamicImage)
    requires
        turnable(*image),
    ensures
        image_extent(r) == image_extent(*image),
        forall|x: int, y: int|
            inside(image_extent(*image), x, y) ==> #[trigger] image_pixels(r)[(x, y)]
                == image_pixels(*image)[(
                image_extent(*image).0 - 1 - x,
                image_extent(*image).1 - 1 - y,
            )],
{
    image::DynamicImage::ImageRgba8(image::imageops::rotate180(image))
}

/// `image::imageops::rotate90`: a quarter turn clockwise, so that the left column
/// becomes the top row, read upwards.
#[verifier::external_body]
pub(crate) fn rotate90(image: &image::DynamicImage) -> (r: image::DynamicImage)
    requires
        turnable(*image),
    ensures
        image_extent(r) == (image_extent(*image).1, image_extent(*image).0),
        forall|x: int, y: int|
            inside(image_extent(r), x, y) ==> #[trigger] image_pixels(r)[(x, y)] == image_pixels(
                *image,
            )[(y, image_extent(*image).1 - 1 - x)],
{
    image::DynamicImage::ImageRgba8(image::imageops::rotate90(image))
}

/// `image::imageops::rotate270`: a quarter turn counterclockwise, so that the right
/// column becomes the top row, read downwards.
#[verifier::external_body]
pub(crate) fn rotate270(image: &image::DynamicImage) -> (r: image::DynamicImage)
    requires
        turnable(*image),
    ensures
        image_extent(r) == (image_extent(*image).1, image_extent(*image).0),
        forall|x: int, y: int|
            inside(image_extent(r), x, y) ==> #[trigger] image_pixels(r)[(x, y)] == image_pixels(
                *image,
            )[(image_extent(*image).0 - 1 - y, x)],
{
    image::DynamicImage::ImageRgba8(image::imageops::rotate270(image))
}

/// `image::load_from_memory_with_format`: the image that the bytes hold in the given
/// format, or nothing where they cannot be decoded.
#[verifier::external_body]
pub(crate) fn decode(bytes: &[u8], format: ImageKind) -> (r: Option<image::DynamicImage>)
    ensures
        r == decoded_image(bytes@, format),
{
    let format = match format {
        ImageKind::Jpeg => image::ImageFormat::Jpeg,
        ImageKind::Png => image::ImageFormat::Png,
        ImageKind::Gif => image::ImageFormat::Gif,
        ImageKind::WebP => image::ImageFormat::WebP,
        ImageKind::Bmp => image::ImageFormat::Bmp,
        ImageKind::Tiff => image::ImageFormat::Tiff,
    };
    image::load_from_memory_with_format(bytes, format).ok()
}

/// `image::DynamicImage::resize` with a triangle filter: the image scaled to the
/// largest size of the same proportions that fits the given width and height, where a
/// side is never less than one pixel. On a longer side than `requires` admits, a pixel
/// of the result can lie so far off that no pixel of the image has a weight in it, and
/// the call panics.
#[verifier::external_body]
pub(crate) fn resize(image: &image::DynamicImage, width: u32, height: u32) -> (r:
    image::DynamicImage)
    requires
        scalable(image_extent(*image), width, height),
    ensures
        r == resized_image(*image, width, height),
        fits_sides(image_extent(r), width, height),
{
    image.resize(width, height, image::imageops::FilterType::Triangle)
}

/// `image::DynamicImage::thumbnail`: the image scaled to the largest size of the same
/// proportions that fits the given width and height, where a side is never less than
/// one pixel. Each pixel is the average of a block of pixels, summed in 32 bits where
/// samples are integers: `requires` leaves out images whose blocks are too large.
#[verifier::external_body]
pub(crate) fn shrink(image: &image::DynamicImage, width: u32, height: u32) -> (r:
    image::DynamicImage)
    requires
        shrinkable(*image, width, height),
    ensures
        r == shrunk_image(*image, width, height),
        fits_sides(image_extent(r), width, height),
{
    image.thumbnail(width, height)
}

/// Whether a buffer of that many pixels, each of so many bytes, can be allocated.
pub(crate) fn memory_fits(width: u32, height: u32, bytes: u32) -> (r: bool)
    ensures
        r == fits_memory(width as nat, height as nat, bytes as nat),
{
    assert(0 <= width * height <= u32::MAX * u32::MAX) by (nonlinear_arith)
        requires
            0 <= width <= u32::MAX,
            0 <= height <= u32::MAX,
    ;
    let area: u128 = width as u128 * height as u128;
    assert(0 <= area * bytes <= u32::MAX * u32::MAX * u32::MAX) by (nonlinear_arith)
        requires
            0 <= area <= u32::MAX * u32::MAX,
            0 <= bytes <= u32::MAX,
    ;
    let total: u128 = area * bytes as u128;
    total <= isize::MAX as u128
}

/// Whether an image of the given extent can be scaled with a filter.
pub fn can_scale(extent: (u32, u32), width: u32, height: u32) -> (r: bool)
    ensures
        r == scalable((extent.0 as nat, extent.1 as nat), width, height),
{
    let wide: u32 = if width == 0 {
        1
    } else {
        width
    };
    let high: u32 = if height == 0 {
        1
    } else {
        height
    };
    width <= MAX_SCALED_SIDE && height <= MAX_SCALED_SIDE && memory_fits(1, extent.1, 16)
        && memory_fits(extent.0, high, 16) && memory_fits(wide, high, 16)
}

/// How many pixels along one side of an image are averaged at the most.
fn side_of_block(side: u32, scaled: u32) -> (r: u64)
    requires
        scaled > 0,
    ensures
        r == block_side(side as nat, scaled as nat),
        r <= u32::MAX,
{
    assert(side / scaled <= side) by (nonlinear_arith)
        requires
            scaled > 0,
    ;
    let most: u64 = (side / scaled) as u64 + 2 + (side / 0x20_0000) as u64;
    if (side as u64) < most {
        side as u64
    } else {
        most
    }
}

/// The least that a side becomes, where the result is at most the given number.
fn side_scaled(side: u32, by: u32, of: u32) -> (r: u32)
    requires
        of > 0,
        by > 0,
        side * by <= of * u32::MAX,
    ensures
        r == scaled_side(side as nat, by as nat, of as nat),
        r > 0,
{
    assert(0 <= side * by <= u32::MAX * u32::MAX) by (nonlinear_arith)
        requires
            0 <= side <= u32::MAX,
            0 <= by <= u32::MAX,
    ;
    let product: u128 = side as u128 * by as u128;
    let above: u128 = 1024 * product + 511 * of as u128;
    let below: u128 = 1024 * of as u128;
    assert(0 <= above / below <= u32::MAX) by (nonlinear_arith)
        requires
            of > 0,
            below == 1024 * of,
            above == 1024 * product + 511 * of,
            0 <= product <= of * u32::MAX,
    ;
    let nearest: u32 = (above / below) as u32;
    if nearest == 0 {
        1
    } else {
        nearest
    }
}

/// The least extent that an image is scaled down to.
fn extent_scaled(extent: (u32, u32), width: u32, height: u32) -> (r: (u32, u32))
    ensures
        (r.0 as nat, r.1 as nat) == scaled_extent(
            (extent.0 as nat, extent.1 as nat),
            width,
            height,
        ),
        r.0 > 0,
        r.1 > 0,
{
    if width == 0 || height == 0 || extent.0 == 0 || extent.1 == 0 {
        return (1, 1);
    }
    assert(0 <= extent.0 * height <= u32::MAX * u32::MAX && 0 <= extent.1 * width <= u32::MAX
        * u32::MAX) by (nonlinear_arith)
        requires
            0 <= extent.0 <= u32::MAX,
            0 <= extent.1 <= u32::MAX,
            0 <= width <= u32::MAX,
            0 <= height <= u32::MAX,
    ;
    let across: u64 = extent.0 as u64 * height as u64;
    let down: u64 = extent.1 as u64 * width as u64;
    if across >= down {
        assert(extent.1 * width <= extent.0 * u32::MAX) by (nonlinear_arith)
            requires
                extent.1 * width <= extent.0 * height,
                0 <= height <= u32::MAX,
                0 <= extent.0,
        ;
        (width, side_scaled(extent.1, width, extent.0))
    } else {
        assert(extent.0 * height <= extent.1 * u32::MAX) by (nonlinear_arith)
            requires
                extent.0 * height <= extent.1 * width,
                0 <= width <= u32::MAX,
                0 <= extent.1,
        ;
        (side_scaled(extent.0, height, extent.1), height)
    }
}

/// Whether an image of the given extent can be scaled down by averages, where a pixel
/// has so many bytes and samples.
pub fn can_average(extent: (u32, u32), bytes: u8, samples: u8, width: u32, height: u32) -> (r: bool)
    ensures
        r == averageable((extent.0 as nat, extent.1 as nat), bytes, samples, width, height),
{
    let scaled = extent_scaled(extent, width, height);
    let across = side_of_block(extent.0, scaled.0);
    let down = side_of_block(extent.1, scaled.1);
    assert(0 <= across * down <= u32::MAX * u32::MAX) by (nonlinear_arith)
        requires
            0 <= across <= u32::MAX,
            0 <= down <= u32::MAX,
    ;
    let block: u64 = across * down;
    let limit: u64 = if bytes <= samples {
        16_810_048
    } else if bytes as u16 <= 2 * samples as u16 {
        0x1_0000
    } else {
        0xffff_ffff
    };
    let wide: u32 = if width == 0 {
        1
    } else {
        width
    };
    let high: u32 = if height == 0 {
        1
    } else {
        height
    };
    memory_fits(wide, high, 16) && block <= limit
}

/// Whether an image can be scaled down to the given width and height by averages.
pub fn can_shrink(image: &image::DynamicImage, width: u32, height: u32) -> (r: bool)
    ensures
        r == shrinkable(*image, width, height),
{
    let extent = dimensions(image);
    can_average(extent, bytes_of_pixel(image), samples_of_pixel(image), width, height)
}

/// A picture that is scaled into a frame keeps within it, is not empty, and fills one of its
/// sides.
pub proof fn law_scaled_pictures_fill_one_side(extent: (nat, nat), width: u32, height: u32)
    requires
        extent.0 > 0,
        extent.1 > 0,
        width > 0,
        height > 0,
    ensures
        ({
            let scaled = scaled_extent(extent, width, height);
            &&& 1 <= scaled.0 <= width
            &&& 1 <= scaled.1 <= height
            &&& scaled.0 == width || scaled.1 == height
            &&& extent.0 * height >= extent.1 * width ==> scaled.0 == width
            &&& extent.0 * height < extent.1 * width ==> scaled.1 == height
        }),
{
    if extent.0 * height as nat >= extent.1 * width as nat {
        lemma_scaled_side(extent.1, width as nat, extent.0, height as nat);
    } else {
        assert(extent.0 * height as nat <= extent.1 * width as nat);
        lemma_scaled_side(extent.0, height as nat, extent.1, width as nat);
    }
}

proof fn lemma_scaled_side(side: nat, by: nat, of: nat, most: nat)
    requires
        of > 0,
        most > 0,
        side * by <= of * most,
    ensures
        1 <= scaled_side(side, by, of) <= most,
{
    let a = side * by;
    assert((1024 * a + 511 * of) / (1024 * of) <= most) by (nonlinear_arith)
        requires
            of > 0,
            a <= of * most,
    ;
}

} // verus!

//! The orientation that a camera records in an image, and its correction.

use vstd::prelude::*;
use crate::media::pixels;
use crate::media::pixels::{
    dimensions,
    flip_horizontal,
    flip_vertical,
    memory_fits,
    rotate180,
    rotate270,
    rotate90,
};
use crate::text;

verus! {

/// The short values of the orientation tag in the first directory of the metadata
/// that the file bytes carry, if the metadata can be read and holds such values.
pub uninterp spec fn exif_orientation_values(bytes: Seq<u8>) -> Option<Seq<u16>>;

/// `exif::Reader::read_from_container` and `exif::Exif::get_field`: the values of the
/// orientation tag of the primary image, where the metadata can be read and the tag
/// is there with short values.
#[verifier::external_body]
pub(crate) fn orientation_values(data: &[u8]) -> (r: Option<Vec<u16>>)
    ensures
        text::opt_view(r) == exif_orientation_values(data@),
{
    let found = exif::Reader::new().read_from_container(&mut std::io::Cursor::new(data)).ok()?;
    let field = found.get_field(exif::Tag::Orientation, exif::In::PRIMARY)?;
    match &field.value {
        exif::Value::Short(values) => Some(values.clone()),
        _ => None,
    }
}

/// The orientation that recorded values stand for: the first of them, or upright.
pub open spec fn orientation_of(values: Option<Seq<u16>>) -> u32 {
    match values {
        Some(list) => if list.len() > 0 {
            list[0] as u32
        } else {
            1
        },
        None => 1,
    }
}

/// The orientation that recorded values stand for.
pub fn first_orientation(values: Option<Vec<u16>>) -> (r: u32)
    ensures
        r == orientation_of(text::opt_view(values)),
{
    match values {
        Some(list) => if list.len() > 0 {
            list[0] as u32
        } else {
            1
        },
        None => 1,
    }
}

/// The orientation that the bytes of an image file record; upright where none can be
/// read.
pub fn read_exif_orientation(data: &[u8]) -> (r: u32)
    ensures
        r == orientation_of(exif_orientation_values(data@)),
{
    first_orientation(orientation_values(data))
}

/// Whether an orientation exchanges the width and the height.
pub open spec fn swaps_sides(orientation: u32) -> bool {
    5 <= orientation <= 8
}

/// The extent of an image after its orientation has been corrected.
pub open spec fn oriented_extent(orientation: u32, extent: (nat, nat)) -> (nat, nat) {
    if swaps_sides(orientation) {
        (extent.1, extent.0)
    } else {
        extent
    }
}

/// Where the pixel that the corrected image shows at column `x` and row `y` stood
/// in an image of the given extent.
pub open spec fn source_of(orientation: u32, extent: (nat, nat), x: int, y: int) -> (int, int) {
    let right = extent.0 - 1;
    let bottom = extent.1 - 1;
    if orientation == 2 {
        (right - x, y)
    } else if orientation == 3 {
        (right - x, bottom - y)
    } else if orientation == 4 {
        (x, bottom - y)
    } else if orientation == 5 {
        (y, x)
    } else if orientation == 6 {
        (y, bottom - x)
    } else if orientation == 7 {
        (right - y, bottom - x)
    } else if orientation == 8 {
        (right - y, x)
    } else {
        (x, y)
    }
}

/// Whether one image is another with its orientation corrected.
pub open spec fn is_oriented(
    orientation: u32,
    before: image::DynamicImage,
    after: image::DynamicImage,
) -> bool {
    &&& pixels::image_extent(after) == oriented_extent(orientation, pixels::image_extent(before))
    &&& forall|x: int, y: int|
        pixels::inside(pixels::image_extent(after), x, y) ==> #[trigger] pixels::image_pixels(
            after,
        )[(x, y)] == pixels::image_pixels(before)[source_of(
            orientation,
            pixels::image_extent(before),
            x,
            y,
        )]
}

/// Corrects the orientation of a decoded image.
pub fn apply_exif_orientation(img: image::DynamicImage, orientation: u32) -> (r:
    image::DynamicImage)
    requires
        pixels::turnable(img),
    ensures
        is_oriented(orientation, img, r),
        !(2 <= orientation <= 8) ==> r == img,
{
    if orientation == 2 {
        flip_horizontal(&img)
    } else if orientation == 3 {
        rotate180(&img)
    } else if orientation == 4 {
        flip_vertical(&img)
    } else if orientation == 5 {
        let turned = turn(&img);
        flip_horizontal(&turned)
    } else if orientation == 6 {
        rotate90(&img)
    } else if orientation == 7 {
        let turned = turn(&img);
        flip_vertical(&turned)
    } else if orientation == 8 {
        rotate270(&img)
    } else {
        img
    }
}

/// Turns an image clockwise by a quarter.
fn turn(img: &image::DynamicImage) -> (r: image::DynamicImage)
    requires
        pixels::turnable(*img),
    ensures
        is_oriented(6, *img, r),
        pixels::turnable(r),
{
    let r = rotate90(img);
    proof {
        let (w, h) = pixels::image_extent(*img);
        assert(w * h * 4 == h * w * 4) by (nonlinear_arith);
    }
    r
}

/// Corrects the orientation of a decoded image, or nothing where the corrected image
/// could not be held in memory.
pub fn correct_orientation(img: image::DynamicImage, orientation: u32) -> (r: Option<
    image::DynamicImage,
>)
    ensures
        match r {
            Some(turned) => pixels::turnable(img) && is_oriented(orientation, img, turned) && (!(2
                <= orientation <= 8) ==> turned == img),
            None => !pixels::turnable(img),
        },
{
    let (width, height) = dimensions(&img);
    if memory_fits(width, height, 4) {
        Some(apply_exif_orientation(img, orientation))
    } else {
        None
    }
}

/// The orientation that undoes another.
pub open spec fn inverse_orientation(orientation: u32) -> u32 {
    if orientation == 6 {
        8
    } else if orientation == 8 {
        6
    } else {
        orientation
    }
}

/// Every correction can be undone: correcting by an orientation and then by its
/// inverse shows each pixel where it stood.
pub proof fn law_orientations_can_be_undone(
    orientation: u32,
    first: image::DynamicImage,
    second: image::DynamicImage,
    third: image::DynamicImage,
)
    requires
        is_oriented(orientation, first, second),
        is_oriented(inverse_orientation(orientation), second, third),
    ensures
        pixels::image_extent(third) == pixels::image_extent(first),
        forall|x: int, y: int|
            pixels::inside(pixels::image_extent(first), x, y) ==> #[trigger] pixels::image_pixels(
                third,
            )[(x, y)] == pixels::image_pixels(first)[(x, y)],
{
    let extent = pixels::image_extent(first);
    let turned = pixels::image_extent(second);
    assert forall|x: int, y: int| pixels::inside(extent, x, y) implies #[trigger] pixels::image_pixels(
        third,
    )[(x, y)] == pixels::image_pixels(first)[(x, y)] by {
        let (u, v) = source_of(inverse_orientation(orientation), turned, x, y);
        assert(pixels::inside(turned, u, v));
        assert(pixels::image_pixels(second)[(u, v)] == pixels::image_pixels(first)[source_of(
            orientation,
            extent,
            u,
            v,
        )]);
    }
}

/// A correction loses no pixel: every place of the image is shown somewhere.
pub proof fn law_orientations_show_every_pixel(
    orientation: u32,
    before: image::DynamicImage,
    after: image::DynamicImage,
    x: int,
    y: int,
)
    requires
        is_oriented(orientation, before, after),
        pixels::inside(pixels::image_extent(before), x, y),
    ensures
        exists|u: int, v: int|
            pixels::inside(pixels::image_extent(after), u, v) && #[trigger] pixels::image_pixels(
                after,
            )[(u, v)] == pixels::image_pixels(before)[(x, y)] && source_of(
                orientation,
                pixels::image_extent(before),
                u,
                v,
            ) == (x, y),
{
    let turned = pixels::image_extent(after);
    let (u, v) = source_of(inverse_orientation(orientation), turned, x, y);
    assert(pixels::inside(turned, u, v));
    assert(pixels::image_pixels(after)[(u, v)] == pixels::image_pixels(before)[(x, y)]);
}

/// The stored row and column that come first are shown where the orientation says: the row
/// on top for the first two, at the bottom for the next two, at the left for the fifth and
/// the eighth, and at the right for the two between; the column at the left, right, right,
/// left, top, top, bottom and bottom.
pub proof fn law_orientations_place_the_first_row_and_column(
    orientation: u32,
    extent: (nat, nat),
    x: int,
    y: int,
)
    requires
        pixels::inside(oriented_extent(orientation, extent), x, y),
    ensures
        ({
            let shown = oriented_extent(orientation, extent);
            let (column, row) = source_of(orientation, extent, x, y);
            let left = x == 0;
            let right = x == shown.0 - 1;
            let top = y == 0;
            let bottom = y == shown.1 - 1;
            &&& pixels::inside(extent, column, row)
            &&& orientation == 1 || orientation == 2 ==> (row == 0 <==> top)
            &&& orientation == 3 || orientation == 4 ==> (row == 0 <==> bottom)
            &&& orientation == 5 || orientation == 8 ==> (row == 0 <==> left)
            &&& orientation == 6 || orientation == 7 ==> (row == 0 <==> right)
            &&& orientation == 1 || orientation == 4 ==> (column == 0 <==> left)
            &&& orientation == 2 || orientation == 3 ==> (column == 0 <==> right)
            &&& orientation == 5 || orientation == 6 ==> (column == 0 <==> top)
            &&& orientation == 7 || orientation == 8 ==> (column == 0 <==> bottom)
            &&& orientation == 0 || orientation > 8 ==> (column, row) == (x, y)
            &&& 5 <= orientation <= 8 ==> shown == (extent.1, extent.0)
            &&& orientation < 5 || orientation > 8 ==> shown == extent
        }),
{
}

/// The orientation of a file is the first that it gives, and upright where it gives none.
pub proof fn law_first_orientation_counts(values: Seq<u16>)
    ensures
        values.len() > 0 ==> orientation_of(Some(values)) == values[0],
        values.len() == 0 ==> orientation_of(Some(values)) == 1,
        orientation_of(None) == 1,
{
}

} // verus!

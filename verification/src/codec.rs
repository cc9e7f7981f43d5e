//! The `image` crate as this library sees it: the raster that a
//! `DynamicImage` holds, and the calls that read, build, decode and encode one.
//!
//! Nothing in this file is proved. Each item says what it takes on trust from
//! the `image` crate, and where it takes nothing.

use crate::img::Pixel;
use image::{
    ColorType, DynamicImage, EncodableLayout, GenericImageView, ImageBuffer, ImageError,
    ImageFormat, Rgba,
};
use vstd::prelude::*;

verus! {

/// `image::DynamicImage`, carried as an opaque value.
#[verifier::external_type_specification]
#[verifier::external_body]
pub struct ExDynamicImage(image::DynamicImage);

/// `image::ImageError`, carried as an opaque value.
#[verifier::external_type_specification]
#[verifier::external_body]
pub struct ExImageError(image::ImageError);

/// `image::ImageFormat`, carried as an opaque value.
#[verifier::external_type_specification]
#[verifier::external_body]
pub struct ExImageFormat(image::ImageFormat);

/// Width and height of an image, in pixels: what `dimensions` returns for it.
pub uninterp spec fn raster_dimensions(image: DynamicImage) -> (u32, u32);

/// The samples of an image read as 16-bit RGBA, row by row from the top left,
/// four samples (red, green, blue, alpha) for each pixel: the buffer that
/// `to_rgba16` builds for it.
pub uninterp spec fn raster_samples(image: DynamicImage) -> Seq<u16>;

/// Whether an image holds its samples as whole numbers: true of every variant
/// of `DynamicImage` but the two whose samples are 32-bit fractions,
/// `ImageRgb32F` and `ImageRgba32F`.
pub uninterp spec fn raster_is_integer(image: DynamicImage) -> bool;

/// Whether a 16-bit RGBA raster of this size can be held in memory: the
/// samples of one row can be counted in a `usize`, and the size of the whole in
/// bytes is at most `isize::MAX`, the most that one allocation can have.
pub open spec fn raster_fits(width: nat, height: nat) -> bool {
    &&& 4 * width <= usize::MAX
    &&& 8 * width * height <= isize::MAX
}

/// The samples of a raster in which every pixel is `colour`.
pub open spec fn uniform_samples(colour: Pixel, width: nat, height: nat) -> Seq<u16> {
    Seq::new(
        4 * width * height,
        |i: int|
            if i % 4 == 0 {
                colour.r
            } else if i % 4 == 1 {
                colour.g
            } else if i % 4 == 2 {
                colour.b
            } else {
                colour.a
            },
    )
}

/// `GenericImageView::dimensions` on a `DynamicImage`: the width and the
/// height of the buffer it holds.
#[verifier::external_body]
pub(crate) fn image_dimensions(image: &DynamicImage) -> (d: (u32, u32))
    ensures
        d == raster_dimensions(*image),
{
    image.dimensions()
}

/// `DynamicImage::to_rgba16`, and `ImageBuffer::into_raw` on what it returns,
/// for an image of whole-number samples; nothing for one of fractions, whose
/// conversion panics on a sample that is not a number. The conversion
/// allocates a fresh buffer of four samples for each pixel and panics where
/// that cannot be allocated, so the raster has to fit.
#[verifier::external_body]
pub(crate) fn rgba16_samples(image: &DynamicImage) -> (samples: Option<Vec<u16>>)
    requires
        raster_fits(raster_dimensions(*image).0 as nat, raster_dimensions(*image).1 as nat),
    ensures
        samples is Some <==> raster_is_integer(*image),
        samples matches Some(s) ==> s@ == raster_samples(*image),
        samples matches Some(s) ==> s@.len() == 4 * raster_dimensions(*image).0
            * raster_dimensions(*image).1,
{
    match image {
        DynamicImage::ImageRgb32F(_) => None,
        DynamicImage::ImageRgba32F(_) => None,
        _ => Some(image.to_rgba16().into_raw()),
    }
}

/// `ImageBuffer::from_raw` for 16-bit RGBA, wrapped in
/// `DynamicImage::ImageRgba16`. `from_raw` multiplies four by the width and
/// then by the height, and refuses the buffer where a product does not fit a
/// `usize` or the buffer is shorter than the last one; the image made from a
/// buffer of exactly that length holds these samples, which are whole numbers.
#[verifier::external_body]
pub(crate) fn image_from_samples(width: u32, height: u32, samples: Vec<u16>) -> (image: Option<
    DynamicImage,
>)
    ensures
        image is Some <==> (4 * width <= usize::MAX && 4 * width * height <= samples@.len()),
        image matches Some(i) ==> raster_dimensions(i) == (width, height),
        image matches Some(i) ==> raster_is_integer(i),
        image matches Some(i) ==> samples@.len() == 4 * width * height ==> raster_samples(i)
            == samples@,
{
    ImageBuffer::from_raw(width, height, samples).map(DynamicImage::ImageRgba16)
}

/// `ImageBuffer::from_fn` for 16-bit RGBA with a function that gives `colour`
/// for every coordinate, wrapped in `DynamicImage::ImageRgba16`. `from_fn`
/// panics where the buffer cannot be allocated, so the raster has to fit.
#[verifier::external_body]
pub(crate) fn filled_image(colour: Pixel, width: u32, height: u32) -> (image: DynamicImage)
    requires
        raster_fits(width as nat, height as nat),
    ensures
        raster_dimensions(image) == (width, height),
        raster_is_integer(image),
        raster_samples(image) == uniform_samples(colour, width as nat, height as nat),
{
    DynamicImage::ImageRgba16(
        ImageBuffer::from_fn(width, height, |_, _| Rgba([colour.r, colour.g, colour.b, colour.a])),
    )
}

/// The format that a file extension stands for, if it stands for one: what
/// `ImageFormat::from_extension` returns for it.
pub uninterp spec fn format_of_extension(extension: Seq<char>) -> Option<ImageFormat>;

/// The bytes that a 16-bit RGBA raster is encoded to in a given format, if
/// the format can hold it: what `write_buffer_with_format` writes for it.
pub uninterp spec fn encoded_raster(
    width: u32,
    height: u32,
    samples: Seq<u16>,
    format: ImageFormat,
) -> Option<Seq<u8>>;

/// `ImageFormat::from_extension`: the format is looked up by the extension
/// alone, whatever its case.
#[verifier::external_body]
pub(crate) fn format_for_extension(extension: &str) -> (format: Option<ImageFormat>)
    ensures
        format == format_of_extension(extension@),
{
    ImageFormat::from_extension(extension)
}

/// `image::load_from_memory_with_format`: decodes the bytes as an image of the
/// given format, and fails where they are not one. Nothing is stated of the
/// outcome: a decoder may choose its arithmetic by the processor it runs on
/// (the JPEG decoder does), so the same bytes need not give the same samples
/// on every machine.
#[verifier::external_body]
pub(crate) fn decode_with_format(bytes: &[u8], format: ImageFormat) -> Result<
    DynamicImage,
    ImageError,
> {
    image::load_from_memory_with_format(bytes, format)
}

/// `image::write_buffer_with_format` for 16-bit RGBA samples, into a buffer
/// in memory: encodes the raster in the given format, and fails where the
/// format cannot hold it. The outcome depends on the raster and the format
/// alone. The encoders insist on four samples for each pixel, and count the
/// bytes of a raster that fits without running over.
#[verifier::external_body]
pub(crate) fn encode_with_format(
    width: u32,
    height: u32,
    samples: &Vec<u16>,
    format: ImageFormat,
) -> (encoded: Result<Vec<u8>, ImageError>)
    requires
        samples@.len() == 4 * width * height,
        raster_fits(width as nat, height as nat),
    ensures
        match encoded {
            Ok(bytes) => encoded_raster(width, height, samples@, format) == Some(bytes@),
            Err(_) => encoded_raster(width, height, samples@, format) is None,
        },
{
    let mut out = std::io::Cursor::new(Vec::new());
    let bytes = samples.as_slice().as_bytes();
    image::write_buffer_with_format(&mut out, bytes, width, height, ColorType::Rgba16, format)?;
    Ok(out.into_inner())
}

} // verus!

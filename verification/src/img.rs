//! # img
//!
//! module for the creation and management of images.

use crate::codec::{
    decode_with_format, encode_with_format, encoded_raster, filled_image,
    format_for_extension, format_of_extension, image_dimensions, image_from_samples,
    raster_dimensions, raster_fits, raster_is_integer, raster_samples, rgba16_samples,
};
use crate::misc::{ImgConversionError, ImgError};
use image::DynamicImage;
use vstd::prelude::*;

verus! {

/// Pixel, the smallest part of an image: red, green, blue and alpha, 16 bits each.
#[derive(Clone, Copy, Debug, PartialEq, Eq, Structural)]
pub struct Pixel {
    pub r: u16,
    pub g: u16,
    pub b: u16,
    pub a: u16,
}

/// `v` held between `lo` and `hi`.
pub open spec fn clamped(v: int, lo: int, hi: int) -> int {
    if v < lo {
        lo
    } else if v > hi {
        hi
    } else {
        v
    }
}

/// A channel of the 0-255 colour range on the 16-bit scale: multiplied by
/// 65535/255 and held within the 16-bit range.
pub open spec fn channel_from_256(c: int) -> int {
    clamped(c * 65535 / 255, 0, 65535)
}

/// A 16-bit channel on the 0-255 scale: multiplied by 255/65535, the fraction
/// dropped, and held within the 16-bit range.
pub open spec fn channel_to_256(c: int) -> int {
    clamped(c * 255 / 65535, 0, 65535)
}

/// How far apart two channel values are.
pub open spec fn channel_distance(x: u16, y: u16) -> int {
    if x >= y {
        x - y
    } else {
        y - x
    }
}

/// The sum of `x` and `y`, capped at the largest 16-bit value.
pub open spec fn saturating_sum(x: int, y: int) -> int {
    if x + y > 65535 {
        65535
    } else {
        x + y
    }
}

/// The reason given when a channel lies outside the 0-255 colour range.
pub open spec fn out_of_range_message() -> Seq<char> {
    "Out of Range"@
}

/// `num::clamp`: `min` where `input` is below it, `max` where `input` is above
/// it, and `input` itself otherwise. The bounds must be in order, since
/// `num::clamp` checks that in debug builds.
#[verifier::external_body]
fn clamp(input: u32, min: u32, max: u32) -> (out: u32)
    requires
        min <= max,
    ensures
        out == clamped(input as int, min as int, max as int),
{
    num::clamp(input, min, max)
}

fn scale_from_256(c: u16) -> (out: u16)
    requires
        c <= 255,
    ensures
        out == channel_from_256(c as int),
        out == 257 * c,
{
    let scaled: u32 = c as u32 * 65535 / 255;
    clamp(scaled, 0, 65535) as u16
}

fn scale_to_256(c: u16) -> (out: u16)
    ensures
        out == channel_to_256(c as int),
        out == c / 257,
        out <= 255,
{
    let scaled: u32 = c as u32 * 255 / 65535;
    clamp(scaled, 0, 65535) as u16
}

fn abs_diff(x: u16, y: u16) -> (d: u16)
    ensures
        d == channel_distance(x, y),
{
    if x >= y {
        x - y
    } else {
        y - x
    }
}

impl Pixel {
    /// The channel-wise sum of two pixels, each channel capped at 65535.
    pub open spec fn spec_add(self, rhs: Pixel) -> Pixel {
        Pixel {
            r: saturating_sum(self.r as int, rhs.r as int) as u16,
            g: saturating_sum(self.g as int, rhs.g as int) as u16,
            b: saturating_sum(self.b as int, rhs.b as int) as u16,
            a: saturating_sum(self.a as int, rhs.a as int) as u16,
        }
    }

    /// The channel-wise distance between two pixels.
    pub open spec fn spec_sub(self, rhs: Pixel) -> Pixel {
        Pixel {
            r: channel_distance(self.r, rhs.r) as u16,
            g: channel_distance(self.g, rhs.g) as u16,
            b: channel_distance(self.b, rhs.b) as u16,
            a: channel_distance(self.a, rhs.a) as u16,
        }
    }

    /// The Manhattan distance between two pixels: the four channel distances
    /// added up, capped at 65535.
    pub open spec fn spec_distance_manhattan(self, other: Pixel) -> int {
        let total = channel_distance(self.r, other.r) + channel_distance(self.g, other.g)
            + channel_distance(self.b, other.b) + channel_distance(self.a, other.a);
        if total > 65535 {
            65535
        } else {
            total
        }
    }

    /// The pixel that four channels of the 0-255 colour range stand for.
    pub open spec fn spec_from_256(r: u16, g: u16, b: u16, a: u16) -> Pixel {
        Pixel {
            r: channel_from_256(r as int) as u16,
            g: channel_from_256(g as int) as u16,
            b: channel_from_256(b as int) as u16,
            a: channel_from_256(a as int) as u16,
        }
    }

    /// The pixel on the 0-255 colour range.
    pub open spec fn spec_to_256(self) -> (u16, u16, u16, u16) {
        (
            channel_to_256(self.r as int) as u16,
            channel_to_256(self.g as int) as u16,
            channel_to_256(self.b as int) as u16,
            channel_to_256(self.a as int) as u16,
        )
    }

    /// creates pixels from 0-256 colour ranges
    ///
    /// ## errors
    /// `Out of Range`: one of the inputs is greater than 255
    pub fn new_from_256(r: u16, g: u16, b: u16, a: u16) -> (res: Result<Pixel, ImgConversionError>)
        ensures
            r <= 255 && g <= 255 && b <= 255 && a <= 255 ==> res == Ok::<
                Pixel,
                ImgConversionError,
            >(Pixel::spec_from_256(r, g, b, a)),
            r > 255 || g > 255 || b > 255 || a > 255 ==> res is Err && res->Err_0@
                == out_of_range_message(),
    {
        if r > 255 || g > 255 || b > 255 || a > 255 {
            return Err(ImgConversionError::new("Out of Range"));
        }
        let r = scale_from_256(r);
        let g = scale_from_256(g);
        let b = scale_from_256(b);
        let a = scale_from_256(a);

        let pix_out = Pixel { r, g, b, a };
        Ok(pix_out)
    }

    /// The four channels on the 0-255 colour range; what does not fit the
    /// coarser scale is dropped.
    pub fn pixel_to_256(&self) -> (out: (u16, u16, u16, u16))
        ensures
            out == self.spec_to_256(),
            out.0 <= 255 && out.1 <= 255 && out.2 <= 255 && out.3 <= 255,
    {
        let r = scale_to_256(self.r);
        let g = scale_to_256(self.g);
        let b = scale_to_256(self.b);
        let a = scale_to_256(self.a);

        (r, g, b, a)
    }

    /// The Manhattan distance from this pixel to `distance_from`.
    pub fn pixel_distance_manhattan(&self, distance_from: &Pixel) -> (d: u16)
        ensures
            d == self.spec_distance_manhattan(*distance_from),
    {
        let res = core::ops::Sub::sub(self, distance_from);
        res.r.saturating_add(res.g).saturating_add(res.b).saturating_add(res.a)
    }
}

/// The Manhattan distance between two pixels is the same in both directions.
pub proof fn lemma_distance_symmetric(p: Pixel, q: Pixel)
    ensures
        p.spec_distance_manhattan(q) == q.spec_distance_manhattan(p),
{
}

/// The Manhattan distance from a pixel to itself is zero.
pub proof fn lemma_distance_to_self(p: Pixel)
    ensures
        p.spec_distance_manhattan(p) == 0,
{
}

/// Channels of the 0-255 colour range come back unchanged from the 16-bit
/// scale: each is multiplied by 257 on the way up and divided by it on the way
/// down.
pub proof fn lemma_256_round_trip(r: u16, g: u16, b: u16, a: u16)
    requires
        r <= 255,
        g <= 255,
        b <= 255,
        a <= 255,
    ensures
        Pixel::spec_from_256(r, g, b, a).r == 257 * r,
        Pixel::spec_from_256(r, g, b, a).g == 257 * g,
        Pixel::spec_from_256(r, g, b, a).b == 257 * b,
        Pixel::spec_from_256(r, g, b, a).a == 257 * a,
        Pixel::spec_from_256(r, g, b, a).spec_to_256() == (r, g, b, a),
{
}

/// `+` on pixels adds channel by channel, each sum capped at 65535.
impl core::ops::Add for Pixel {
    type Output = Pixel;

    fn add(self, rhs: Pixel) -> (sum: Pixel) {
        Pixel {
            r: self.r.saturating_add(rhs.r),
            g: self.g.saturating_add(rhs.g),
            b: self.b.saturating_add(rhs.b),
            a: self.a.saturating_add(rhs.a),
        }
    }
}

impl vstd::std_specs::ops::AddSpecImpl for Pixel {
    open spec fn obeys_add_spec() -> bool {
        true
    }

    open spec fn add_req(self, rhs: Pixel) -> bool {
        true
    }

    open spec fn add_spec(self, rhs: Pixel) -> Pixel {
        self.spec_add(rhs)
    }
}

/// `-` on pixels gives, channel by channel, how far apart the two are.
impl core::ops::Sub for &Pixel {
    type Output = Pixel;

    fn sub(self, rhs: &Pixel) -> (diff: Pixel) {
        Pixel {
            r: abs_diff(self.r, rhs.r),
            g: abs_diff(self.g, rhs.g),
            b: abs_diff(self.b, rhs.b),
            a: abs_diff(self.a, rhs.a),
        }
    }
}

impl vstd::std_specs::ops::SubSpecImpl for &Pixel {
    open spec fn obeys_sub_spec() -> bool {
        true
    }

    open spec fn sub_req(self, rhs: &Pixel) -> bool {
        true
    }

    open spec fn sub_spec(self, rhs: &Pixel) -> Pixel {
        (*self).spec_sub(*rhs)
    }
}

/// What an image is: a grid of pixels, stored row by row from the top left.
pub struct Raster {
    pub width: nat,
    pub height: nat,
    pub pixels: Seq<Pixel>,
}

impl Raster {
    /// The sides fit a 32-bit coordinate, and there is one pixel for each
    /// coordinate.
    pub open spec fn wf(self) -> bool {
        &&& self.width <= u32::MAX
        &&& self.height <= u32::MAX
        &&& self.pixels.len() == self.width * self.height
    }

    /// The pixel in column `x` of row `y`.
    pub open spec fn pixel(self, x: int, y: int) -> Pixel {
        self.pixels[y * self.width + x]
    }

    /// The raster of the given size in which every pixel is `colour`.
    pub open spec fn uniform(colour: Pixel, width: nat, height: nat) -> Raster {
        Raster { width, height, pixels: Seq::new(width * height, |i: int| colour) }
    }
}

/// A coordinate inside a raster has its place inside the raster's pixels.
pub proof fn lemma_index_in_range(width: int, height: int, x: int, y: int)
    requires
        0 <= x < width,
        0 <= y < height,
    ensures
        0 <= y * width + x < width * height,
{
    assert(y * width + width <= height * width) by (nonlinear_arith)
        requires
            0 <= y < height,
            0 <= width,
    ;
    assert(0 <= y * width) by (nonlinear_arith)
        requires
            0 <= y,
            0 <= width,
    ;
    assert(height * width == width * height) by (nonlinear_arith);
}

/// Two coordinates with the same place in a raster's pixels are the same.
pub proof fn lemma_index_unique(width: int, x1: int, y1: int, x2: int, y2: int)
    requires
        0 <= x1 < width,
        0 <= x2 < width,
        0 <= y1,
        0 <= y2,
        y1 * width + x1 == y2 * width + x2,
    ensures
        x1 == x2,
        y1 == y2,
{
    if y1 < y2 {
        assert(y1 * width + width <= y2 * width) by (nonlinear_arith)
            requires
                y1 < y2,
                0 <= width,
        ;
    } else if y2 < y1 {
        assert(y2 * width + width <= y1 * width) by (nonlinear_arith)
            requires
                y2 < y1,
                0 <= width,
        ;
    }
}

/// A place among the pixels of a raster is the place of one coordinate.
pub proof fn lemma_coordinate_of_index(width: int, height: int, i: int)
    requires
        0 <= width,
        0 <= height,
        0 <= i < width * height,
    ensures
        0 <= i % width < width,
        0 <= i / width < height,
        (i / width) * width + i % width == i,
{
    assert(width > 0) by (nonlinear_arith)
        requires
            0 <= width,
            0 <= i < width * height,
    ;
    vstd::arithmetic::div_mod::lemma_fundamental_div_mod(i, width);
    vstd::arithmetic::div_mod::lemma_mod_pos_bound(i, width);
    let y = i / width;
    assert(width * y == y * width) by (nonlinear_arith);
    assert(y >= 0) by (nonlinear_arith)
        requires
            width * y + i % width == i,
            0 <= i % width < width,
            0 <= i,
            0 < width,
    ;
    if y >= height {
        assert(width * y >= width * height) by (nonlinear_arith)
            requires
                y >= height,
                0 < width,
        ;
    }
}

/// The pixel that the four samples from index `4 * i` on make up.
pub open spec fn pixel_of_samples(samples: Seq<u16>, i: int) -> Pixel {
    Pixel { r: samples[4 * i], g: samples[4 * i + 1], b: samples[4 * i + 2], a: samples[4 * i + 3] }
}

/// The pixels that a sequence of samples makes up, four samples to a pixel.
pub open spec fn pixels_of_samples(samples: Seq<u16>) -> Seq<Pixel> {
    Seq::new((samples.len() / 4) as nat, |i: int| pixel_of_samples(samples, i))
}

/// The samples that a sequence of pixels is stored as: red, green, blue and
/// alpha of each pixel in turn.
pub open spec fn samples_of_pixels(pixels: Seq<Pixel>) -> Seq<u16> {
    Seq::new(
        4 * pixels.len(),
        |i: int|
            if i % 4 == 0 {
                pixels[i / 4].r
            } else if i % 4 == 1 {
                pixels[i / 4].g
            } else if i % 4 == 2 {
                pixels[i / 4].b
            } else {
                pixels[i / 4].a
            },
    )
}

/// Samples that come four to a pixel are the samples of the pixels they make
/// up.
pub proof fn lemma_samples_of_pixels(samples: Seq<u16>)
    requires
        samples.len() % 4 == 0,
    ensures
        samples_of_pixels(pixels_of_samples(samples)) == samples,
{
    assert(samples_of_pixels(pixels_of_samples(samples)) =~= samples);
}

/// What a raster is saved as in a file with the given extension: the bytes of
/// the file, or the reason there are none.
pub open spec fn saved(raster: Raster, extension: Seq<char>) -> Result<Seq<u8>, ImgError>
    recommends
        raster.wf(),
{
    match format_of_extension(extension) {
        None => Err(ImgError::Encode),
        Some(format) => match encoded_raster(
            raster.width as u32,
            raster.height as u32,
            samples_of_pixels(raster.pixels),
            format,
        ) {
            None => Err(ImgError::Encode),
            Some(bytes) => Ok(bytes),
        },
    }
}

/// Whether `width` by `height` pixels of 16-bit RGBA can be held in memory.
pub(crate) fn fits_in_memory(width: u32, height: u32) -> (ok: bool)
    ensures
        ok == raster_fits(width as nat, height as nat),
{
    assert(width * height <= 0xffff_ffff * 0xffff_ffff) by (nonlinear_arith)
        requires
            width <= 0xffff_ffff,
            height <= 0xffff_ffff,
    ;
    let pixels: u128 = (width as u128) * (height as u128);
    assert(8 * width * height == 8 * (width * height)) by (nonlinear_arith);
    4 * (width as u128) <= usize::MAX as u128 && 8 * pixels <= isize::MAX as u128
}

/// The image struct, it stores the image being processed
pub struct Img {
    pub(crate) image: DynamicImage,
}

impl View for Img {
    type V = Raster;

    /// The image as a grid of pixels.
    closed spec fn view(&self) -> Raster {
        let (width, height) = raster_dimensions(self.image);
        Raster {
            width: width as nat,
            height: height as nat,
            pixels: Seq::new(
                (width * height) as nat,
                |i: int| pixel_of_samples(raster_samples(self.image), i),
            ),
        }
    }
}

impl Img {
    /// The buffer holds whole numbers and is of a size that memory can hold.
    #[verifier::type_invariant]
    closed spec fn well_formed(self) -> bool {
        let (width, height) = raster_dimensions(self.image);
        &&& raster_is_integer(self.image)
        &&& raster_fits(width as nat, height as nat)
        &&& raster_samples(self.image).len() == 4 * width * height
    }

    /// The samples of the image: four for each pixel, row by row.
    pub(crate) fn samples(&self) -> (samples: Vec<u16>)
        ensures
            samples@.len() == 4 * self@.width * self@.height,
            pixels_of_samples(samples@) == self@.pixels,
            raster_fits(self@.width, self@.height),
            self@.wf(),
    {
        proof {
            use_type_invariant(self);
        }
        let samples = rgba16_samples(&self.image).unwrap();
        proof {
            let (w, h) = raster_dimensions(self.image);
            assert(4 * w * h == 4 * (w * h)) by (nonlinear_arith);
            assert(pixels_of_samples(samples@) =~= self@.pixels);
            assert(w * h <= 0xffff_ffff * 0xffff_ffff) by (nonlinear_arith)
                requires
                    w <= 0xffff_ffff,
                    h <= 0xffff_ffff,
            ;
        }
        samples
    }

    /// The image of the given size that holds `samples`.
    pub(crate) fn from_samples(width: u32, height: u32, samples: Vec<u16>) -> (img: Img)
        requires
            samples@.len() == 4 * width * height,
            raster_fits(width as nat, height as nat),
        ensures
            img@ == (Raster {
                width: width as nat,
                height: height as nat,
                pixels: pixels_of_samples(samples@),
            }),
    {
        let ghost given = samples@;
        let image = image_from_samples(width, height, samples);
        let img = Img { image: image.unwrap() };
        proof {
            assert(4 * width * height == 4 * (width * height)) by (nonlinear_arith);
            assert(img@.pixels =~= pixels_of_samples(given));
        }
        img
    }

    /// The pixels of the image, row by row from the top left.
    pub fn pixels(&self) -> (out: Vec<Pixel>)
        ensures
            out@ == self@.pixels,
            self@.wf(),
    {
        let samples = self.samples();
        let count = samples.len() / 4;
        let mut out: Vec<Pixel> = Vec::new();
        let mut i: usize = 0;
        while i < count
            invariant
                count == samples@.len() / 4,
                samples@.len() <= usize::MAX,
                i <= count,
                out@.len() == i,
                forall|k: int| 0 <= k < i ==> out@[k] == pixel_of_samples(samples@, k),
            decreases count - i,
        {
            let pixel = Pixel {
                r: samples[4 * i],
                g: samples[4 * i + 1],
                b: samples[4 * i + 2],
                a: samples[4 * i + 3],
            };
            out.push(pixel);
            i = i + 1;
        }
        proof {
            assert(out@ =~= pixels_of_samples(samples@));
        }
        out
    }
}

/// Creates an Img from 16-bit RGBA samples, four for each pixel, row by row
/// from the top left.
pub fn new_from_samples(width: u32, height: u32, samples: Vec<u16>) -> (res: Result<Img, ImgError>)
    ensures
        samples@.len() != 4 * width * height ==> res is Err && res->Err_0 == ImgError::SampleCount,
        samples@.len() == 4 * width * height && !raster_fits(width as nat, height as nat)
            ==> res is Err && res->Err_0 == ImgError::TooLarge,
        samples@.len() == 4 * width * height && raster_fits(width as nat, height as nat)
            ==> res is Ok && res->Ok_0@ == (Raster {
            width: width as nat,
            height: height as nat,
            pixels: pixels_of_samples(samples@),
        }),
{
    assert(width * height <= 0xffff_ffff * 0xffff_ffff) by (nonlinear_arith)
        requires
            width <= 0xffff_ffff,
            height <= 0xffff_ffff,
    ;
    assert(4 * width * height == 4 * (width * height)) by (nonlinear_arith);
    let needed: u128 = 4 * ((width as u128) * (height as u128));
    if samples.len() as u128 != needed {
        return Err(ImgError::SampleCount);
    }
    if !fits_in_memory(width, height) {
        return Err(ImgError::TooLarge);
    }
    Ok(Img::from_samples(width, height, samples))
}

/// Creates an Img from a decoded image: an image of whole-number samples, of
/// any layout, is brought to 16 bits for each of red, green, blue and alpha;
/// an image of fractions is not taken.
pub fn new_from_decoded(decoded: DynamicImage) -> (res: Result<Img, ImgError>)
    ensures
        !raster_fits(raster_dimensions(decoded).0 as nat, raster_dimensions(decoded).1 as nat)
            ==> res is Err && res->Err_0 == ImgError::TooLarge,
        raster_fits(raster_dimensions(decoded).0 as nat, raster_dimensions(decoded).1 as nat)
            && !raster_is_integer(decoded) ==> res is Err && res->Err_0 == ImgError::NotInteger,
        raster_fits(raster_dimensions(decoded).0 as nat, raster_dimensions(decoded).1 as nat)
            && raster_is_integer(decoded) ==> res is Ok && res->Ok_0@ == (Raster {
            width: raster_dimensions(decoded).0 as nat,
            height: raster_dimensions(decoded).1 as nat,
            pixels: pixels_of_samples(raster_samples(decoded)),
        }),
        res is Ok ==> res->Ok_0@.wf(),
{
    let (width, height) = image_dimensions(&decoded);
    if !fits_in_memory(width, height) {
        return Err(ImgError::TooLarge);
    }
    match rgba16_samples(&decoded) {
        Some(raw) => Ok(Img::from_samples(width, height, raw)),
        None => Err(ImgError::NotInteger),
    }
}

/// Opens the contents of a file as an Img; the extension of the file's name
/// says which format the contents are in. Whether the contents decode, and to
/// which pixels, is for the decoder of that format to say; what is decoded is
/// made an Img as `new_from_decoded` makes it.
pub fn new_from_file(contents: &[u8], extension: &str) -> (res: Result<Img, ImgError>)
    ensures
        format_of_extension(extension@) is None ==> res is Err && res->Err_0 == ImgError::Decode,
        res is Err ==> res->Err_0 == ImgError::Decode || res->Err_0 == ImgError::TooLarge
            || res->Err_0 == ImgError::NotInteger,
        res is Ok ==> res->Ok_0@.wf(),
{
    let format = match format_for_extension(extension) {
        Some(format) => format,
        None => {
            return Err(ImgError::Decode);
        },
    };
    let decoded = match decode_with_format(contents, format) {
        Ok(decoded) => decoded,
        Err(_) => {
            return Err(ImgError::Decode);
        },
    };
    new_from_decoded(decoded)
}

/// The contents of the file that the given Img is saved to; the extension of
/// the file's name says which format to write.
pub fn save(image: Img, extension: &str) -> (res: Result<Vec<u8>, ImgError>)
    ensures
        match saved(image@, extension@) {
            Ok(bytes) => res is Ok && res->Ok_0@ == bytes,
            Err(reason) => res is Err && res->Err_0 == reason,
        },
{
    let format = match format_for_extension(extension) {
        Some(format) => format,
        None => {
            return Err(ImgError::Encode);
        },
    };
    let (width, height) = dimensions(&image);
    let samples = image.samples();
    proof {
        assert(4 * width * height == 4 * (width * height)) by (nonlinear_arith);
        lemma_samples_of_pixels(samples@);
    }
    match encode_with_format(width, height, &samples, format) {
        Ok(bytes) => Ok(bytes),
        Err(_) => Err(ImgError::Encode),
    }
}

/// Creates a new Img with a single set colour
pub fn new_blank(colour: Pixel, width: u32, height: u32) -> (res: Result<Img, ImgError>)
    ensures
        width == 0 || height == 0 ==> res is Err && res->Err_0 == ImgError::EmptyImage,
        width > 0 && height > 0 && !raster_fits(width as nat, height as nat) ==> res is Err
            && res->Err_0 == ImgError::TooLarge,
        width > 0 && height > 0 && raster_fits(width as nat, height as nat) ==> res is Ok
            && res->Ok_0@ == Raster::uniform(colour, width as nat, height as nat),
{
    if width == 0 || height == 0 {
        return Err(ImgError::EmptyImage);
    }
    if !fits_in_memory(width, height) {
        return Err(ImgError::TooLarge);
    }
    let image = filled_image(colour, width, height);
    let img = Img { image };
    proof {
        assert(4 * (width as nat) * (height as nat) == 4 * ((width as nat) * (height as nat)))
            by (nonlinear_arith);
        assert(img@.pixels =~= Raster::uniform(colour, width as nat, height as nat).pixels);
    }
    Ok(img)
}

/// gives the dimensions of the inputted image
pub fn dimensions(image: &Img) -> (d: (u32, u32))
    ensures
        d.0 == image@.width,
        d.1 == image@.height,
        image@.wf(),
{
    proof {
        use_type_invariant(image);
    }
    image_dimensions(&image.image)
}

} // verus!

//! The per-pixel engine and the filters built on it.

use crate::img::{
    dimensions, lemma_coordinate_of_index, lemma_index_in_range, lemma_index_unique,
    pixel_of_samples, pixels_of_samples, Img, Pixel, Raster,
};
use crate::misc::ImgError;
use vstd::prelude::*;

verus! {

/// Whether `after` is what `func`, called once for every coordinate with the
/// pixel that `before` has there, can have made of `before`.
pub open spec fn applied<F: Fn((u32, u32), Pixel) -> Pixel>(
    func: F,
    before: Raster,
    after: Raster,
) -> bool {
    &&& before.wf()
    &&& after.wf()
    &&& after.width == before.width
    &&& after.height == before.height
    &&& forall|x: u32, y: u32|
        x < before.width && y < before.height ==> call_ensures(
            func,
            ((x, y), before.pixel(x as int, y as int)),
            #[trigger] after.pixel(x as int, y as int),
        )
}

/// Allows you to write a custom filter for an image: `func` is called once for
/// every coordinate, with the pixel the image has there, and what it returns is
/// the pixel of the new image at that coordinate.
pub fn per_pixel(img: &mut Img, func: impl Fn((u32, u32), Pixel) -> Pixel) -> (res: Result<
    (),
    ImgError,
>)
    requires
        forall|x: u32, y: u32|
            x < old(img)@.width && y < old(img)@.height ==> call_requires(
                func,
                ((x, y), #[trigger] old(img)@.pixel(x as int, y as int)),
            ),
    ensures
        res is Ok,
        applied(func, old(img)@, final(img)@),
{
    let ghost before = img@;
    let samples = img.samples();
    let (width, height) = dimensions(img);
    let count = samples.len() / 4;
    proof {
        assert(4 * before.width * before.height == 4 * (before.width * before.height))
            by (nonlinear_arith);
    }

    let mut out: Vec<u16> = Vec::with_capacity(samples.len());
    let mut x: u32 = 0;
    let mut y: u32 = 0;
    let mut i: usize = 0;
    while i < count
        invariant
            before.width == width,
            before.height == height,
            samples@.len() == 4 * count,
            samples@.len() <= usize::MAX,
            count == width * height,
            pixels_of_samples(samples@) == before.pixels,
            forall|xx: u32, yy: u32|
                xx < width && yy < height ==> call_requires(
                    func,
                    ((xx, yy), #[trigger] before.pixel(xx as int, yy as int)),
                ),
            i <= count,
            i == y * width + x,
            i < count ==> x < width,
            out@.len() == 4 * i,
            forall|xx: u32, yy: u32|
                xx < width && yy * width + xx < i ==> call_ensures(
                    func,
                    ((xx, yy), before.pixel(xx as int, yy as int)),
                    #[trigger] pixel_of_samples(out@, yy * width + xx),
                ),
        decreases count - i,
    {
        proof {
            if y >= height {
                assert(height * width <= y * width) by (nonlinear_arith)
                    requires
                        height <= y,
                        0 <= width,
                ;
                assert(height * width == width * height) by (nonlinear_arith);
            }
            assert(before.pixel(x as int, y as int) == pixel_of_samples(samples@, i as int));
        }
        let inputs = Pixel {
            r: samples[4 * i],
            g: samples[4 * i + 1],
            b: samples[4 * i + 2],
            a: samples[4 * i + 3],
        };

        let output = func((x, y), inputs);

        let ghost earlier = out@;
        out.push(output.r);
        out.push(output.g);
        out.push(output.b);
        out.push(output.a);
        proof {
            assert(pixel_of_samples(out@, i as int) == output);
            assert forall|xx: u32, yy: u32| xx < width && yy * width + xx < i + 1 implies call_ensures(
                func,
                ((xx, yy), before.pixel(xx as int, yy as int)),
                #[trigger] pixel_of_samples(out@, yy * width + xx),
            ) by {
                if yy * width + xx < i {
                    assert(pixel_of_samples(out@, yy * width + xx) == pixel_of_samples(
                        earlier,
                        yy * width + xx,
                    ));
                } else {
                    lemma_index_unique(width as int, xx as int, yy as int, x as int, y as int);
                }
            }
        }
        i = i + 1;
        x = x + 1;
        if x >= width {
            x = 0;
            y = y + 1;
            assert((y - 1) * width + width == y * width) by (nonlinear_arith);
        }
    }

    *img = Img::from_samples(width, height, out);
    proof {
        let after = img@;
        assert forall|xx: u32, yy: u32| xx < before.width && yy < before.height implies call_ensures(
            func,
            ((xx, yy), before.pixel(xx as int, yy as int)),
            #[trigger] after.pixel(xx as int, yy as int),
        ) by {
            lemma_index_in_range(width as int, height as int, xx as int, yy as int);
            assert(after.pixel(xx as int, yy as int) == pixel_of_samples(out@, yy * width + xx));
        }
    }
    Ok(())
}

/// Where a transform returns one pixel for each pixel it is given, whatever
/// the coordinate, the engine leaves no choice: every pixel of the new image is
/// what the transform makes of the pixel that was in its place.
pub proof fn lemma_applied_pointwise<F: Fn((u32, u32), Pixel) -> Pixel>(
    func: F,
    change: spec_fn(Pixel) -> Pixel,
    before: Raster,
    after: Raster,
)
    requires
        applied(func, before, after),
        forall|at: (u32, u32), pixel: Pixel, out: Pixel| #[trigger]
            call_ensures(func, (at, pixel), out) ==> out == change(pixel),
    ensures
        after.pixels.len() == before.pixels.len(),
        forall|i: int|
            0 <= i < before.pixels.len() ==> #[trigger] after.pixels[i] == change(before.pixels[i]),
{
    assert forall|i: int| 0 <= i < before.pixels.len() implies #[trigger] after.pixels[i]
        == change(before.pixels[i]) by {
        let width = before.width as int;
        lemma_coordinate_of_index(width, before.height as int, i);
        let x = (i % width) as u32;
        let y = (i / width) as u32;
        assert(after.pixel(x as int, y as int) == after.pixels[i]);
        assert(before.pixel(x as int, y as int) == before.pixels[i]);
    }
}

/// The engine is deterministic: where the transform can return only one pixel
/// for a coordinate and a pixel, two runs on the same image give the same image.
pub proof fn lemma_per_pixel_deterministic<F: Fn((u32, u32), Pixel) -> Pixel>(
    func: F,
    before: Raster,
    first: Raster,
    second: Raster,
)
    requires
        applied(func, before, first),
        applied(func, before, second),
        forall|at: (u32, u32), pixel: Pixel, out1: Pixel, out2: Pixel|
            #![trigger call_ensures(func, (at, pixel), out1), call_ensures(func, (at, pixel), out2)]
            call_ensures(func, (at, pixel), out1) && call_ensures(func, (at, pixel), out2) ==> out1
                == out2,
    ensures
        first == second,
{
    assert forall|i: int| 0 <= i < first.pixels.len() implies first.pixels[i] == second.pixels[i] by {
        let width = before.width as int;
        lemma_coordinate_of_index(width, before.height as int, i);
        let x = (i % width) as u32;
        let y = (i / width) as u32;
        assert(first.pixel(x as int, y as int) == first.pixels[i]);
        assert(second.pixel(x as int, y as int) == second.pixels[i]);
    }
    assert(first.pixels =~= second.pixels);
}

/// The luminance of a pixel: 0.299 of its red, 0.587 of its green and 0.114 of
/// its blue, the fraction dropped. It is worked out in whole numbers, so that
/// nothing is lost before the fraction is dropped.
pub open spec fn luminance(pixel: Pixel) -> int {
    (299 * pixel.r + 587 * pixel.g + 114 * pixel.b) / 1000
}

/// The grey pixel of the same luminance and the same alpha.
pub open spec fn grey(pixel: Pixel) -> Pixel {
    Pixel {
        r: luminance(pixel) as u16,
        g: luminance(pixel) as u16,
        b: luminance(pixel) as u16,
        a: pixel.a,
    }
}

/// `to` where `pixel` is within `limit` of `from` by Manhattan distance, and
/// `pixel` itself where it is not.
pub open spec fn replaced(pixel: Pixel, from: Pixel, to: Pixel, limit: int) -> Pixel {
    if pixel.spec_distance_manhattan(from) <= limit {
        to
    } else {
        pixel
    }
}

/// The raster with every pixel turned grey.
pub open spec fn black_white(raster: Raster) -> Raster {
    Raster {
        width: raster.width,
        height: raster.height,
        pixels: Seq::new(raster.pixels.len(), |i: int| grey(raster.pixels[i])),
    }
}

/// The raster with every pixel within `limit` of `from` replaced by `to`.
pub open spec fn colour_replaced(raster: Raster, from: Pixel, to: Pixel, limit: int) -> Raster {
    Raster {
        width: raster.width,
        height: raster.height,
        pixels: Seq::new(
            raster.pixels.len(),
            |i: int| replaced(raster.pixels[i], from, to, limit),
        ),
    }
}

/// What the engine makes of an image with a transform that turns every pixel
/// grey is the black and white image, whatever the order of its calls.
pub proof fn lemma_black_white_determined<F: Fn((u32, u32), Pixel) -> Pixel>(
    func: F,
    before: Raster,
    after: Raster,
)
    requires
        applied(func, before, after),
        forall|at: (u32, u32), pixel: Pixel, out: Pixel| #[trigger]
            call_ensures(func, (at, pixel), out) ==> out == grey(pixel),
    ensures
        after == black_white(before),
{
    lemma_applied_pointwise(func, |pixel: Pixel| grey(pixel), before, after);
    assert(after.pixels =~= black_white(before).pixels);
}

/// What the engine makes of an image with a transform that replaces every
/// pixel within `limit` of `from` by `to` is the image with that colour
/// replaced, whatever the order of its calls.
pub proof fn lemma_colour_replaced_determined<F: Fn((u32, u32), Pixel) -> Pixel>(
    func: F,
    before: Raster,
    after: Raster,
    from: Pixel,
    to: Pixel,
    limit: int,
)
    requires
        applied(func, before, after),
        forall|at: (u32, u32), pixel: Pixel, out: Pixel| #[trigger]
            call_ensures(func, (at, pixel), out) ==> out == replaced(pixel, from, to, limit),
    ensures
        after == colour_replaced(before, from, to, limit),
{
    lemma_applied_pointwise(func, |pixel: Pixel| replaced(pixel, from, to, limit), before, after);
    assert(after.pixels =~= colour_replaced(before, from, to, limit).pixels);
}

fn luminance_of(pixel: Pixel) -> (y: u16)
    ensures
        y == luminance(pixel),
{
    let weighted: u32 = 299 * (pixel.r as u32) + 587 * (pixel.g as u32) + 114 * (pixel.b as u32);
    (weighted / 1000) as u16
}

/// Basic black and white filter that uses an estimated luminance colour
pub fn to_black_white(image: &mut Img) -> (res: Result<(), ImgError>)
    ensures
        res is Ok,
        final(image)@ == black_white(old(image)@),
        forall|i: int|
            0 <= i < final(image)@.pixels.len() ==> {
                let pixel = #[trigger] final(image)@.pixels[i];
                &&& pixel.r == pixel.g
                &&& pixel.g == pixel.b
                &&& pixel.a == old(image)@.pixels[i].a
            },
{
    let ghost before = image@;
    let turn_grey = |_at: (u32, u32), pixel: Pixel| -> (out: Pixel)
        ensures
            out == grey(pixel),
        {
            let end_value = luminance_of(pixel);
            Pixel { r: end_value, g: end_value, b: end_value, a: pixel.a }
        };
    let result = per_pixel(image, turn_grey);
    proof {
        lemma_black_white_determined(turn_grey, before, image@);
    }

    match result {
        Ok(()) => Ok(()),
        Err(e) => Err(e),
    }
}

/// Basic colour replacement filter that uses an estimated distance: every
/// pixel whose Manhattan distance to `colour_from` is at most the square of
/// `uncertainty` becomes `colour_too`.
pub fn colour_replacement(
    image: &mut Img,
    colour_from: Pixel,
    colour_too: Pixel,
    uncertainty: u16,
) -> (res: Result<(), ImgError>)
    ensures
        uncertainty * uncertainty > u16::MAX ==> res == Err::<(), ImgError>(
            ImgError::ArithmeticOverflow,
        ) && final(image)@ == old(image)@,
        uncertainty * uncertainty <= u16::MAX ==> res is Ok && final(image)@ == colour_replaced(
            old(image)@,
            colour_from,
            colour_too,
            uncertainty * uncertainty,
        ),
{
    let distance = match uncertainty.checked_mul(uncertainty) {
        Some(distance) => distance,
        None => {
            return Err(ImgError::ArithmeticOverflow);
        },
    };
    let ghost before = image@;
    let replace = |_at: (u32, u32), pixel: Pixel| -> (out: Pixel)
        ensures
            out == replaced(pixel, colour_from, colour_too, distance as int),
        {
            if pixel.pixel_distance_manhattan(&colour_from) <= distance {
                colour_too
            } else {
                pixel
            }
        };
    let result = per_pixel(image, replace);
    proof {
        lemma_colour_replaced_determined(
            replace,
            before,
            image@,
            colour_from,
            colour_too,
            distance as int,
        );
    }

    match result {
        Ok(()) => Ok(()),
        Err(e) => Err(e),
    }
}

} // verus!

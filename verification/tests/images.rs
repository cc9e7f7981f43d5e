use image_changer::img::{dimensions, new_blank, new_from_samples, Pixel};
use image_changer::misc::{ImgConversionError, ImgError};

#[test]
fn dimension() {
    let image = match new_blank(
        Pixel {
            r: 0,
            g: 65535,
            b: 65535,
            a: 65535,
        },
        512,
        512,
    ) {
        Ok(a) => a,
        Err(e) => panic!("Error: {:?}", e),
    };
    assert_eq!(dimensions(&image), (512, 512));
}

#[test]
fn blank_holds_the_fill_colour_everywhere() {
    let fill = Pixel {
        r: 0,
        g: 65535,
        b: 65535,
        a: 65535,
    };
    let image = new_blank(fill, 512, 512).unwrap();
    let pixels = image.pixels();
    assert_eq!(pixels.len(), 512 * 512);
    assert!(pixels.iter().all(|pixel| *pixel == fill));
}

#[test]
fn blank_keeps_width_and_height_apart() {
    let fill = Pixel {
        r: 1,
        g: 2,
        b: 3,
        a: 4,
    };
    let image = new_blank(fill, 7, 3).unwrap();
    assert_eq!(dimensions(&image), (7, 3));
    assert_eq!(image.pixels(), vec![fill; 21]);
}

#[test]
fn blank_without_pixels_is_refused() {
    let fill = Pixel {
        r: 1,
        g: 2,
        b: 3,
        a: 4,
    };
    assert_eq!(new_blank(fill, 0, 5).err(), Some(ImgError::EmptyImage));
    assert_eq!(new_blank(fill, 5, 0).err(), Some(ImgError::EmptyImage));
    assert_eq!(new_blank(fill, 0, 0).err(), Some(ImgError::EmptyImage));
}

#[test]
fn blank_beyond_memory_is_refused() {
    let fill = Pixel {
        r: 1,
        g: 2,
        b: 3,
        a: 4,
    };
    assert_eq!(
        new_blank(fill, u32::MAX, u32::MAX).err(),
        Some(ImgError::TooLarge)
    );
}

#[test]
fn samples_are_read_four_to_a_pixel_row_by_row() {
    let samples: Vec<u16> = (1..=24).collect();
    let image = new_from_samples(3, 2, samples).unwrap();
    assert_eq!(dimensions(&image), (3, 2));
    let pixels = image.pixels();
    assert_eq!(pixels.len(), 6);
    assert_eq!(
        pixels[0],
        Pixel {
            r: 1,
            g: 2,
            b: 3,
            a: 4
        }
    );
    assert_eq!(
        pixels[4],
        Pixel {
            r: 17,
            g: 18,
            b: 19,
            a: 20
        }
    );
    assert_eq!(
        pixels[5],
        Pixel {
            r: 21,
            g: 22,
            b: 23,
            a: 24
        }
    );
}

#[test]
fn samples_of_the_wrong_number_are_refused() {
    assert_eq!(
        new_from_samples(3, 2, vec![0; 23]).err(),
        Some(ImgError::SampleCount)
    );
    assert_eq!(
        new_from_samples(3, 2, vec![0; 25]).err(),
        Some(ImgError::SampleCount)
    );
    assert_eq!(
        new_from_samples(1, 1, Vec::new()).err(),
        Some(ImgError::SampleCount)
    );
}

#[test]
fn an_image_may_have_no_rows() {
    let image = new_from_samples(4, 0, Vec::new()).unwrap();
    assert_eq!(dimensions(&image), (4, 0));
    assert!(image.pixels().is_empty());
}

#[test]
fn conversion_error_keeps_its_message() {
    let error = ImgConversionError::new("Out of Range");
    assert_eq!(error.message(), "Out of Range");
    assert_eq!(ImgConversionError::new("").message(), "");
}

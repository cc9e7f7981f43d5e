use image_changer::img::Pixel;

#[test]
fn pixel_from_256() {
    let pixel_as_256 = match Pixel::new_from_256(0, 255, 255, 255) {
        Ok(e) => e,
        Err(e) => panic!("Error: {:?}", e),
    };
    let pixel_raw = Pixel {
        r: 0,
        g: 65535,
        b: 65535,
        a: 65535,
    };
    assert_eq!(pixel_as_256.r, pixel_raw.r);
    assert_eq!(pixel_as_256.g, pixel_raw.g);
    assert_eq!(pixel_as_256.b, pixel_raw.b);
    assert_eq!(pixel_as_256.a, pixel_raw.a);
}

#[test]
#[should_panic]
fn pixel_from_256_panic() {
    let _ = match Pixel::new_from_256(256, 22222, 16, 5) {
        Ok(e) => e,
        Err(e) => panic!("Error: {:?}", e),
    };
}

#[test]
fn pixel_to_256() {
    let pix = match Pixel::new_from_256(65, 98, 42, 12) {
        Ok(e) => e,
        Err(e) => panic!("Error: {:?}", e),
    }; // create pixel from set of values

    let (r, g, b, a) = pix.pixel_to_256();
    assert_eq!(r, 65);
    assert_eq!(g, 98);
    assert_eq!(b, 42);
    assert_eq!(a, 12);
}

#[test]
fn pixel_distance_check() {
    let base_pix = Pixel {
        r: 0,
        g: 255,
        b: 100,
        a: 40,
    };

    assert_eq!(
        base_pix.pixel_distance_manhattan(
            &(base_pix
                + Pixel {
                    r: 0,
                    g: 5,
                    b: 0,
                    a: 0
                })
        ),
        5
    );
    assert_eq!(
        base_pix.pixel_distance_manhattan(
            &(base_pix
                + Pixel {
                    r: 3,
                    g: 6,
                    b: 2,
                    a: 7
                })
        ),
        3 + 6 + 2 + 7
    );
    assert_eq!(
        base_pix.pixel_distance_manhattan(
            &(base_pix
                + Pixel {
                    r: 0,
                    g: 0,
                    b: 0,
                    a: 0
                })
        ),
        0
    );
    assert_eq!(
        base_pix.pixel_distance_manhattan(
            &(base_pix
                + Pixel {
                    r: 1,
                    g: 0,
                    b: 5,
                    a: 0
                })
        ),
        1 + 5
    );

    assert_eq!(
        base_pix.pixel_distance_manhattan(
            &(base_pix
                + Pixel {
                    r: 55555,
                    g: 11231,
                    b: 0,
                    a: 0
                })
        ),
        55555_u16.saturating_add(11231_u16)
    );
}

#[test]
fn from_256_scales_every_channel_by_257() {
    for c in 0..=255u16 {
        let pixel = Pixel::new_from_256(c, 255 - c, c, 255).unwrap();
        assert_eq!(pixel.r, c * 257);
        assert_eq!(pixel.g, (255 - c) * 257);
        assert_eq!(pixel.b, c * 257);
        assert_eq!(pixel.a, 65535);
    }
}

#[test]
fn from_256_rejects_each_channel_above_255() {
    assert!(Pixel::new_from_256(256, 0, 0, 0).is_err());
    assert!(Pixel::new_from_256(0, 256, 0, 0).is_err());
    assert!(Pixel::new_from_256(0, 0, 256, 0).is_err());
    assert!(Pixel::new_from_256(0, 0, 0, 256).is_err());
    assert!(Pixel::new_from_256(65535, 65535, 65535, 65535).is_err());
    assert!(Pixel::new_from_256(255, 255, 255, 255).is_ok());
}

#[test]
fn from_256_error_says_out_of_range() {
    let error = Pixel::new_from_256(256, 22222, 16, 5).unwrap_err();
    assert_eq!(error.message(), "Out of Range");
}

#[test]
fn to_256_round_trips_the_whole_range() {
    for c in 0..=255u16 {
        let pixel = Pixel::new_from_256(c, c, 255 - c, 0).unwrap();
        assert_eq!(pixel.pixel_to_256(), (c, c, 255 - c, 0));
    }
}

#[test]
fn to_256_drops_what_does_not_fit() {
    let pixel = Pixel {
        r: 256,
        g: 257,
        b: 513,
        a: 65534,
    };
    assert_eq!(pixel.pixel_to_256(), (0, 1, 1, 254));
    let ends = Pixel {
        r: 0,
        g: 65535,
        b: 32767,
        a: 32896,
    };
    assert_eq!(ends.pixel_to_256(), (0, 255, 127, 128));
}

#[test]
fn add_saturates_each_channel() {
    let sum = Pixel {
        r: 65000,
        g: 1,
        b: 65535,
        a: 0,
    } + Pixel {
        r: 1000,
        g: 2,
        b: 1,
        a: 0,
    };
    assert_eq!(
        sum,
        Pixel {
            r: 65535,
            g: 3,
            b: 65535,
            a: 0
        }
    );
}

#[test]
fn sub_is_the_distance_of_each_channel() {
    let p = Pixel {
        r: 10,
        g: 500,
        b: 0,
        a: 65535,
    };
    let q = Pixel {
        r: 30,
        g: 100,
        b: 0,
        a: 0,
    };
    let expected = Pixel {
        r: 20,
        g: 400,
        b: 0,
        a: 65535,
    };
    assert_eq!(&p - &q, expected);
    assert_eq!(&q - &p, expected);
}

#[test]
fn distance_is_symmetric() {
    let p = Pixel {
        r: 10,
        g: 500,
        b: 7,
        a: 65535,
    };
    let q = Pixel {
        r: 30,
        g: 100,
        b: 9,
        a: 65000,
    };
    assert_eq!(p.pixel_distance_manhattan(&q), 20 + 400 + 2 + 535);
    assert_eq!(q.pixel_distance_manhattan(&p), 20 + 400 + 2 + 535);
}

#[test]
fn distance_to_self_is_zero() {
    let p = Pixel {
        r: 10,
        g: 500,
        b: 7,
        a: 65535,
    };
    assert_eq!(p.pixel_distance_manhattan(&p), 0);
}

#[test]
fn distance_saturates() {
    let black = Pixel {
        r: 0,
        g: 0,
        b: 0,
        a: 0,
    };
    let white = Pixel {
        r: 65535,
        g: 65535,
        b: 65535,
        a: 65535,
    };
    assert_eq!(black.pixel_distance_manhattan(&white), 65535);
    let bright = Pixel {
        r: 65535,
        g: 1,
        b: 0,
        a: 0,
    };
    assert_eq!(black.pixel_distance_manhattan(&bright), 65535);
    let dim = Pixel {
        r: 65534,
        g: 1,
        b: 0,
        a: 0,
    };
    assert_eq!(black.pixel_distance_manhattan(&dim), 65535);
    let dimmer = Pixel {
        r: 65533,
        g: 1,
        b: 0,
        a: 0,
    };
    assert_eq!(black.pixel_distance_manhattan(&dimmer), 65534);
}

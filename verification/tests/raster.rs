use chess_image::overlay::overlay;
use chess_image::raster::resizable;
use chess_image::raster::{Raster, Rgba};

fn pixel(r: u8, g: u8, b: u8, a: u8) -> Rgba {
    Rgba { r, g, b, a }
}

/// A raster whose pixel in column `x` of row `y` is `(x, y, 200, 255)`.
fn gradient(width: u32, height: u32) -> Raster {
    let mut bytes = Vec::new();
    for y in 0..height {
        for x in 0..width {
            bytes.extend_from_slice(&[x as u8, y as u8, 200, 255]);
        }
    }
    Raster::from_raw(width, height, bytes).unwrap()
}

#[test]
fn from_raw_wants_four_bytes_for_each_pixel() {
    assert!(Raster::from_raw(2, 3, vec![0; 24]).is_some());
    assert!(Raster::from_raw(2, 3, vec![0; 23]).is_none());
    assert!(Raster::from_raw(2, 3, vec![0; 25]).is_none());
    assert!(Raster::from_raw(2, 3, Vec::new()).is_none());
}

#[test]
fn from_raw_takes_empty_images() {
    let flat = Raster::from_raw(0, 5, Vec::new()).unwrap();
    assert_eq!((flat.width(), flat.height()), (0, 5));
    let thin = Raster::from_raw(7, 0, Vec::new()).unwrap();
    assert_eq!((thin.width(), thin.height()), (7, 0));
    assert!(Raster::from_raw(0, 0, vec![0; 4]).is_none());
}

#[test]
fn from_raw_refuses_sizes_beyond_any_buffer() {
    assert!(Raster::from_raw(u32::MAX, u32::MAX, vec![0; 16]).is_none());
}

#[test]
fn raw_bytes_come_back_unchanged() {
    let bytes: Vec<u8> = (0..48).collect();
    let raster = Raster::from_raw(4, 3, bytes.clone()).unwrap();
    assert_eq!(raster.width(), 4);
    assert_eq!(raster.height(), 3);
    assert_eq!(raster.into_raw(), bytes);
}

#[test]
fn get_pixel_reads_rows_from_the_top() {
    let bytes: Vec<u8> = (0..48).collect();
    let raster = Raster::from_raw(4, 3, bytes).unwrap();
    assert_eq!(raster.get_pixel(0, 0), pixel(0, 1, 2, 3));
    assert_eq!(raster.get_pixel(3, 0), pixel(12, 13, 14, 15));
    assert_eq!(raster.get_pixel(0, 1), pixel(16, 17, 18, 19));
    assert_eq!(raster.get_pixel(2, 1), pixel(24, 25, 26, 27));
    assert_eq!(raster.get_pixel(3, 2), pixel(44, 45, 46, 47));
}

#[test]
fn put_pixel_changes_one_pixel_only() {
    let mut raster = gradient(5, 4);
    raster.put_pixel(3, 2, pixel(9, 8, 7, 6));
    for y in 0..4 {
        for x in 0..5 {
            let expected =
                if (x, y) == (3, 2) { pixel(9, 8, 7, 6) } else { pixel(x as u8, y as u8, 200, 255) };
            assert_eq!(raster.get_pixel(x, y), expected);
        }
    }
    let mut bytes = gradient(5, 4).into_raw();
    bytes[4 * (2 * 5 + 3)..4 * (2 * 5 + 3) + 4].copy_from_slice(&[9, 8, 7, 6]);
    assert_eq!(raster.into_raw(), bytes);
}

#[test]
fn clone_shows_the_same_image() {
    let raster = gradient(3, 3);
    let copy = raster.clone();
    assert_eq!(copy, raster);
    assert_eq!(copy.into_raw(), raster.into_raw());
}

#[test]
fn overlay_replaces_where_the_sprite_is_not_transparent() {
    let mut canvas = gradient(4, 4);
    // A 2 by 2 sprite: opaque, half transparent, fully transparent, opaque.
    let sprite = Raster::from_raw(
        2,
        2,
        vec![10, 11, 12, 255, 20, 21, 22, 128, 30, 31, 32, 0, 40, 41, 42, 1],
    )
    .unwrap();
    overlay(&mut canvas, &sprite, 1, 2);
    for y in 0..4 {
        for x in 0..4 {
            let expected = match (x, y) {
                (1, 2) => pixel(10, 11, 12, 255),
                (2, 2) => pixel(20, 21, 22, 128),
                (2, 3) => pixel(40, 41, 42, 1),
                _ => pixel(x as u8, y as u8, 200, 255),
            };
            assert_eq!(canvas.get_pixel(x, y), expected, "at ({x}, {y})");
        }
    }
}

#[test]
fn overlay_copies_partial_opacity_without_blending() {
    let mut canvas = Raster::from_raw(1, 1, vec![100, 100, 100, 255]).unwrap();
    let sprite = Raster::from_raw(1, 1, vec![0, 0, 0, 1]).unwrap();
    overlay(&mut canvas, &sprite, 0, 0);
    assert_eq!(canvas.into_raw(), vec![0, 0, 0, 1]);
}

#[test]
fn overlay_of_a_transparent_sprite_changes_nothing() {
    let mut canvas = gradient(3, 3);
    let sprite = Raster::from_raw(3, 3, vec![77, 77, 77, 0].repeat(9)).unwrap();
    overlay(&mut canvas, &sprite, 0, 0);
    assert_eq!(canvas, gradient(3, 3));
}

#[test]
fn overlay_with_a_transparent_border_keeps_the_border() {
    let mut canvas = gradient(5, 5);
    let mut bytes = vec![0u8; 4 * 9];
    bytes[4 * 4..4 * 4 + 4].copy_from_slice(&[1, 2, 3, 4]);
    let sprite = Raster::from_raw(3, 3, bytes).unwrap();
    overlay(&mut canvas, &sprite, 2, 2);
    for y in 0..5 {
        for x in 0..5 {
            let expected =
                if (x, y) == (3, 3) { pixel(1, 2, 3, 4) } else { pixel(x as u8, y as u8, 200, 255) };
            assert_eq!(canvas.get_pixel(x, y), expected);
        }
    }
}

#[test]
fn overlay_of_an_empty_sprite_changes_nothing() {
    let mut canvas = gradient(2, 2);
    let sprite = Raster::from_raw(0, 0, Vec::new()).unwrap();
    overlay(&mut canvas, &sprite, 2, 2);
    assert_eq!(canvas, gradient(2, 2));
}

#[test]
fn overlay_reaches_the_last_row_and_column() {
    let mut canvas = gradient(3, 2);
    let sprite = Raster::from_raw(1, 1, vec![5, 6, 7, 8]).unwrap();
    overlay(&mut canvas, &sprite, 2, 1);
    assert_eq!(canvas.get_pixel(2, 1), pixel(5, 6, 7, 8));
    assert_eq!(canvas.get_pixel(1, 1), pixel(1, 1, 200, 255));
    assert_eq!(canvas.get_pixel(2, 0), pixel(2, 0, 200, 255));
}

#[test]
fn pictures_of_ordinary_size_can_be_resized() {
    let picture = gradient(150, 150);
    assert!(resizable(&picture, 100, 100));
    assert!(resizable(&picture, 0, 0));
    assert!(resizable(&Raster::from_raw(0, 0, Vec::new()).unwrap(), 64, 64));
}

#[test]
fn sizes_beyond_memory_cannot_be_resized_to() {
    let picture = gradient(2, 2);
    assert!(!resizable(&picture, u32::MAX, u32::MAX));
    let wide = Raster::from_raw(u32::MAX, 0, Vec::new()).unwrap();
    assert!(!resizable(&wide, 1, u32::MAX));
}

#[test]
fn resized_has_the_size_asked_for() {
    let picture = gradient(5, 3);
    for (width, height) in [(1, 1), (5, 3), (10, 6), (3, 5), (0, 0), (4, 0), (0, 4)] {
        let out = picture.resized(width, height);
        assert_eq!((out.width(), out.height()), (width, height));
        assert_eq!(out.into_raw().len(), 4 * (width * height) as usize);
    }
}

#[test]
fn resized_to_its_own_size_is_a_copy() {
    let picture = gradient(6, 4);
    assert_eq!(picture.resized(6, 4), picture);
}

#[test]
fn resized_doubles_each_pixel_when_enlarged_twofold() {
    let picture = gradient(3, 2);
    let out = picture.resized(6, 4);
    for y in 0..4 {
        for x in 0..6 {
            assert_eq!(out.get_pixel(x, y), pixel((x / 2) as u8, (y / 2) as u8, 200, 255));
        }
    }
}

#[test]
fn resized_takes_pixels_whole_when_reducing() {
    // Two colours side by side: no pixel of the result is a blend of them.
    let picture =
        Raster::from_raw(4, 1, vec![0, 0, 0, 0, 0, 0, 0, 0, 250, 250, 250, 255, 250, 250, 250, 255])
            .unwrap();
    let out = picture.resized(2, 1);
    assert_eq!(out.get_pixel(0, 0), pixel(0, 0, 0, 0));
    assert_eq!(out.get_pixel(1, 0), pixel(250, 250, 250, 255));
}

#[test]
fn resized_from_nothing_is_transparent() {
    let nothing = Raster::from_raw(0, 0, Vec::new()).unwrap();
    let out = nothing.resized(2, 2);
    assert_eq!(out.into_raw(), vec![0; 16]);
}

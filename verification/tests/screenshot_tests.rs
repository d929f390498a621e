use delenix::config::{Config, Screenshotter};
use delenix::screenshot::{
    as_jpeg, as_png, bgra_to_rgba, checked_as_jpeg, checked_as_png, encoded_file, extent,
    holds_pixels, pack_rows, Capture, Edges, Extent, ImageError, RegionSelection, ScreenshotType,
};

fn config(screenshotter: Option<Screenshotter>) -> Config {
    Config {
        uploaders: vec![],
        screenshotter,
        last_index: 0,
        copy_to_clipboard: false,
        copy_url_to_clipboard: false,
        freeze_screen: false,
        tessdata_path: None,
    }
}

#[test]
fn region_from_its_corner_and_sides() {
    assert_eq!(RegionSelection::new(-3, 4, 5, 6), RegionSelection { x: -3, y: 4, w: 5, h: 6 });
}

#[test]
fn drag_in_any_direction_spans_the_same_rectangle() {
    let expected = RegionSelection { x: 10, y: 20, w: 30, h: 5 };
    assert_eq!(RegionSelection::from_drag((10, 20), (40, 25)), expected);
    assert_eq!(RegionSelection::from_drag((40, 25), (10, 20)), expected);
    assert_eq!(RegionSelection::from_drag((40, 20), (10, 25)), expected);
    assert_eq!(RegionSelection::from_drag((10, 25), (40, 20)), expected);
}

#[test]
fn drag_on_the_spot_spans_nothing() {
    assert_eq!(
        RegionSelection::from_drag((7, 7), (7, 7)),
        RegionSelection { x: 7, y: 7, w: 0, h: 0 }
    );
}

#[test]
fn drag_across_the_whole_range() {
    assert_eq!(
        RegionSelection::from_drag((i16::MIN, i16::MAX), (i16::MAX, i16::MIN)),
        RegionSelection { x: i16::MIN, y: i16::MIN, w: 65535, h: 65535 }
    );
}

#[test]
fn built_in_capture_without_an_outside_program() {
    let conf = config(None);
    assert_eq!(conf.screenshot(ScreenshotType::Screen), Capture::BuiltIn(ScreenshotType::Screen));
    assert_eq!(
        conf.screenshot(ScreenshotType::Window(42)),
        Capture::BuiltIn(ScreenshotType::Window(42))
    );
    let region = ScreenshotType::Region(RegionSelection { x: 1, y: 2, w: 3, h: 4 });
    assert_eq!(conf.screenshot(region), Capture::BuiltIn(region));
}

#[test]
fn outside_program_takes_every_capture() {
    let conf = config(Some(Screenshotter {
        path: "/usr/bin/grim".to_string(),
        args: vec!["-".to_string(), "-t".to_string()],
    }));
    for what in [ScreenshotType::Screen, ScreenshotType::Window(1)] {
        assert_eq!(
            conf.screenshot(what),
            Capture::Program {
                path: "/usr/bin/grim".to_string(),
                args: vec!["-".to_string(), "-t".to_string()],
            }
        );
    }
}

#[test]
fn blue_and_red_are_exchanged() {
    assert_eq!(bgra_to_rgba(&[1, 2, 3, 4]), vec![3, 2, 1, 4]);
    assert_eq!(bgra_to_rgba(&[1, 2, 3, 4, 5, 6, 7, 8]), vec![3, 2, 1, 4, 7, 6, 5, 8]);
    assert_eq!(bgra_to_rgba(&[]), Vec::<u8>::new());
}

#[test]
fn bytes_after_the_last_whole_pixel_are_left_out() {
    assert_eq!(bgra_to_rgba(&[1, 2, 3]), Vec::<u8>::new());
    assert_eq!(bgra_to_rgba(&[1, 2, 3, 4, 5, 6, 7]), vec![3, 2, 1, 4]);
}

#[test]
fn rows_are_packed_without_what_stands_between() {
    let pixels = [1, 2, 3, 0, 0, 4, 5, 6, 0, 0, 7, 8, 9];
    assert_eq!(pack_rows(&pixels, 3, 3, 5), Some(vec![1, 2, 3, 4, 5, 6, 7, 8, 9]));
    assert_eq!(pack_rows(&pixels, 3, 2, 5), Some(vec![1, 2, 3, 4, 5, 6]));
    assert_eq!(pack_rows(&[1, 2, 3, 4], 2, 2, 2), Some(vec![1, 2, 3, 4]));
}

#[test]
fn rows_that_overlap_are_read_as_they_lie() {
    assert_eq!(pack_rows(&[1, 2, 3], 2, 2, 1), Some(vec![1, 2, 2, 3]));
}

#[test]
fn rows_beyond_the_pixels_are_refused() {
    let pixels = [1, 2, 3, 0, 0, 4, 5, 6];
    assert_eq!(pack_rows(&pixels, 3, 3, 5), None);
    assert_eq!(pack_rows(&pixels, 4, 2, 5), None);
    assert_eq!(pack_rows(&[], 1, 1, 0), None);
    assert_eq!(pack_rows(&pixels, 1, 2, usize::MAX), None);
    assert_eq!(pack_rows(&pixels, usize::MAX, 2, 0), None);
}

#[test]
fn image_without_rows_is_empty() {
    assert_eq!(pack_rows(&[1, 2], 0, 5, 9), Some(vec![]));
    assert_eq!(pack_rows(&[1, 2], 5, 0, 9), Some(vec![]));
    assert_eq!(pack_rows(&[], 0, 0, 0), Some(vec![]));
}

#[test]
fn png_file_of_a_capture() {
    let file = as_png(vec![255, 0, 0, 255, 0, 255, 0, 255], 2, 1).unwrap();
    assert_eq!(&file[..8], &[137, 80, 78, 71, 13, 10, 26, 10]);
    // The width and the height stand in the header, big-endian.
    assert_eq!(&file[16..24], &[0, 0, 0, 2, 0, 0, 0, 1]);
    let again = as_png(vec![255, 0, 0, 255, 0, 255, 0, 255], 2, 1).unwrap();
    assert_eq!(file, again);
}

#[test]
fn jpeg_file_of_a_capture() {
    let file = as_jpeg(vec![10; 8 * 8 * 4], 8, 8).unwrap();
    assert_eq!(&file[..2], &[0xff, 0xd8]);
    assert_eq!(&file[file.len() - 2..], &[0xff, 0xd9]);
}

#[test]
fn capture_without_pixels_is_refused() {
    assert_eq!(as_png(vec![1, 2, 3, 4], 0, 1), Err(ImageError::NoPixels));
    assert_eq!(as_png(vec![1, 2, 3, 4], 1, 0), Err(ImageError::NoPixels));
    assert_eq!(as_jpeg(vec![], 0, 0), Err(ImageError::NoPixels));
}

#[test]
fn capture_with_too_few_bytes_is_refused_by_the_checked_functions() {
    assert_eq!(checked_as_png(vec![1, 2, 3], 1, 1), Err(ImageError::TooFewBytes));
    assert_eq!(checked_as_png(vec![0; 15], 2, 2), Err(ImageError::TooFewBytes));
    assert_eq!(checked_as_jpeg(vec![0; 4], 65535, 65535), Err(ImageError::TooFewBytes));
}

#[test]
fn checked_functions_encode_what_holds_its_pixels() {
    let pixels = vec![9u8; 2 * 2 * 4];
    assert_eq!(checked_as_png(pixels.clone(), 2, 2), as_png(pixels.clone(), 2, 2));
    assert_eq!(checked_as_jpeg(pixels.clone(), 2, 2), as_jpeg(pixels, 2, 2));
}

#[test]
fn four_bytes_a_pixel_are_enough() {
    assert!(holds_pixels(0, 0, 7));
    assert!(holds_pixels(4, 1, 1));
    assert!(!holds_pixels(3, 1, 1));
    assert!(holds_pixels(24, 2, 3));
    assert!(!holds_pixels(23, 2, 3));
    assert!(!holds_pixels(usize::MAX.min(17179344899), 65535, 65535));
    assert!(holds_pixels(17179344900, 65535, 65535));
}

#[test]
fn encoder_result_is_a_file_or_an_error() {
    assert_eq!(encoded_file(Some(vec![1, 2])), Ok(vec![1, 2]));
    assert_eq!(encoded_file(None), Err(ImageError::Encoder));
}

#[test]
fn bitmap_is_measured_from_its_edges() {
    let edges = Edges { left: 10, top: 20, right: 110, bottom: 70 };
    assert_eq!(extent(edges), Some(Extent { width: 100, height: 50, bytes: 20000 }));
    let turned = Edges { left: 110, top: 70, right: 10, bottom: 20 };
    assert_eq!(extent(turned), Some(Extent { width: 100, height: 50, bytes: 20000 }));
    let flat = Edges { left: 5, top: 5, right: 5, bottom: 9 };
    assert_eq!(extent(flat), Some(Extent { width: 0, height: 4, bytes: 0 }));
}

#[test]
fn bitmap_with_a_side_beyond_the_word_is_not_measured() {
    let wide = Edges { left: i32::MIN, top: 0, right: i32::MAX, bottom: 1 };
    assert_eq!(extent(wide), None);
    let high = Edges { left: 0, top: i32::MAX, right: 1, bottom: -1 };
    assert_eq!(extent(high), None);
}

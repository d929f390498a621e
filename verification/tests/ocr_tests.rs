use delenix::ocr::{find_most_common_color, invert_colors, prepare, Colour};

#[test]
fn mostly_dark_image_is_black() {
    assert_eq!(find_most_common_color(&[0, 10, 127, 200]), Colour::Black);
    assert_eq!(find_most_common_color(&[0]), Colour::Black);
}

#[test]
fn mostly_light_image_is_white() {
    assert_eq!(find_most_common_color(&[128, 255, 0]), Colour::White);
    assert_eq!(find_most_common_color(&[255]), Colour::White);
}

#[test]
fn a_tie_and_an_empty_image_are_white() {
    assert_eq!(find_most_common_color(&[0, 255]), Colour::White);
    assert_eq!(find_most_common_color(&[127, 128]), Colour::White);
    assert_eq!(find_most_common_color(&[]), Colour::White);
}

#[test]
fn the_threshold_counts_as_light() {
    assert_eq!(find_most_common_color(&[128]), Colour::White);
    assert_eq!(find_most_common_color(&[127]), Colour::Black);
}

#[test]
fn colours_are_inverted() {
    let mut luma = vec![0, 1, 127, 128, 254, 255];
    invert_colors(&mut luma);
    assert_eq!(luma, vec![255, 254, 128, 127, 1, 0]);
    invert_colors(&mut luma);
    assert_eq!(luma, vec![0, 1, 127, 128, 254, 255]);
    let mut empty: Vec<u8> = vec![];
    invert_colors(&mut empty);
    assert!(empty.is_empty());
}

#[test]
fn dark_image_is_inverted_for_recognition() {
    let mut dark = vec![10, 20, 250];
    prepare(&mut dark);
    assert_eq!(dark, vec![245, 235, 5]);
    let mut light = vec![10, 220, 250];
    prepare(&mut light);
    assert_eq!(light, vec![10, 220, 250]);
}

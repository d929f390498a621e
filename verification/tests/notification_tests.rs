use delenix::notification::{is_link, place, Placement};

#[test]
fn links_begin_with_a_scheme() {
    assert!(is_link("http://x"));
    assert!(is_link("https://x/y"));
    assert!(is_link("http://"));
    assert!(!is_link("http:/x"));
    assert!(!is_link("https:/"));
    assert!(!is_link("ftp://x"));
    assert!(!is_link(" http://x"));
    assert!(!is_link("HTTP://x"));
    assert!(!is_link(""));
    assert!(!is_link("File path: /tmp/a.png"));
}

#[test]
fn notification_stands_in_the_lower_right_corner() {
    assert_eq!(
        place(1920, 1080, 200),
        Some(Placement { width: 210, height: 30, x: 1700, y: 1030 })
    );
    assert_eq!(place(0, 0, 0), Some(Placement { width: 10, height: 30, x: -20, y: -50 }));
}

#[test]
fn notification_that_does_not_fit_the_word_is_not_placed() {
    assert_eq!(place(1920, 1080, i32::MAX), None);
    assert_eq!(place(i32::MIN, 1080, 200), None);
    assert_eq!(place(1920, i32::MIN, 200), None);
    assert_eq!(
        place(i32::MAX, i32::MAX, i32::MAX - 10),
        Some(Placement { width: i32::MAX, height: 30, x: -10, y: i32::MAX - 50 })
    );
}

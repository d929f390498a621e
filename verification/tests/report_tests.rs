use delenix::report::{describe, Level, Line};
use delenix::upload::UploadResult;

fn result() -> UploadResult {
    UploadResult {
        uploader_name: "n".to_string(),
        url: None,
        thumbnail_url: None,
        deletion_url: None,
        error_message: None,
        file_path: None,
    }
}

fn info(text: &str) -> Line {
    Line { level: Level::Info, text: text.to_string() }
}

#[test]
fn no_outcome_no_line() {
    assert_eq!(describe(&vec![]), vec![]);
    assert_eq!(describe(&vec![result()]), vec![]);
}

#[test]
fn failure_is_reported_by_its_message_alone() {
    let mut failed = result();
    failed.error_message = Some("500: no".to_string());
    failed.url = Some("ignored".to_string());
    failed.file_path = Some("ignored".to_string());
    assert_eq!(
        describe(&vec![failed]),
        vec![Line { level: Level::Error, text: "Failed to upload: 500: no".to_string() }]
    );
}

#[test]
fn success_is_reported_by_what_it_holds() {
    let mut all = result();
    all.url = Some("http://u".to_string());
    all.thumbnail_url = Some("http://t".to_string());
    all.deletion_url = Some("http://d".to_string());
    all.file_path = Some("/p".to_string());
    assert_eq!(
        describe(&vec![all]),
        vec![info("Uploaded URL: http://u"), info("Delete URL: http://d"), info("File path: /p")]
    );
}

#[test]
fn lines_follow_the_order_of_the_outcomes() {
    let mut a = result();
    a.file_path = Some("/a".to_string());
    let mut b = result();
    b.error_message = Some("x".to_string());
    let mut c = result();
    c.url = Some("u".to_string());
    assert_eq!(
        describe(&vec![a, b, c]),
        vec![
            info("File path: /a"),
            Line { level: Level::Error, text: "Failed to upload: x".to_string() },
            info("Uploaded URL: u"),
        ]
    );
}

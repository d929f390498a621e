use delenix::config::Config;
use delenix::ipc::{
    Connection, ErrorResponse, GetConfig, GetImage, GetImageResponse, Job, Phase, Reply, Request,
    Served, SetConfig, Todo, Upload, UploadResponse, FRAME_SIZE,
};
use delenix::screenshot::{RegionSelection, ScreenshotType};
use delenix::upload::UploadResult;

fn config(last_index: u32) -> Config {
    Config {
        uploaders: vec![],
        screenshotter: None,
        last_index,
        copy_to_clipboard: true,
        copy_url_to_clipboard: false,
        freeze_screen: false,
        tessdata_path: None,
    }
}

fn outcome(name: &str) -> UploadResult {
    UploadResult {
        uploader_name: name.to_string(),
        url: Some("u".to_string()),
        thumbnail_url: None,
        deletion_url: None,
        error_message: None,
        file_path: None,
    }
}

fn dispatching(request: Request) -> (Connection, Todo) {
    let mut connection = Connection::new();
    assert_eq!(connection.on_read(10), Todo::Decode(10));
    let todo = connection.on_decoded(Some(request));
    (connection, todo)
}

#[test]
fn error_response_holds_its_text() {
    assert_eq!(ErrorResponse::new("boom".to_string()).error, "boom");
    assert_eq!(ErrorResponse::new(String::new()), ErrorResponse { error: String::new() });
}

#[test]
fn message_types_hold_their_fields() {
    assert_eq!(UploadResponse { url: "u".to_string() }.url, "u");
    assert_eq!(GetImage, GetImage);
    assert_eq!(GetConfig, GetConfig);
    let image = GetImageResponse { data: vec![1], format: "png".to_string() };
    assert_eq!(image.data, vec![1]);
    assert_eq!(Upload { data: vec![2], format: "jpg".to_string() }.format, "jpg");
    assert_eq!(SetConfig { config: config(3) }.config.last_index, 3);
}

#[test]
fn new_connection_awaits_a_request() {
    let connection = Connection::new();
    assert_eq!(connection.phase(), Phase::AwaitRequest);
    assert!(!connection.is_closed());
}

#[test]
fn empty_read_ends_the_connection() {
    let mut connection = Connection::new();
    assert_eq!(connection.on_read(0), Todo::Close);
    assert!(connection.is_closed());
}

#[test]
fn read_of_one_frame_is_decoded() {
    let mut connection = Connection::new();
    assert_eq!(connection.on_read(FRAME_SIZE), Todo::Decode(1024));
    assert_eq!(connection.phase(), Phase::Decode);
    let mut one = Connection::new();
    assert_eq!(one.on_read(1), Todo::Decode(1));
}

#[test]
fn read_beyond_one_frame_ends_the_connection() {
    let mut connection = Connection::new();
    assert_eq!(connection.on_read(FRAME_SIZE + 1), Todo::Close);
    assert!(connection.is_closed());
}

#[test]
fn malformed_request_ends_the_connection() {
    let mut connection = Connection::new();
    connection.on_read(12);
    assert_eq!(connection.on_decoded(None), Todo::Close);
    assert!(connection.is_closed());
}

#[test]
fn set_config_has_no_answer() {
    let (mut connection, todo) = dispatching(Request::SetConfig(SetConfig { config: config(9) }));
    assert_eq!(todo, Todo::Serve(Job::Replace(config(9))));
    assert_eq!(connection.on_served(Served::Replaced), Todo::Read);
    assert_eq!(connection.phase(), Phase::AwaitRequest);
}

#[test]
fn get_config_is_answered_with_the_configuration() {
    let (mut connection, todo) = dispatching(Request::GetConfig(GetConfig));
    assert_eq!(todo, Todo::Serve(Job::Read));
    assert_eq!(
        connection.on_served(Served::Configuration(config(4))),
        Todo::Respond(Reply::Configuration(config(4)))
    );
    assert_eq!(connection.phase(), Phase::Respond);
    assert_eq!(connection.on_responded(), Todo::Read);
    assert_eq!(connection.phase(), Phase::AwaitRequest);
}

#[test]
fn upload_is_answered_with_the_outcomes() {
    let (mut connection, todo) =
        dispatching(Request::Upload(Upload { data: vec![1, 2], format: "png".to_string() }));
    assert_eq!(todo, Todo::Serve(Job::Deliver { data: vec![1, 2], format: "png".to_string() }));
    assert_eq!(
        connection.on_served(Served::Delivered(vec![outcome("a"), outcome("b")])),
        Todo::Respond(Reply::Outcomes(vec![outcome("a"), outcome("b")]))
    );
}

#[test]
fn screenshot_is_answered_with_the_image() {
    let what = ScreenshotType::Region(RegionSelection { x: 1, y: 2, w: 3, h: 4 });
    let (mut connection, todo) = dispatching(Request::Screenshot(what));
    assert_eq!(todo, Todo::Serve(Job::Capture(what)));
    assert_eq!(
        connection.on_served(Served::Captured(Ok(vec![5, 6]))),
        Todo::Respond(Reply::Image(GetImageResponse { data: vec![5, 6], format: "png".to_string() }))
    );
}

#[test]
fn failed_capture_is_answered_with_the_error() {
    let (mut connection, _) = dispatching(Request::Screenshot(ScreenshotType::Screen));
    assert_eq!(
        connection.on_served(Served::Captured(Err("no display".to_string()))),
        Todo::Respond(Reply::Error(ErrorResponse { error: "no display".to_string() }))
    );
    assert_eq!(connection.on_responded(), Todo::Read);
}

#[test]
fn what_does_not_answer_the_request_ends_the_connection() {
    let (mut connection, _) = dispatching(Request::GetConfig(GetConfig));
    assert_eq!(connection.on_served(Served::Replaced), Todo::Close);
    assert!(connection.is_closed());
    let (mut other, _) = dispatching(Request::Screenshot(ScreenshotType::Window(7)));
    assert_eq!(other.on_served(Served::Delivered(vec![])), Todo::Close);
}

#[test]
fn no_read_while_a_request_is_in_hand() {
    let (mut connection, _) = dispatching(Request::GetConfig(GetConfig));
    assert_eq!(connection.on_read(5), Todo::Close);
    assert!(connection.is_closed());
    let mut decoding = Connection::new();
    decoding.on_read(5);
    assert_eq!(decoding.on_read(5), Todo::Close);
}

#[test]
fn events_out_of_turn_end_the_connection() {
    let mut a = Connection::new();
    assert_eq!(a.on_decoded(Some(Request::GetConfig(GetConfig))), Todo::Close);
    let mut b = Connection::new();
    assert_eq!(b.on_served(Served::Replaced), Todo::Close);
    let mut c = Connection::new();
    assert_eq!(c.on_responded(), Todo::Close);
}

#[test]
fn closed_connection_stays_closed() {
    let mut connection = Connection::new();
    connection.on_read(0);
    assert_eq!(connection.on_read(10), Todo::Close);
    assert_eq!(connection.on_decoded(Some(Request::GetConfig(GetConfig))), Todo::Close);
    assert_eq!(connection.on_served(Served::Replaced), Todo::Close);
    assert_eq!(connection.on_responded(), Todo::Close);
    assert!(connection.is_closed());
}

#[test]
fn requests_of_one_connection_are_served_in_turn() {
    let mut connection = Connection::new();
    for round in 0..3u32 {
        assert_eq!(connection.on_read(20), Todo::Decode(20));
        connection.on_decoded(Some(Request::SetConfig(SetConfig { config: config(round) })));
        assert_eq!(connection.on_served(Served::Replaced), Todo::Read);
        assert_eq!(connection.on_read(2), Todo::Decode(2));
        connection.on_decoded(Some(Request::GetConfig(GetConfig)));
        assert_eq!(
            connection.on_served(Served::Configuration(config(round))),
            Todo::Respond(Reply::Configuration(config(round)))
        );
        assert_eq!(connection.on_responded(), Todo::Read);
    }
}

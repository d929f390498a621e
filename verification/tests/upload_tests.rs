use delenix::config::{Body, Config, DestinationType, FileUploader, HttpUploader, Uploader};
use delenix::request::{Method, RequestBody};
use delenix::upload::{
    file_path_of, handle_simple_upload, outcome_of_response, Action, Delivery, Event, Step,
    UploadResult,
};

fn config(uploaders: Vec<Uploader>) -> Config {
    Config {
        uploaders,
        screenshotter: None,
        last_index: 5,
        copy_to_clipboard: false,
        copy_url_to_clipboard: false,
        freeze_screen: false,
        tessdata_path: None,
    }
}

fn file(name: &str, dir: &str, template: &str) -> Uploader {
    Uploader::File(FileUploader {
        name: name.to_string(),
        file_path: dir.to_string(),
        file_name: template.to_string(),
    })
}

fn http_destination(name: &str, body: Body) -> HttpUploader {
    HttpUploader {
        name: name.to_string(),
        destination_type: DestinationType::ImageUploader,
        request_method: "POST".to_string(),
        request_url: "http://host/up".to_string(),
        parameters: None,
        headers: None,
        body,
        arguments: None,
        file_form_name: None,
        url: "$json:data.link$".to_string(),
        thumbnail_url: None,
        deletion_url: Some("http://host/delete/$json:data.hash$".to_string()),
        error_message: None,
    }
}

fn http(name: &str, body: Body) -> Uploader {
    Uploader::HTTP(http_destination(name, body))
}

fn failure(name: &str, message: &str) -> UploadResult {
    UploadResult {
        uploader_name: name.to_string(),
        url: None,
        thumbnail_url: None,
        deletion_url: None,
        error_message: Some(message.to_string()),
        file_path: None,
    }
}

fn perform(step: Step) -> Action {
    match step {
        Step::Perform(action) => action,
        other => panic!("no action: {:?}", other),
    }
}

#[test]
fn empty_profile_list_gives_no_outcome_and_no_action() {
    let conf = config(vec![]);
    let mut delivery = Delivery::new(&conf, &[1, 2, 3], "png");
    assert!(delivery.is_finished());
    assert_eq!(delivery.next_action(), Step::Finished);
    assert_eq!(delivery.next_action(), Step::Finished);
    assert_eq!(delivery.settled(), 0);
    assert_eq!(delivery.finish(), vec![]);
}

#[test]
fn file_delivery_writes_one_file_with_the_bytes() {
    let conf = config(vec![file("disk", "/tmp/shots", "shot")]);
    let data = [7u8; 16];
    let mut delivery = Delivery::new(&conf, &data, "png");
    let action = perform(delivery.next_action());
    assert_eq!(
        action,
        Action::Write {
            directory: "/tmp/shots".to_string(),
            path: "/tmp/shots/shot.png".to_string(),
            bytes: data.to_vec(),
        }
    );
    assert!(delivery.is_waiting());
    delivery.record(Event::Written);
    assert_eq!(delivery.next_action(), Step::Finished);
    assert_eq!(
        delivery.finish(),
        vec![UploadResult {
            uploader_name: "disk".to_string(),
            url: None,
            thumbnail_url: None,
            deletion_url: None,
            error_message: None,
            file_path: Some("/tmp/shots/shot.png".to_string()),
        }]
    );
}

#[test]
fn file_name_takes_the_counter_of_the_configuration() {
    let conf = config(vec![file("disk", "d", "n%i")]);
    let mut delivery = Delivery::new(&conf, &[], "jpg");
    match perform(delivery.next_action()) {
        Action::Write { path, .. } => assert_eq!(path, "d/n5.jpg"),
        other => panic!("not a write: {:?}", other),
    }
}

#[test]
fn refused_reply_fails_one_destination_and_the_rest_still_run() {
    let conf = config(vec![http("first", Body::Binary), file("disk", "d", "shot")]);
    let mut delivery = Delivery::new(&conf, &[1], "png");
    match perform(delivery.next_action()) {
        Action::Send(request) => {
            assert_eq!(request.method, Method::Post);
            assert_eq!(request.url, "http://host/up");
        }
        other => panic!("not a request: {:?}", other),
    }
    delivery.record(Event::Response { status: 500, body: "server on fire".to_string() });
    assert!(!delivery.is_waiting());
    assert!(!delivery.is_finished());
    let next = perform(delivery.next_action());
    assert!(matches!(next, Action::Write { .. }));
    delivery.record(Event::Written);
    let outcomes = delivery.finish();
    assert_eq!(outcomes.len(), 2);
    assert_eq!(outcomes[0], failure("first", "500: server on fire"));
    assert!(!outcomes[0].is_success());
    assert!(outcomes[1].is_success());
    assert_eq!(outcomes[1].file_path, Some("d/shot.png".to_string()));
}

#[test]
fn accepted_reply_is_read_by_the_three_templates() {
    let conf = config(vec![http("imgur", Body::MultipartFormData)]);
    let mut delivery = Delivery::new(&conf, &[1, 2], "png");
    match perform(delivery.next_action()) {
        Action::Send(request) => assert_eq!(
            request.body,
            RequestBody::Multipart { name: "image".to_string(), file: vec![1, 2], fields: vec![] }
        ),
        other => panic!("not a request: {:?}", other),
    }
    delivery.record(Event::Response {
        status: 200,
        body: r#"{"data":{"link":"http://x/y","hash":"h1"}}"#.to_string(),
    });
    assert_eq!(
        delivery.finish(),
        vec![UploadResult {
            uploader_name: "imgur".to_string(),
            url: Some("http://x/y".to_string()),
            thumbnail_url: Some("".to_string()),
            deletion_url: Some("http://host/delete/h1".to_string()),
            error_message: None,
            file_path: None,
        }]
    );
}

#[test]
fn reply_outcome_by_status() {
    let u = http_destination("h", Body::Binary);
    let body = r#"{"data":{"link":"L","hash":"H"}}"#;
    for status in [200u16, 201, 204, 299] {
        let outcome = outcome_of_response(&u, status, body);
        assert!(outcome.is_success());
        assert_eq!(outcome.url, Some("L".to_string()));
    }
    for status in [0u16, 100, 199, 300, 404, 500, 65535] {
        let outcome = outcome_of_response(&u, status, "nope");
        assert_eq!(outcome, failure("h", &format!("{}: nope", status)));
    }
}

#[test]
fn reply_that_is_no_json_gives_empty_addresses() {
    let u = http_destination("h", Body::Binary);
    let outcome = outcome_of_response(&u, 200, "<html>ok</html>");
    assert!(outcome.is_success());
    assert_eq!(outcome.url, Some("".to_string()));
    assert_eq!(outcome.thumbnail_url, Some("".to_string()));
    assert_eq!(outcome.deletion_url, Some("http://host/delete/".to_string()));
}

#[test]
fn transport_failure_is_a_failure_outcome() {
    let conf = config(vec![http("a", Body::Binary), http("b", Body::Binary)]);
    let mut delivery = Delivery::new(&conf, &[], "png");
    perform(delivery.next_action());
    delivery.record(Event::Failed("dns error".to_string()));
    perform(delivery.next_action());
    delivery.record(Event::Response { status: 200, body: "{}".to_string() });
    let outcomes = delivery.finish();
    assert_eq!(outcomes[0], failure("a", "dns error"));
    assert_eq!(outcomes[1].uploader_name, "b");
    assert!(outcomes[1].is_success());
}

#[test]
fn write_failure_is_a_failure_outcome() {
    let conf = config(vec![file("disk", "/nowhere", "shot")]);
    let mut delivery = Delivery::new(&conf, &[], "png");
    perform(delivery.next_action());
    delivery.record(Event::Failed("permission denied".to_string()));
    assert_eq!(delivery.finish(), vec![failure("disk", "permission denied")]);
}

#[test]
fn payload_that_does_not_fit_settles_without_action() {
    let conf = config(vec![http("json", Body::JSON), http("form", Body::FormURLEncoded), file("disk", "d", "s")]);
    let data = [0xffu8, 0xfe];
    let mut delivery = Delivery::new(&conf, &data, "png");
    assert_eq!(delivery.next_action(), Step::Settled);
    assert!(!delivery.is_waiting());
    assert_eq!(delivery.settled(), 1);
    // The same bytes parse as a form of one key, so the second destination sends.
    let second = delivery.next_action();
    assert!(matches!(second, Step::Perform(Action::Send(_))));
    delivery.record(Event::Response { status: 204, body: "".to_string() });
    assert!(matches!(delivery.next_action(), Step::Perform(Action::Write { .. })));
    delivery.record(Event::Written);
    let outcomes = delivery.finish();
    assert_eq!(outcomes.len(), 3);
    assert_eq!(outcomes[0], failure("json", "the payload is not UTF-8 text"));
    assert!(outcomes[1].is_success());
    assert!(outcomes[2].is_success());
}

#[test]
fn nothing_happens_while_an_action_is_out() {
    let conf = config(vec![file("disk", "d", "shot")]);
    let mut delivery = Delivery::new(&conf, &[], "png");
    perform(delivery.next_action());
    assert_eq!(delivery.next_action(), Step::Waiting);
    assert_eq!(delivery.next_action(), Step::Waiting);
    assert_eq!(delivery.settled(), 0);
    delivery.record(Event::Written);
    assert_eq!(delivery.settled(), 1);
}

#[test]
fn event_without_action_is_dropped() {
    let conf = config(vec![file("disk", "d", "shot")]);
    let mut delivery = Delivery::new(&conf, &[], "png");
    delivery.record(Event::Written);
    delivery.record(Event::Failed("x".to_string()));
    assert_eq!(delivery.settled(), 0);
    assert!(matches!(delivery.next_action(), Step::Perform(_)));
}

#[test]
fn event_that_does_not_answer_the_action_fails_the_destination() {
    let conf = config(vec![file("disk", "d", "shot"), http("net", Body::Binary)]);
    let mut delivery = Delivery::new(&conf, &[], "png");
    perform(delivery.next_action());
    delivery.record(Event::Response { status: 200, body: "{}".to_string() });
    perform(delivery.next_action());
    delivery.record(Event::Written);
    assert_eq!(
        delivery.finish(),
        vec![
            failure("disk", "the event does not answer the action"),
            failure("net", "the event does not answer the action"),
        ]
    );
}

#[test]
fn outcomes_come_in_the_order_of_the_configuration() {
    let conf = config(vec![
        file("one", "d", "a"),
        http("two", Body::Binary),
        file("three", "d", "b"),
        http("four", Body::Binary),
    ]);
    let mut delivery = Delivery::new(&conf, &[1], "png");
    loop {
        match delivery.next_action() {
            Step::Finished => break,
            Step::Perform(Action::Send(_)) => {
                delivery.record(Event::Response { status: 200, body: "{}".to_string() })
            }
            Step::Perform(Action::Write { .. }) => delivery.record(Event::Written),
            Step::Settled => {}
            Step::Waiting => panic!("waiting with nothing out"),
        }
    }
    let names: Vec<String> = delivery.finish().into_iter().map(|o| o.uploader_name).collect();
    assert_eq!(names, vec!["one", "two", "three", "four"]);
}

#[test]
fn file_path_is_directory_name_and_extension() {
    assert_eq!(file_path_of("/home/u/Screenshots", "shot", "png"), "/home/u/Screenshots/shot.png");
    assert_eq!(file_path_of("", "", ""), "/.");
}

#[test]
fn simple_upload_delivers_once_as_png() {
    let conf = config(vec![file("disk", "d", "shot")]);
    let data = [1u8, 2, 3];
    let mut delivery = handle_simple_upload(&conf, &data);
    assert_eq!(delivery.settled(), 0);
    assert_eq!(
        perform(delivery.next_action()),
        Action::Write {
            directory: "d".to_string(),
            path: "d/shot.png".to_string(),
            bytes: vec![1, 2, 3],
        }
    );
    delivery.record(Event::Written);
    assert_eq!(delivery.next_action(), Step::Finished);
    assert_eq!(delivery.finish().len(), 1);
    assert_eq!(conf.last_index, 5);
}

#[test]
fn each_outcome_is_of_the_kind_of_its_destination() {
    let conf = config(vec![
        file("f1", "d", "a"),
        http("h1", Body::Binary),
        file("f2", "d", "b"),
        http("h2", Body::Binary),
        http("h3", Body::JSON),
    ]);
    let data = [0xffu8];
    let mut delivery = Delivery::new(&conf, &data, "png");
    let events = vec![
        Event::Written,
        Event::Response { status: 200, body: "{}".to_string() },
        Event::Failed("disk full".to_string()),
        Event::Response { status: 503, body: "busy".to_string() },
    ];
    let mut events = events.into_iter();
    loop {
        match delivery.next_action() {
            Step::Finished => break,
            Step::Perform(_) => delivery.record(events.next().unwrap()),
            Step::Settled => {}
            Step::Waiting => panic!("waiting with nothing out"),
        }
    }
    let outcomes = delivery.finish();
    assert_eq!(outcomes.len(), 5);
    let is_file = [true, false, true, false, false];
    for (outcome, file) in outcomes.iter().zip(is_file) {
        let address = outcome.url.is_some()
            || outcome.thumbnail_url.is_some()
            || outcome.deletion_url.is_some();
        if outcome.error_message.is_some() {
            assert!(outcome.file_path.is_none() && !address);
        } else if file {
            assert!(outcome.file_path.is_some() && !address);
        } else {
            assert!(outcome.file_path.is_none() && address);
        }
    }
    assert!(outcomes[0].is_success() && outcomes[1].is_success());
    assert!(!outcomes[2].is_success() && !outcomes[3].is_success() && !outcomes[4].is_success());
}

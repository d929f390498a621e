use delenix::config::{
    approval_of, has_distinct_keys, insert_pair, is_yes, recover, Approval, Body, Config,
    DestinationType, FileUploader, HttpUploader, ReadFailure, Recovery, Uploader,
};
use delenix::sharex;

fn pair(k: &str, v: &str) -> (String, String) {
    (k.to_string(), v.to_string())
}

fn sharex_config() -> sharex::Config {
    sharex::Config {
        name: "host".to_string(),
        destination_type: DestinationType::FileUploader,
        request_method: "PUT".to_string(),
        request_url: "https://host/".to_string(),
        parameters: vec![pair("a", "1")],
        headers: vec![pair("H", "v")],
        body: Body::JSON,
        arguments: vec![pair("x", "y")],
        file_form_name: "file".to_string(),
        url: "$json:url$".to_string(),
        thumbnail_url: "$json:thumb$".to_string(),
        deletion_url: "".to_string(),
        error_message: "$json:error$".to_string(),
    }
}

#[test]
fn sharex_uploader_becomes_a_network_destination() {
    assert_eq!(
        Uploader::from_sharex(sharex_config()),
        Uploader::HTTP(HttpUploader {
            name: "host".to_string(),
            destination_type: DestinationType::FileUploader,
            request_method: "PUT".to_string(),
            request_url: "https://host/".to_string(),
            parameters: Some(vec![pair("a", "1")]),
            headers: Some(vec![pair("H", "v")]),
            body: Body::JSON,
            arguments: Some(vec![pair("x", "y")]),
            file_form_name: Some("file".to_string()),
            url: "$json:url$".to_string(),
            thumbnail_url: Some("$json:thumb$".to_string()),
            deletion_url: Some("".to_string()),
            error_message: Some("$json:error$".to_string()),
        })
    );
}

#[test]
fn destination_is_shown_under_its_name() {
    assert_eq!(Uploader::from_sharex(sharex_config()).name(), "host");
    let file = Uploader::File(FileUploader {
        name: "disk".to_string(),
        file_path: "d".to_string(),
        file_name: "n".to_string(),
    });
    assert_eq!(file.name(), "disk");
}

#[test]
fn keys_are_distinct_or_not() {
    assert!(has_distinct_keys(&vec![]));
    assert!(has_distinct_keys(&vec![pair("a", "1")]));
    assert!(has_distinct_keys(&vec![pair("a", "1"), pair("b", "1"), pair("A", "1")]));
    assert!(!has_distinct_keys(&vec![pair("a", "1"), pair("b", "2"), pair("a", "3")]));
    assert!(!has_distinct_keys(&vec![pair("", "1"), pair("", "2")]));
}

#[test]
fn value_is_put_under_its_key() {
    let mut pairs = vec![];
    insert_pair(&mut pairs, "b".to_string(), "1".to_string());
    insert_pair(&mut pairs, "a".to_string(), "2".to_string());
    assert_eq!(pairs, vec![pair("b", "1"), pair("a", "2")]);
    insert_pair(&mut pairs, "b".to_string(), "3".to_string());
    assert_eq!(pairs, vec![pair("b", "3"), pair("a", "2")]);
    insert_pair(&mut pairs, "".to_string(), "4".to_string());
    assert_eq!(pairs, vec![pair("b", "3"), pair("a", "2"), pair("", "4")]);
    assert!(has_distinct_keys(&pairs));
}

#[test]
fn value_goes_to_the_first_place_of_a_key_that_stands_twice() {
    let mut pairs = vec![pair("k", "1"), pair("k", "2")];
    insert_pair(&mut pairs, "k".to_string(), "3".to_string());
    assert_eq!(pairs, vec![pair("k", "3"), pair("k", "2")]);
}

#[test]
fn destination_with_a_key_twice_is_not_valid() {
    let valid = Uploader::from_sharex(sharex_config());
    assert!(valid.is_valid());
    for field in 0..3 {
        let mut c = sharex_config();
        let twice = vec![pair("k", "1"), pair("k", "2")];
        match field {
            0 => c.parameters = twice,
            1 => c.headers = twice,
            _ => c.arguments = twice,
        }
        let uploader = Uploader::from_sharex(c);
        assert!(!uploader.is_valid());
        let conf = Config {
            uploaders: vec![valid.clone(), uploader],
            screenshotter: None,
            last_index: 0,
            copy_to_clipboard: false,
            copy_url_to_clipboard: false,
            freeze_screen: false,
            tessdata_path: None,
        };
        assert!(!conf.is_valid());
    }
}

#[test]
fn configuration_without_destinations_is_valid() {
    let conf = Config {
        uploaders: vec![],
        screenshotter: None,
        last_index: 0,
        copy_to_clipboard: false,
        copy_url_to_clipboard: false,
        freeze_screen: false,
        tessdata_path: None,
    };
    assert!(conf.is_valid());
}

#[test]
fn built_in_configuration() {
    let conf = Config::with_defaults("/home/u/Screenshots".to_string(), Some("/tess".to_string()));
    assert!(conf.is_valid());
    assert_eq!(conf.last_index, 0);
    assert!(conf.copy_to_clipboard);
    assert!(!conf.copy_url_to_clipboard);
    assert!(conf.freeze_screen);
    assert_eq!(conf.screenshotter, None);
    assert_eq!(conf.tessdata_path, Some("/tess".to_string()));
    assert_eq!(conf.uploaders.len(), 2);
    assert_eq!(
        conf.uploaders[0],
        Uploader::File(FileUploader {
            name: "File".to_string(),
            file_path: "/home/u/Screenshots".to_string(),
            file_name: "%r12".to_string(),
        })
    );
    assert_eq!(
        conf.uploaders[1],
        Uploader::HTTP(HttpUploader {
            name: "imgur".to_string(),
            destination_type: DestinationType::ImageUploader,
            request_method: "POST".to_string(),
            request_url: "https://api.imgur.com/3/image".to_string(),
            parameters: None,
            headers: Some(vec![pair("Authorization", "Client-ID 8c964e2b2514a95")]),
            body: Body::MultipartFormData,
            arguments: Some(vec![pair("type", "file")]),
            file_form_name: Some("image".to_string()),
            url: "$json:data.link$".to_string(),
            thumbnail_url: None,
            deletion_url: Some("http://imgur.com/delete/$json:data.deletehash$".to_string()),
            error_message: None,
        })
    );
}

#[test]
fn trimmed_answer_means_yes_or_no() {
    assert!(is_yes(""));
    assert!(is_yes("y"));
    assert!(!is_yes("Y"));
    assert!(!is_yes("n"));
    assert!(!is_yes("yes"));
    assert!(!is_yes(" y"));
}

#[test]
fn answer_approves_or_declines() {
    assert_eq!(approval_of(""), Approval::Approved);
    assert_eq!(approval_of("y"), Approval::Approved);
    assert_eq!(approval_of("n"), Approval::Declined);
    assert_eq!(approval_of("yes"), Approval::Declined);
}

#[test]
fn missing_file_is_written_where_nobody_objects() {
    assert_eq!(recover(ReadFailure::Missing, Approval::NonInteractive), Recovery::WriteDefaults);
    assert_eq!(recover(ReadFailure::Missing, Approval::Approved), Recovery::WriteDefaults);
    assert_eq!(recover(ReadFailure::Missing, Approval::Declined), Recovery::Fail);
}

#[test]
fn unreadable_file_fails_the_loading() {
    for approval in [Approval::NonInteractive, Approval::Approved, Approval::Declined] {
        assert_eq!(recover(ReadFailure::Unreadable, approval), Recovery::Fail);
    }
}

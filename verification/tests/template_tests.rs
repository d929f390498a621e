use delenix::template::{
    evaluate_json_path, first_match, is_plain_path, parse_custom_syntax, unresolved_spans,
};

#[test]
fn link_is_found_and_unquoted() {
    assert_eq!(
        parse_custom_syntax("$json:data.link$", r#"{"data":{"link":"http://x/y"}}"#),
        "http://x/y"
    );
}

#[test]
fn template_without_span_is_unchanged() {
    assert_eq!(parse_custom_syntax("http://host/fixed", "not json at all"), "http://host/fixed");
    assert_eq!(parse_custom_syntax("", "{"), "");
    assert_eq!(parse_custom_syntax("$json:$", "{}"), "$json:$");
    assert_eq!(parse_custom_syntax("$json:a", "{}"), "$json:a");
    assert_eq!(parse_custom_syntax("$json:{a}$", r#"{"a":1}"#), "$json:{a}$");
    assert_eq!(parse_custom_syntax("cost: 5$", "{}"), "cost: 5$");
}

#[test]
fn text_around_a_span_is_kept() {
    assert_eq!(
        parse_custom_syntax(
            "http://imgur.com/delete/$json:data.deletehash$",
            r#"{"data":{"deletehash":"abc123","link":"l"}}"#
        ),
        "http://imgur.com/delete/abc123"
    );
    assert_eq!(parse_custom_syntax("<$json:a$>", r#"{"a":"v"}"#), "<v>");
}

#[test]
fn invalid_json_under_a_span_gives_empty_text() {
    assert_eq!(parse_custom_syntax("a$json:data.link$b", "<html>"), "ab");
    assert_eq!(parse_custom_syntax("$json:data.link$", ""), "");
}

#[test]
fn unresolvable_path_gives_empty_text() {
    assert_eq!(parse_custom_syntax("[$json:nothing.here$]", r#"{"data":1}"#), "[]");
    assert_eq!(parse_custom_syntax("[$json:a..$]", r#"{"a":1}"#), "[]");
}

#[test]
fn values_other_than_strings_keep_their_json_text() {
    assert_eq!(parse_custom_syntax("$json:n$", r#"{"n":42}"#), "42");
    assert_eq!(parse_custom_syntax("$json:b$", r#"{"b":true}"#), "true");
    assert_eq!(parse_custom_syntax("$json:o$", r#"{"o":{"k":[1,2]}}"#), r#"{"k":[1,2]}"#);
    assert_eq!(parse_custom_syntax("$json:z$", r#"{"z":null}"#), "null");
}

#[test]
fn array_index_in_a_path() {
    assert_eq!(parse_custom_syntax("$json:files[0].url$", r#"{"files":[{"url":"u0"},{"url":"u1"}]}"#), "u0");
    assert_eq!(parse_custom_syntax("$json:files[1].url$", r#"{"files":[{"url":"u0"},{"url":"u1"}]}"#), "u1");
    assert_eq!(parse_custom_syntax("$json:files[7].url$", r#"{"files":[{"url":"u0"}]}"#), "");
}

#[test]
fn first_of_several_matches_is_taken() {
    assert_eq!(parse_custom_syntax("$json:.url$", r#"{"a":{"url":"first"},"b":{"url":"second"}}"#), "first");
}

#[test]
fn escapes_of_a_json_string_are_kept() {
    assert_eq!(parse_custom_syntax("$json:q$", r#"{"q":"a\"b"}"#), r#"a\"b"#);
}

#[test]
fn two_spans_between_braces() {
    assert_eq!(
        parse_custom_syntax("{$json:a$}{$json:b$}", r#"{"a":"x","b":"y"}"#),
        "{x}{y}"
    );
}

#[test]
fn each_span_is_resolved_on_its_own() {
    assert_eq!(parse_custom_syntax("$json:a$-$json:b$", r#"{"a":"1","b":"2"}"#), "1-2");
    assert_eq!(
        parse_custom_syntax("http://h/$json:a$/$json:b$.png", r#"{"a":"x","b":"y"}"#),
        "http://h/x/y.png"
    );
    assert_eq!(parse_custom_syntax("$json:a$$json:b$", r#"{"a":"x","b":"y"}"#), "xy");
}

#[test]
fn the_first_dollar_closes_a_span() {
    assert_eq!(parse_custom_syntax("$json:a$ costs 5$!", r#"{"a":"x"}"#), "x costs 5$!");
    assert_eq!(parse_custom_syntax("$json:$json:a$", r#"{"a":"x"}"#), "$json:x");
    assert_eq!(parse_custom_syntax("$json:a{$json:a$}", r#"{"a":"x"}"#), "$json:a{x}");
}

#[test]
fn filters_and_slices_with_the_step_zero_find_nothing() {
    assert_eq!(parse_custom_syntax("$json:a[?(@.b)]$", r#"{"a":[{"b":1}]}"#), "");
    assert_eq!(parse_custom_syntax("$json:a[0:2:0]$", r#"{"a":[1,2,3]}"#), "");
    assert_eq!(parse_custom_syntax("$json:a[::0]$", r#"{"a":[1,2,3]}"#), "");
    assert_eq!(parse_custom_syntax("$json:a[0:2:+0]$", r#"{"a":[1,2,3]}"#), "");
    assert_eq!(parse_custom_syntax("$json:a[0:2: 0]$", r#"{"a":[1,2,3]}"#), "");
    assert_eq!(parse_custom_syntax("$json:a[0:2:00]$", r#"{"a":[1,2,3]}"#), "");
    // A step that does not follow its colon at once is not read.
    assert_eq!(parse_custom_syntax("$json:a[0:2: 1]$", r#"{"a":[1,2,3]}"#), "");
}

#[test]
fn quoted_keys_unions_and_slices_are_answered() {
    assert_eq!(parse_custom_syntax("$json:['a b']$", r#"{"a b":"v"}"#), "v");
    assert_eq!(parse_custom_syntax("$json:a[\"b\"]$", r#"{"a":{"b":1}}"#), "1");
    assert_eq!(parse_custom_syntax("$json:a['b','c']$", r#"{"a":{"c":2,"b":1}}"#), "1");
    assert_eq!(parse_custom_syntax("$json:a[2,0]$", r#"{"a":[1,2,3]}"#), "3");
    assert_eq!(parse_custom_syntax("$json:a[1:3]$", r#"{"a":[1,2,3]}"#), "2");
    assert_eq!(parse_custom_syntax("$json:a[1:]$", r#"{"a":[1,2,3]}"#), "2");
    assert_eq!(parse_custom_syntax("$json:a[:2].b[1:]$", r#"{"a":[{"b":[7,8]}]}"#), "8");
    assert_eq!(parse_custom_syntax("$json:a[1:3:2]$", r#"{"a":[1,2,3]}"#), "2");
    assert_eq!(parse_custom_syntax("$json:a[::2]$", r#"{"a":[1,2,3]}"#), "1");
    assert_eq!(parse_custom_syntax("$json:a[0:3:10]$", r#"{"a":[1,2,3]}"#), "1");
    assert_eq!(parse_custom_syntax("$json:a[*]$", r#"{"a":[1,2,3]}"#), "1");
}

#[test]
fn spans_that_find_nothing_are_named() {
    let body = r#"{"a":"x","e":""}"#;
    assert_eq!(unresolved_spans("$json:a$", body), Vec::<String>::new());
    assert_eq!(unresolved_spans("no span", "not json"), Vec::<String>::new());
    assert_eq!(unresolved_spans("$json:e$", body), Vec::<String>::new());
    assert_eq!(unresolved_spans("$json:b$", body), vec!["b".to_string()]);
    assert_eq!(
        unresolved_spans("$json:b$/$json:a$/$json:c[?(@)]$", body),
        vec!["b".to_string(), "c[?(@)]".to_string()]
    );
    assert_eq!(
        unresolved_spans("$json:a$-$json:a.b$", "<html>"),
        vec!["a".to_string(), "a.b".to_string()]
    );
}

#[test]
fn plain_path_check() {
    let chars = |s: &str| s.chars().collect::<Vec<char>>();
    assert!(is_plain_path(&chars("data.link")));
    assert!(is_plain_path(&chars("files[0].url")));
    assert!(is_plain_path(&chars("")));
    assert!(is_plain_path(&chars("a[*].b")));
    assert!(is_plain_path(&chars("a['b','c']")));
    assert!(is_plain_path(&chars("a[1:2].b[3:]")));
    assert!(is_plain_path(&chars("a:b")));
    assert!(!is_plain_path(&chars("a[?(@.b)]")));
    assert!(!is_plain_path(&chars("?")));
    assert!(is_plain_path(&chars("a[0:1:2]")));
    assert!(is_plain_path(&chars("a[::9].b[::1]")));
    assert!(!is_plain_path(&chars("a[::0]")));
    assert!(!is_plain_path(&chars("a[::]")));
    assert!(!is_plain_path(&chars("a[0:1:")));
    assert!(!is_plain_path(&chars("a[0:1: 2]")));
    assert!(!is_plain_path(&chars("a:b:c")));
    assert!(is_plain_path(&chars(&"a".repeat(256))));
    assert!(!is_plain_path(&chars(&"a".repeat(257))));
}

#[test]
fn evaluate_one_path() {
    assert_eq!(evaluate_json_path(r#"{"data":{"link":"http://x/y"}}"#, "data.link"), "http://x/y");
    assert_eq!(evaluate_json_path(r#"{"data":{"link":"http://x/y"}}"#, "data.none"), "");
    assert_eq!(evaluate_json_path("nonsense", "data.link"), "");
    assert_eq!(evaluate_json_path(r#"{"a":1}"#, "a[?(@)]"), "");
    assert_eq!(evaluate_json_path(r#"{"a":1}"#, "a$b"), "1");
}

#[test]
fn first_match_strips_one_pair_of_quotes() {
    assert_eq!(first_match(&None), "");
    assert_eq!(first_match(&Some(vec![])), "");
    assert_eq!(first_match(&Some(vec!["\"abc\"".to_string(), "\"def\"".to_string()])), "abc");
    assert_eq!(first_match(&Some(vec!["12".to_string()])), "12");
    assert_eq!(first_match(&Some(vec!["\"\"".to_string()])), "");
    assert_eq!(first_match(&Some(vec!["\"".to_string()])), "\"");
    assert_eq!(first_match(&Some(vec!["\"\"x\"\"".to_string()])), "\"x\"");
    assert_eq!(first_match(&Some(vec!["\"open".to_string()])), "\"open");
}

use music_player::dispatch::{DeliveryPolicy, Dispatcher, DownloadTask};
use music_player::json::{
    fits_parser, parse_json, JsonValue, Step, MAX_EXPONENT_DIGITS, MAX_NAME_BYTES, MAX_NESTING,
};
use music_player::provider::{FieldError, ProviderConfig, Track};
use std::sync::mpsc::channel;

fn key(s: &str) -> Step {
    Step::Key(s.to_string())
}

fn songs_config() -> ProviderConfig {
    ProviderConfig {
        list_path: vec![key("result"), key("songs")],
        id_field: "id".to_string(),
        name_field: "name".to_string(),
        url_path: vec![key("data"), Step::Index(0), key("url")],
    }
}

fn track(id: u64, name: &str) -> Track {
    Track { id, name: name.to_string() }
}

/// Runs a whole pass, resolving each identifier through `resolve` and
/// recording every task handed out; every send succeeds or fails by `sent`.
fn run_pass(
    tracks: Vec<Track>,
    policy: DeliveryPolicy,
    resolve: &dyn Fn(u64) -> String,
    sent: bool,
) -> (Vec<u64>, Vec<DownloadTask>, Dispatcher) {
    let mut d = Dispatcher::new(tracks, policy);
    let mut asked = Vec::new();
    let mut tasks = Vec::new();
    while let Some(id) = d.next_track() {
        asked.push(id);
        if let Some(task) = d.on_resolved(resolve(id)) {
            tasks.push(task);
            d.on_delivery(sent);
        }
    }
    (asked, tasks, d)
}

const TWO_SONGS: &str =
    r#"{"result":{"songs":[{"id":1001,"name":"Song A"},{"id":1002,"name":"Song B"}]}}"#;

#[test]
fn one_of_two_tracks_resolves() {
    let tracks = songs_config().parse_tracks(TWO_SONGS);
    assert_eq!(tracks, vec![track(1001, "Song A"), track(1002, "Song B")]);
    let resolve = |id: u64| if id == 1001 { "https://cdn/1001.mp3".to_string() } else { String::new() };
    let (asked, tasks, d) = run_pass(tracks, DeliveryPolicy::BestEffort, &resolve, true);
    assert_eq!(asked, vec![1001, 1002]);
    assert_eq!(
        tasks,
        vec![DownloadTask { name: "Song A".to_string(), url: "https://cdn/1001.mp3".to_string() }]
    );
    assert_eq!(d.failures(), 0);
}

#[test]
fn closed_consumer_still_resolves_every_track() {
    let (tx, rx) = channel::<DownloadTask>();
    drop(rx);
    let tracks = vec![track(1001, "Song A"), track(1002, "Song B")];
    let mut d = Dispatcher::new(tracks, DeliveryPolicy::BestEffort);
    let mut resolutions = 0;
    let mut sends = 0;
    while let Some(id) = d.next_track() {
        resolutions += 1;
        if let Some(task) = d.on_resolved(format!("https://cdn/{}.mp3", id)) {
            sends += 1;
            d.on_delivery(tx.send(task).is_ok());
        }
    }
    assert_eq!(resolutions, 2);
    assert_eq!(sends, 2);
    assert_eq!(d.failures(), 2);
    assert!(!d.is_stopped());
}

#[test]
fn fail_fast_stops_after_first_failed_send() {
    let tracks = vec![track(1, "a"), track(2, "b"), track(3, "c")];
    let resolve = |id: u64| format!("u{}", id);
    let (asked, tasks, d) = run_pass(tracks, DeliveryPolicy::FailFast, &resolve, false);
    assert_eq!(asked, vec![1]);
    assert_eq!(tasks.len(), 1);
    assert_eq!(d.failures(), 1);
    assert!(d.is_stopped());
}

#[test]
fn tasks_follow_search_order_and_count_resolved() {
    let tracks = vec![track(5, "e"), track(3, "c"), track(9, "i"), track(1, "a")];
    let resolve = |id: u64| if id == 9 { String::new() } else { format!("u{}", id) };
    let (asked, tasks, _) = run_pass(tracks, DeliveryPolicy::BestEffort, &resolve, true);
    assert_eq!(asked, vec![5, 3, 9, 1]);
    let names: Vec<&str> = tasks.iter().map(|t| t.name.as_str()).collect();
    let urls: Vec<&str> = tasks.iter().map(|t| t.url.as_str()).collect();
    assert_eq!(names, vec!["e", "c", "a"]);
    assert_eq!(urls, vec!["u5", "u3", "u1"]);
    assert!(tasks.len() <= 4);
}

#[test]
fn nothing_resolves_nothing_delivered() {
    let tracks = vec![track(1, "a"), track(2, "b")];
    let resolve = |_id: u64| String::new();
    let (asked, tasks, d) = run_pass(tracks, DeliveryPolicy::BestEffort, &resolve, true);
    assert_eq!(asked, vec![1, 2]);
    assert!(tasks.is_empty());
    assert_eq!(d.failures(), 0);
}

#[test]
fn empty_search_delivers_nothing() {
    let d = Dispatcher::new(Vec::new(), DeliveryPolicy::BestEffort);
    assert_eq!(d.next_track(), None);
    assert_eq!(d.failures(), 0);
}

#[test]
fn missing_result_list_gives_no_tracks() {
    let cfg = songs_config();
    assert!(cfg.parse_tracks(r#"{"result":{}}"#).is_empty());
    assert!(cfg.parse_tracks(r#"{"code":200}"#).is_empty());
    assert!(cfg.parse_tracks(r#"{"result":{"songs":7}}"#).is_empty());
}

#[test]
fn text_that_is_not_json_gives_no_tracks() {
    assert!(songs_config().parse_tracks("<html>busy</html>").is_empty());
    assert!(songs_config().parse_tracks("").is_empty());
}

#[test]
fn missing_fields_become_placeholders() {
    let text = r#"{"result":{"songs":[{"id":"x","name":5},{"title":"t"},[1],{"id":7,"name":"ok"}]}}"#;
    let tracks = songs_config().parse_tracks(text);
    assert_eq!(
        tracks,
        vec![track(0, "error name"), track(0, "error name"), track(0, "error name"), track(7, "ok")]
    );
}

#[test]
fn negative_identifier_becomes_zero() {
    let tracks = songs_config().parse_tracks(r#"{"result":{"songs":[{"id":-4,"name":"n"}]}}"#);
    assert_eq!(tracks, vec![track(0, "n")]);
}

#[test]
fn title_field_for_radio_results() {
    let cfg = ProviderConfig {
        list_path: vec![key("data")],
        id_field: "id".to_string(),
        name_field: "title".to_string(),
        url_path: vec![key("data"), key("url")],
    };
    let tracks = cfg.parse_tracks(r#"{"data":[{"id":42,"title":"Night talk","name":"x"}]}"#);
    assert_eq!(tracks, vec![track(42, "Night talk")]);
    assert_eq!(cfg.parse_url(r#"{"data":{"url":"http://r/42.mp3"}}"#), "http://r/42.mp3");
}

#[test]
fn url_is_read_from_its_path() {
    let cfg = songs_config();
    let text = r#"{"data":[{"id":1001,"url":"https://cdn/1001.mp3"}],"code":200}"#;
    assert_eq!(cfg.parse_url(text), "https://cdn/1001.mp3");
}

#[test]
fn url_missing_or_null_is_empty() {
    let cfg = songs_config();
    assert_eq!(cfg.parse_url(r#"{"data":[{"id":1002,"url":null}]}"#), "");
    assert_eq!(cfg.parse_url(r#"{"data":[]}"#), "");
    assert_eq!(cfg.parse_url(r#"{"code":404}"#), "");
    assert_eq!(cfg.parse_url("not json"), "");
}

#[test]
fn parser_builds_the_document() {
    let doc = parse_json(r#"{"a":[1,-2,true,null,"s",{"b":2.5}]}"#).unwrap();
    let expected = JsonValue::Object(vec![(
        "a".to_string(),
        JsonValue::Array(vec![
            JsonValue::U64(1),
            JsonValue::I64(-2),
            JsonValue::Bool(true),
            JsonValue::Null,
            JsonValue::Str("s".to_string()),
            JsonValue::Object(vec![("b".to_string(), JsonValue::Real)]),
        ]),
    )]);
    assert_eq!(doc, expected);
    assert_eq!(parse_json("[1,"), None);
}

#[test]
fn paths_step_through_members_and_positions() {
    let doc = parse_json(r#"{"x":{"y":[10,20,30]}}"#).unwrap();
    let path = vec![key("x"), key("y"), Step::Index(2)];
    assert_eq!(doc.follow_path(&path), Some(&JsonValue::U64(30)));
    assert_eq!(doc.follow_path(&vec![key("x"), key("y"), Step::Index(3)]), None);
    assert_eq!(doc.follow_path(&vec![key("x"), Step::Index(0)]), None);
    assert_eq!(doc.follow_path(&Vec::new()), Some(&doc));
    assert_eq!(doc.find(&"x".to_string()).and_then(|v| v.find(&"z".to_string())), None);
    assert_eq!(JsonValue::Str("q".to_string()).as_string(), Some(&"q".to_string()));
    assert_eq!(JsonValue::U64(3).as_u64(), Some(3));
    assert_eq!(JsonValue::I64(3).as_u64(), None);
}

#[test]
fn read_track_names_the_missing_field() {
    let cfg = songs_config();
    let ok = parse_json(r#"{"id":1001,"name":"Song A"}"#).unwrap();
    assert_eq!(cfg.read_track(&ok), Ok(track(1001, "Song A")));
    let no_name = parse_json(r#"{"id":1001,"name":null}"#).unwrap();
    assert_eq!(cfg.read_track(&no_name), Err(FieldError::MissingName));
    let neither = parse_json(r#"{}"#).unwrap();
    assert_eq!(cfg.read_track(&neither), Err(FieldError::MissingName));
    let no_id = parse_json(r#"{"id":"1001","name":"Song A"}"#).unwrap();
    assert_eq!(cfg.read_track(&no_id), Err(FieldError::MissingId));
    assert_eq!(cfg.track_of(&no_id), track(0, "Song A"));
    assert_eq!(cfg.track_of(&no_name), track(1001, "error name"));
}

#[test]
fn field_readers_look_up_configured_names() {
    let cfg = songs_config();
    let e = parse_json(r#"{"id":12,"name":"n","title":"t"}"#).unwrap();
    assert_eq!(cfg.name_in(&e), Some(&"n".to_string()));
    assert_eq!(cfg.id_in(&e), Some(12));
    let arr = parse_json("[1]").unwrap();
    assert_eq!(cfg.name_in(&arr), None);
    assert_eq!(cfg.id_in(&arr), None);
}

#[test]
fn parser_limit_on_member_names() {
    assert_eq!(MAX_NAME_BYTES, 1023);
    let fits = format!("{{\"{}\":1}}", "a".repeat(1023));
    assert!(fits_parser(&fits));
    let too_long = format!("{{\"{}\" :1}}", "a".repeat(1024));
    assert!(!fits_parser(&too_long));
    let long_value = format!("{{\"a\":\"{}\"}}", "a".repeat(100000));
    assert!(fits_parser(&long_value));
    let long_in_array = format!("[\"{}\",1]", "a".repeat(5000));
    assert!(fits_parser(&long_in_array));
    assert!(fits_parser(""));
}

#[test]
fn trailing_comma_is_refused() {
    assert!(!fits_parser(r#"[{"x":{"a":1,},5]"#));
    assert!(!fits_parser("{\"a\":1, \n\t}"));
    assert!(!fits_parser("[1,]"));
    assert!(fits_parser(r#"{"a":1,"b":[1,2]}"#));
    assert!(fits_parser(r#"{"a":",}"}"#));
    let cfg = songs_config();
    assert!(cfg.parse_tracks(r#"[{"x":{"a":1,},5]"#).is_empty());
    assert_eq!(cfg.parse_url(r#"{"data":[{"url":"u",}]}"#), "");
}

#[test]
fn long_exponent_is_refused() {
    assert_eq!(MAX_EXPONENT_DIGITS, 19);
    assert!(fits_parser(&format!("[1e{}]", "9".repeat(19))));
    assert!(fits_parser(&format!("[1E-{}]", "9".repeat(19))));
    assert!(!fits_parser(&format!("[1e{}]", "2".repeat(20))));
    assert!(!fits_parser(&format!("[1.5e+{}]", "0".repeat(25))));
    assert!(fits_parser(&format!("[{}]", "1".repeat(40))));
    assert!(fits_parser(&format!("[\"e{}\"]", "1".repeat(40))));
    let cfg = songs_config();
    let text = r#"{"result":{"songs":[{"id":1,"name":"a","x":1e20000000000000000000}]}}"#;
    assert!(cfg.parse_tracks(text).is_empty());
}

#[test]
fn parser_limit_on_nesting() {
    assert_eq!(MAX_NESTING, 64);
    let deep = format!("{}{}", "[".repeat(64), "]".repeat(64));
    assert!(fits_parser(&deep));
    let deeper = format!("{}{}", "[".repeat(65), "]".repeat(65));
    assert!(!fits_parser(&deeper));
    let mixed = format!("{}{}", "{\"a\":".repeat(65), "}".repeat(65));
    assert!(!fits_parser(&mixed));
    let siblings = format!("[{}1]", "[1],".repeat(200));
    assert!(fits_parser(&siblings));
}

#[test]
fn brackets_in_strings_do_not_nest() {
    let quoted = format!("[\"{}\"]", "[".repeat(100));
    assert!(fits_parser(&quoted));
    let escaped_quote = format!("[\"\\\"{}\"]", "{".repeat(100));
    assert!(fits_parser(&escaped_quote));
    let after_string = format!("\"]]]]\"{}", "[".repeat(65));
    assert!(!fits_parser(&after_string));
    let unmatched_close = format!("]]]]{}", "[".repeat(65));
    assert!(!fits_parser(&unmatched_close));
}

#[test]
fn oversized_response_gives_nothing() {
    let cfg = songs_config();
    let long_name = format!("{{\"{}\":1}}", "\u{20ac}".repeat(23334));
    assert!(!fits_parser(&long_name));
    assert!(cfg.parse_tracks(&long_name).is_empty());
    assert_eq!(cfg.parse_url(&long_name), "");
    let deep = format!("{}{}", "[".repeat(100000), "]".repeat(100000));
    assert!(cfg.parse_tracks(&deep).is_empty());
    assert_eq!(cfg.parse_url(&deep), "");
}

#[test]
fn large_response_still_parses() {
    let cfg = songs_config();
    let padding = "x".repeat(200000);
    let text = format!(
        r#"{{"pad":"{}","result":{{"songs":[{{"id":7,"name":"deep"}}]}}}}"#,
        padding
    );
    assert!(text.len() > 65536);
    assert_eq!(cfg.parse_tracks(&text), vec![track(7, "deep")]);
    let nested = format!(
        r#"{{"data":[{{"url":"u","x":{}1{}}}]}}"#,
        "[".repeat(60),
        "]".repeat(60)
    );
    assert_eq!(cfg.parse_url(&nested), "u");
}

#[test]
fn complete_tracks_skip_elements_without_fields() {
    let cfg = songs_config();
    let text = r#"{"result":{"songs":[{"id":"x","name":"a"},{"id":2,"name":"b"},{"id":3},[1],{"id":4,"name":"d"}]}}"#;
    assert_eq!(cfg.parse_complete_tracks(text), vec![track(2, "b"), track(4, "d")]);
    assert!(cfg.parse_complete_tracks(r#"{"result":{}}"#).is_empty());
    assert!(cfg.parse_complete_tracks("nope").is_empty());
    let doc = parse_json(text).unwrap();
    assert_eq!(cfg.complete_tracks_in(&doc).len(), 2);
    assert_eq!(cfg.tracks_in(&doc).len(), 5);
}

#[test]
fn repeated_member_name_keeps_last_value() {
    let doc = parse_json(r#"{"b":1,"a":2,"b":3}"#).unwrap();
    let expected = JsonValue::Object(vec![
        ("a".to_string(), JsonValue::U64(2)),
        ("b".to_string(), JsonValue::U64(3)),
    ]);
    assert_eq!(doc, expected);
}

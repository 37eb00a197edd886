use ssc::cli::{
    display_literal, input_format_from_arg, output_format_from_arg, parse_input,
    protocol_from_arg, InputFormat, InputValue, LiteralError, OutputFormat,
};
use ssc::discovery::{process_message, Announcement, ProcessingError, SeenDevices, TxtValues};
use ssc::json::JsonValue;
use ssc::message::{
    build_json_message, encode_request, list_children, list_request, unpack_json_message,
    schema_entries, unserialize_json_message, ListChild, SchemaReply,
};
use ssc::path::{child_path_of, normalize_path, path_components};
use ssc::{Protocol, SSCVersion, SscError};

fn to_model(v: serde_json::Value) -> JsonValue {
    match v {
        serde_json::Value::Null => JsonValue::Null,
        serde_json::Value::Bool(b) => JsonValue::Bool(b),
        serde_json::Value::Number(n) => JsonValue::Number(n.to_string()),
        serde_json::Value::String(s) => JsonValue::String(s),
        serde_json::Value::Array(items) => {
            JsonValue::Array(items.into_iter().map(to_model).collect())
        }
        serde_json::Value::Object(map) => {
            JsonValue::Object(map.into_iter().map(|(k, v)| (k, to_model(v))).collect())
        }
    }
}

fn parse_model(text: &str) -> JsonValue {
    to_model(serde_json::from_str(text).unwrap())
}

fn text(bytes: Vec<u8>) -> String {
    String::from_utf8(bytes).unwrap()
}

#[test]
fn test_build_json_message() {
    let mut fields = serde_json::Map::new();
    fields.insert("value".to_string(), serde_json::Value::from(42u8));
    let content = serde_json::to_vec(&serde_json::Value::Object(fields)).unwrap();

    let got = text(build_json_message("/test/42", &content).unwrap());
    let want = r#"{"test":{"42":{"value":42}}}"#;

    assert_eq!(&got, want);
}

#[test]
fn test_unpack_json_message() {
    let got = unserialize_json_message(
        "/test/42",
        r#"{"test": {"42": {"value": 42 } } }"#,
    )
    .unwrap();
    let want = JsonValue::Object(vec![("value".to_string(), JsonValue::Number("42".to_string()))]);

    assert_eq!(got, want);
}

#[test]
fn unserialize_reports_parse_errors_first() {
    assert!(matches!(
        unserialize_json_message("/a", "{\"a\": "),
        Err(SscError::JsonParseError(_))
    ));
    assert!(matches!(
        unserialize_json_message("a", "not json"),
        Err(SscError::JsonParseError(_))
    ));
    assert!(matches!(unserialize_json_message("a", "{}"), Err(SscError::InvalidPath)));
    assert!(matches!(
        unserialize_json_message("/b", "{\"a\": 1}"),
        Err(SscError::UnexpectedPath)
    ));
    assert_eq!(
        unserialize_json_message("/", " [true, null] ").unwrap(),
        JsonValue::Array(vec![JsonValue::Bool(true), JsonValue::Null])
    );
}

#[test]
fn request_bytes_are_serde_json_text_of_request_value() {
    for path in ["/a", "/a/b", "/a//b", "/a/", "/", "/x\"y/z"] {
        let mut value = serde_json::Value::from(7u8);
        for component in path[1..].split('/').rev() {
            if component.is_empty() {
                value = serde_json::Value::Null;
            } else {
                let mut map = serde_json::Map::new();
                map.insert(component.to_string(), value);
                value = serde_json::Value::Object(map);
            }
        }
        let want = serde_json::to_vec(&value).unwrap();
        assert_eq!(build_json_message(path, b"7").unwrap(), want);
    }
}

#[test]
fn normalize_path_strips_leading_slash() {
    assert_eq!(normalize_path("/device/name").unwrap(), "device/name");
    assert_eq!(normalize_path("/").unwrap(), "");
    assert!(matches!(normalize_path("device"), Err(SscError::InvalidPath)));
    assert!(matches!(normalize_path(""), Err(SscError::InvalidPath)));
}

#[test]
fn path_components_keep_empty_pieces() {
    assert_eq!(path_components("/a/b").unwrap(), vec!["a", "b"]);
    assert_eq!(path_components("/a//b").unwrap(), vec!["a", "", "b"]);
    assert_eq!(path_components("/").unwrap(), vec![""]);
    assert_eq!(path_components("/a/").unwrap(), vec!["a", ""]);
    assert!(matches!(path_components("a/b"), Err(SscError::InvalidPath)));
}

#[test]
fn build_for_root_path_is_null() {
    assert_eq!(text(build_json_message("/", b"42").unwrap()), "null");
}

#[test]
fn build_with_empty_component_drops_content() {
    assert_eq!(text(build_json_message("/a//b", b"42").unwrap()), r#"{"a":null}"#);
    assert_eq!(text(build_json_message("/a/", b"42").unwrap()), r#"{"a":null}"#);
}

#[test]
fn build_escapes_keys_as_serde_json_does() {
    let got = text(build_json_message("/q\"b\\s\n\u{1}é", b"true").unwrap());
    assert_eq!(got, "{\"q\\\"b\\\\s\\n\\u0001é\":true}");
}

#[test]
fn build_refuses_invalid_path() {
    assert!(matches!(build_json_message("test", b"1"), Err(SscError::InvalidPath)));
}

#[test]
fn encode_request_ends_with_crlf() {
    let got = text(encode_request("/device/name", b"null").unwrap());
    assert_eq!(got, "{\"device\":{\"name\":null}}\r\n");
    assert!(matches!(encode_request("x", b"null"), Err(SscError::InvalidPath)));
}

#[test]
fn list_request_for_root_and_subpath() {
    assert_eq!(text(list_request("/").unwrap()), "{\"osc\":{\"schema\":null}}\r\n");
    assert_eq!(
        text(list_request("/device/identity").unwrap()),
        "{\"osc\":{\"schema\":[{\"device\":{\"identity\":null}}]}}\r\n"
    );
    assert!(matches!(list_request("device"), Err(SscError::InvalidPath)));
}

#[test]
fn unpack_root_path_returns_whole_reply() {
    let reply = parse_model(r#"{"a":1}"#);
    let got = unpack_json_message("/", reply).unwrap();
    assert_eq!(got, parse_model(r#"{"a":1}"#));
}

#[test]
fn unpack_reports_unexpected_path() {
    let missing = unpack_json_message("/a/b", parse_model(r#"{"a":{"c":1}}"#));
    assert!(matches!(missing, Err(SscError::UnexpectedPath)));
    let not_object = unpack_json_message("/a/b", parse_model(r#"{"a":[1]}"#));
    assert!(matches!(not_object, Err(SscError::UnexpectedPath)));
    let invalid = unpack_json_message("a", parse_model(r#"{"a":1}"#));
    assert!(matches!(invalid, Err(SscError::InvalidPath)));
}

#[test]
fn unpack_takes_first_entry_of_a_key() {
    let reply = JsonValue::Object(vec![
        ("k".to_string(), JsonValue::Bool(true)),
        ("k".to_string(), JsonValue::Bool(false)),
    ]);
    assert_eq!(unpack_json_message("/k", reply).unwrap(), JsonValue::Bool(true));
}

#[test]
fn request_and_reply_round_trip() {
    let request = build_json_message("/audio/out/level", b"[1,\"x\"]").unwrap();
    let as_reply = to_model(serde_json::from_slice(&request).unwrap());
    let got = unpack_json_message("/audio/out/level", as_reply).unwrap();
    assert_eq!(got, parse_model(r#"[1,"x"]"#));
}

#[test]
fn child_path_below_root_and_branch() {
    assert_eq!(child_path_of("/", "device"), "/device");
    assert_eq!(child_path_of("/device", "name"), "/device/name");
}

#[test]
fn list_children_sorts_entries() {
    let entries = vec![
        ("leaf".to_string(), JsonValue::Null),
        ("branch".to_string(), JsonValue::Object(vec![])),
    ];
    let got = list_children("/device", &entries).unwrap();
    assert_eq!(
        got,
        vec![
            ("leaf".to_string(), ListChild::Leaf),
            ("branch".to_string(), ListChild::Branch("/device/branch".to_string())),
        ]
    );
    let below_root = list_children("/", &entries).unwrap();
    assert_eq!(below_root[1].1, ListChild::Branch("/branch".to_string()));

    let bad = vec![
        ("leaf".to_string(), JsonValue::Null),
        ("number".to_string(), JsonValue::Number("1".to_string())),
    ];
    assert!(matches!(list_children("/", &bad), Err(SscError::InvalidPath)));
}

#[test]
fn child_path_addresses_the_entry() {
    let reply = parse_model(r#"{"device":{"name":"speaker","id":7}}"#);
    let child = child_path_of("/device", "name");
    assert_eq!(unpack_json_message(&child, reply).unwrap(), JsonValue::String("speaker".to_string()));
}

fn txt(txtvers: Option<&str>, sscvers: Option<&str>) -> TxtValues {
    TxtValues {
        txtvers: txtvers.map(|s| s.to_string()),
        sscvers: sscvers.map(|s| s.to_string()),
        model: Some("KH 120".to_string()),
        id: Some("1234".to_string()),
    }
}

#[test]
fn process_message_accepts_ssc_version_1() {
    let device =
        process_message("kh120", Some(txt(Some("1"), Some("1.0"))), Protocol::TCP, "fe80::1", 45)
            .unwrap();
    assert_eq!(device.name, "kh120");
    assert_eq!(device.ssc_version, SSCVersion::Version1);
    assert_eq!(device.protocol, Protocol::TCP);
    assert_eq!(device.address, "fe80::1");
    assert_eq!(device.port, 45);
    assert_eq!(device.model.as_deref(), Some("KH 120"));
    assert_eq!(device.id.as_deref(), Some("1234"));
}

#[test]
fn process_message_rejects_other_services() {
    let no_txt = process_message("x", None, Protocol::UDP, "10.0.0.1", 45);
    assert_eq!(no_txt.unwrap_err(), ProcessingError::NoTXTRecord);
    let wrong_txt = process_message("x", Some(txt(Some("2"), Some("1.0"))), Protocol::UDP, "a", 1);
    assert_eq!(wrong_txt.unwrap_err(), ProcessingError::InvalidTXTVersion);
    let no_txtvers = process_message("x", Some(txt(None, Some("1.0"))), Protocol::UDP, "a", 1);
    assert_eq!(no_txtvers.unwrap_err(), ProcessingError::InvalidTXTVersion);
    let wrong_ssc = process_message("x", Some(txt(Some("1"), Some("2.0"))), Protocol::UDP, "a", 1);
    assert_eq!(wrong_ssc.unwrap_err(), ProcessingError::InvalidSSCVersion);
    let bare_one = process_message("x", Some(txt(Some("1"), Some("1"))), Protocol::UDP, "a", 1);
    assert_eq!(bare_one.unwrap_err(), ProcessingError::InvalidSSCVersion);
    let no_ssc = process_message("x", Some(txt(Some("1"), None)), Protocol::UDP, "a", 1);
    assert_eq!(no_ssc.unwrap_err(), ProcessingError::InvalidSSCVersion);
}

#[test]
fn seen_devices_report_each_name_once() {
    let mut seen = SeenDevices::new();
    assert!(seen.observe("a"));
    assert!(seen.observe("b"));
    assert!(!seen.observe("a"));
    assert!(!seen.observe("b"));
    assert!(seen.observe("c"));
}

#[test]
fn announcements_are_decided_once_per_name() {
    let mut seen = SeenDevices::new();
    let first = seen.handle_announcement("dev", Some(txt(Some("1"), Some("1.2"))), Protocol::TCP, "::1", 45);
    assert!(matches!(first, Announcement::Device(ref d) if d.name == "dev" && d.port == 45));
    let again = seen.handle_announcement("dev", Some(txt(Some("1"), Some("1.2"))), Protocol::TCP, "::1", 45);
    assert!(matches!(again, Announcement::AlreadySeen));
    let other = seen.handle_announcement("printer", None, Protocol::UDP, "::2", 1);
    assert!(matches!(other, Announcement::Rejected(ProcessingError::NoTXTRecord)));
    let other_again = seen.handle_announcement("printer", Some(txt(Some("1"), Some("1.0"))), Protocol::UDP, "::2", 1);
    assert!(matches!(other_again, Announcement::AlreadySeen));
}

#[test]
fn mdns_names_of_protocols() {
    assert_eq!(Protocol::UDP.mdns_name(), "udp");
    assert_eq!(Protocol::TCP.mdns_name(), "tcp");
}

#[test]
fn command_line_names() {
    assert_eq!(protocol_from_arg("TCP"), Some(Protocol::TCP));
    assert_eq!(protocol_from_arg("UDP"), Some(Protocol::UDP));
    assert_eq!(protocol_from_arg("tcp"), None);
    assert_eq!(output_format_from_arg("literal"), Some(OutputFormat::Literal));
    assert_eq!(output_format_from_arg("json"), Some(OutputFormat::Json));
    assert_eq!(output_format_from_arg("xml"), None);
    assert_eq!(input_format_from_arg("string"), Some(InputFormat::String));
    assert_eq!(input_format_from_arg("number"), Some(InputFormat::Number));
    assert_eq!(input_format_from_arg("boolean"), Some(InputFormat::Boolean));
    assert_eq!(input_format_from_arg("json"), Some(InputFormat::Json));
    assert_eq!(input_format_from_arg("bool"), None);
}

#[test]
fn literal_display_of_values() {
    assert_eq!(display_literal(&JsonValue::Null).unwrap(), "null");
    assert_eq!(display_literal(&JsonValue::Bool(true)).unwrap(), "true");
    assert_eq!(display_literal(&JsonValue::Bool(false)).unwrap(), "false");
    assert_eq!(display_literal(&parse_model("-1.5")).unwrap(), "-1.5");
    assert_eq!(display_literal(&JsonValue::String("a\"b".to_string())).unwrap(), "a\"b");
    let array = display_literal(&JsonValue::Array(vec![])).unwrap_err();
    assert_eq!(array, LiteralError::IsArray);
    assert_eq!(
        array.message(),
        "Result is an array which can't be displayed as literal. Please specify `-o json`"
    );
    let object = display_literal(&JsonValue::Object(vec![])).unwrap_err();
    assert_eq!(object, LiteralError::IsObject);
    assert_eq!(
        object.message(),
        "Result is an object which can't be displayed as literal. Please specify `-o json`"
    );
}

#[test]
fn command_line_input_values() {
    assert_eq!(
        parse_input("hello", InputFormat::String).unwrap(),
        InputValue::Value(JsonValue::String("hello".to_string()))
    );
    assert_eq!(
        parse_input("true", InputFormat::Boolean).unwrap(),
        InputValue::Value(JsonValue::Bool(true))
    );
    assert_eq!(
        parse_input("yes", InputFormat::Boolean).unwrap(),
        InputValue::Value(JsonValue::Bool(false))
    );
    assert_eq!(
        parse_input("1.5", InputFormat::Number).unwrap(),
        InputValue::NumberText("1.5".to_string())
    );
    assert_eq!(
        parse_input("[1, {\"b\": \"c\"}]", InputFormat::Json).unwrap(),
        InputValue::Value(JsonValue::Array(vec![
            JsonValue::Number("1".to_string()),
            JsonValue::Object(vec![("b".to_string(), JsonValue::String("c".to_string()))]),
        ]))
    );
    assert!(parse_input("[1", InputFormat::Json).is_err());
}

#[test]
fn components_rebuild_path() {
    for path in ["/", "/a", "/a/b", "/a//b/", "/ü/x y"] {
        let parts = path_components(path).unwrap();
        assert!(parts.iter().all(|p| !p.contains('/')));
        assert_eq!(format!("/{}", parts.join("/")), path);
    }
}

#[test]
fn schema_entries_read_the_listing() {
    let listing = parse_model(r#"[{"device":{"name":null,"identity":{}}}]"#);
    let got = schema_entries("/device", listing).unwrap();
    assert_eq!(
        got,
        SchemaReply::Entries(vec![
            ("identity".to_string(), JsonValue::Object(vec![])),
            ("name".to_string(), JsonValue::Null),
        ])
    );
    let root = schema_entries("/", parse_model(r#"[{"a":null}]"#)).unwrap();
    assert_eq!(root, SchemaReply::Entries(vec![("a".to_string(), JsonValue::Null)]));
}

#[test]
fn schema_entries_report_shapes() {
    assert_eq!(
        schema_entries("/", JsonValue::Null).unwrap(),
        SchemaReply::NotAnArray(JsonValue::Null)
    );
    assert_eq!(schema_entries("/", JsonValue::Array(vec![])).unwrap(), SchemaReply::EmptyArray);
    assert_eq!(
        schema_entries("/a", parse_model(r#"[{"a":1}]"#)).unwrap(),
        SchemaReply::NotAnObject(JsonValue::Number("1".to_string()))
    );
    assert!(matches!(
        schema_entries("/b", parse_model(r#"[{"a":{}}]"#)),
        Err(SscError::UnexpectedPath)
    ));
    assert!(matches!(
        schema_entries("b", parse_model(r#"[{"a":{}}]"#)),
        Err(SscError::InvalidPath)
    ));
}

use dogtail::json::{find_member, same_text, Json};
use dogtail::logs::LogFormat;
use dogtail::tags::{build_tag_object, unpack_tags};
use dogtail::text::split;
use dogtail::JsonKey;

fn s(text: &str) -> Json {
    Json::Str(text.to_string())
}

fn obj(members: Vec<(&str, Json)>) -> Json {
    Json::Object(members.into_iter().map(|(k, v)| (k.to_string(), v)).collect())
}

fn sample_event() -> Json {
    obj(vec![
        ("id", s("e1")),
        (
            "attributes",
            obj(vec![("timestamp", s("t")), ("status", s("OK")), ("message", s("m"))]),
        ),
    ])
}

#[test]
fn split_keeps_empty_pieces() {
    assert_eq!(split("a.b.c", '.'), vec!["a", "b", "c"]);
    assert_eq!(split("", '.'), vec![""]);
    assert_eq!(split("a.", '.'), vec!["a", ""]);
    assert_eq!(split(".a", '.'), vec!["", "a"]);
    assert_eq!(split("a..b", '.'), vec!["a", "", "b"]);
    assert_eq!(split("plain", '.'), vec!["plain"]);
    assert_eq!(split("é.ü", '.'), vec!["é", "ü"]);
}

#[test]
fn same_text_compares_contents() {
    assert!(same_text("abc", "abc"));
    assert!(!same_text("abc", "abd"));
    assert!(!same_text("abc", "ab"));
    assert!(same_text("", ""));
}

#[test]
fn key_parses_dotted_path() {
    let key = JsonKey::parse("attributes.tags.pod_name");
    assert_eq!(key.0, vec!["attributes", "tags", "pod_name"]);
}

#[test]
fn key_follows_path_into_objects() {
    let event = sample_event();
    assert_eq!(JsonKey::parse("attributes.status").get(&event), Some(&s("OK")));
    assert_eq!(JsonKey::parse("id").get(&event), Some(&s("e1")));
}

#[test]
fn key_gives_nothing_for_missing_segment() {
    let event = sample_event();
    assert_eq!(JsonKey::parse("attributes.nope").get(&event), None);
    assert_eq!(JsonKey::parse("nope.status").get(&event), None);
    assert_eq!(JsonKey::parse("id.deeper").get(&event), None);
    assert_eq!(JsonKey::parse("").get(&event), None);
}

#[test]
fn key_does_not_index_arrays() {
    let event = obj(vec![("list", Json::Array(vec![s("x")]))]);
    assert_eq!(JsonKey::parse("list.0").get(&event), None);
}

#[test]
fn later_member_hides_earlier() {
    let members = vec![
        ("a".to_string(), Json::Int(1)),
        ("b".to_string(), Json::Int(2)),
        ("a".to_string(), Json::Int(3)),
    ];
    assert_eq!(find_member(&members, "a"), Some(2));
    assert_eq!(find_member(&members, "b"), Some(1));
    assert_eq!(find_member(&members, "c"), None);
    assert_eq!(Json::Object(members).member("a"), Some(&Json::Int(3)));
}

#[test]
fn member_of_what_is_no_object_is_nothing() {
    assert_eq!(s("x").member("a"), None);
    assert_eq!(Json::Array(vec![]).member("a"), None);
    assert_eq!(Json::Null.member("a"), None);
}

#[test]
fn text_and_items_only_of_their_kind() {
    assert_eq!(s("x").as_str(), Some("x"));
    assert_eq!(Json::Int(1).as_str(), None);
    assert_eq!(Json::Array(vec![Json::Null]).as_array(), Some(&vec![Json::Null]));
    assert_eq!(s("x").as_array(), None);
}

#[test]
fn default_format_projects_three_fields() {
    let line = LogFormat::default().format(&sample_event());
    assert_eq!(line, "t | OK | m");
}

#[test]
fn default_format_is_three_attribute_paths() {
    match LogFormat::default() {
        LogFormat::Text { sep, keys } => {
            assert_eq!(sep, " | ");
            assert_eq!(
                keys,
                vec![
                    JsonKey::parse("attributes.timestamp"),
                    JsonKey::parse("attributes.status"),
                    JsonKey::parse("attributes.message"),
                ]
            );
        }
        LogFormat::Structured => panic!("the default is a projection"),
    }
}

#[test]
fn missing_path_renders_in_its_position() {
    let event = obj(vec![("attributes", obj(vec![("timestamp", s("t")), ("message", s("m"))]))]);
    assert_eq!(LogFormat::default().format(&event), "t | KEY_NOT_FOUND | m");
    assert_eq!(
        LogFormat::default().format(&Json::Null),
        "KEY_NOT_FOUND | KEY_NOT_FOUND | KEY_NOT_FOUND"
    );
}

#[test]
fn projection_of_no_keys_is_empty() {
    let format = LogFormat::text(", ".to_string(), vec![]);
    assert_eq!(format.format(&sample_event()), "");
}

#[test]
fn projection_of_one_key_has_no_separator() {
    let format = LogFormat::text(", ".to_string(), vec![JsonKey::parse("id")]);
    assert_eq!(format.format(&sample_event()), "e1");
}

#[test]
fn other_documents_render_in_debug_form() {
    let event = obj(vec![
        ("n", Json::Int(5)),
        ("neg", Json::Int(-7)),
        ("b", Json::Bool(true)),
        ("z", Json::Null),
        ("r", Json::Real("1.5".to_string())),
        ("l", Json::Array(vec![Json::Int(1), s("x")])),
        ("o", obj(vec![("k", s("v"))])),
    ]);
    let format = LogFormat::text(
        ";".to_string(),
        vec![
            JsonKey::parse("n"),
            JsonKey::parse("neg"),
            JsonKey::parse("b"),
            JsonKey::parse("z"),
            JsonKey::parse("r"),
            JsonKey::parse("l"),
            JsonKey::parse("o"),
        ],
    );
    assert_eq!(
        format.format(&event),
        "Number(5);Number(-7);Bool(true);Null;Number(1.5);Array [Number(1), String(\"x\")];Object {\"k\": String(\"v\")}"
    );
}

#[test]
fn structured_format_is_compact_json() {
    let event = obj(vec![
        ("id", s("e1")),
        ("n", Json::Int(3)),
        ("list", Json::Array(vec![Json::Bool(false), Json::Null])),
    ]);
    assert_eq!(
        LogFormat::Structured.format(&event),
        "{\"id\":\"e1\",\"list\":[false,null],\"n\":3}"
    );
    assert_eq!(LogFormat::format_raw(&s("a\"b")), "\"a\\\"b\"");
}

#[test]
fn format_field_takes_strings_literally() {
    let event = sample_event();
    assert_eq!(LogFormat::format_field(&JsonKey::parse("attributes.message"), &event), "m");
    assert_eq!(LogFormat::format_field(&JsonKey::parse("attributes.none"), &event), "KEY_NOT_FOUND");
}

#[test]
fn tag_object_maps_keys_to_values() {
    let tags = vec![s("env:prod"), s("pod_name:web-1"), Json::Int(4), s("bare"), s("a:b:c")];
    let doc = build_tag_object(&tags);
    assert_eq!(doc.member("env"), Some(&s("prod")));
    assert_eq!(doc.member("pod_name"), Some(&s("web-1")));
    assert_eq!(doc.member("bare"), Some(&s("")));
    assert_eq!(doc.member("a"), Some(&s("b")));
    assert_eq!(doc.member("c"), None);
    match doc {
        Json::Object(members) => assert_eq!(members.len(), 4),
        _ => panic!("tags unpack to an object"),
    }
}

#[test]
fn later_tag_replaces_earlier_of_same_key() {
    let tags = vec![s("env:prod"), s("team:a"), s("env:dev")];
    let doc = build_tag_object(&tags);
    assert_eq!(
        doc,
        obj(vec![("env", s("dev")), ("team", s("a"))])
    );
}

#[test]
fn unpack_rewrites_tag_list_in_place() {
    let event = obj(vec![
        ("id", s("e1")),
        (
            "attributes",
            obj(vec![
                ("status", s("OK")),
                ("tags", Json::Array(vec![s("pod_name:web-1"), s("env:prod")])),
                ("message", s("m")),
            ]),
        ),
        ("type", s("log")),
    ]);
    let expected = obj(vec![
        ("id", s("e1")),
        (
            "attributes",
            obj(vec![
                ("status", s("OK")),
                ("tags", obj(vec![("pod_name", s("web-1")), ("env", s("prod"))])),
                ("message", s("m")),
            ]),
        ),
        ("type", s("log")),
    ]);
    let unpacked = unpack_tags(event);
    assert_eq!(unpacked, expected);
    assert_eq!(JsonKey::parse("attributes.tags.pod_name").get(&unpacked), Some(&s("web-1")));
}

#[test]
fn unpack_leaves_event_without_tag_list() {
    assert_eq!(unpack_tags(sample_event()), sample_event());
    let odd = obj(vec![("attributes", obj(vec![("tags", s("not a list"))]))]);
    assert_eq!(
        unpack_tags(odd),
        obj(vec![("attributes", obj(vec![("tags", s("not a list"))]))])
    );
    assert_eq!(unpack_tags(Json::Int(1)), Json::Int(1));
}

#[test]
fn unpack_of_empty_tag_list_is_empty_object() {
    let event = obj(vec![("attributes", obj(vec![("tags", Json::Array(vec![]))]))]);
    assert_eq!(
        unpack_tags(event),
        obj(vec![("attributes", obj(vec![("tags", obj(vec![]))]))])
    );
}

#[test]
fn key_comes_from_strings() {
    assert_eq!(JsonKey::from("a.b"), JsonKey::parse("a.b"));
    assert_eq!(JsonKey::from("a.b".to_string()).0, vec!["a", "b"]);
}

#[test]
fn numbers_beyond_the_wire_render_as_null() {
    assert_eq!(LogFormat::format_raw(&Json::Int(u64::MAX as i128)), "18446744073709551615");
    assert_eq!(LogFormat::format_raw(&Json::Int(i64::MIN as i128)), "-9223372036854775808");
    assert_eq!(LogFormat::format_raw(&Json::Int(u64::MAX as i128 + 1)), "null");
    assert_eq!(LogFormat::format_raw(&Json::Real("2.5e3".to_string())), "2500.0");
    assert_eq!(LogFormat::format_raw(&Json::Real("two".to_string())), "null");
}

#[test]
fn later_member_wins_in_renderings() {
    let doc = Json::Object(vec![
        ("a".to_string(), Json::Int(1)),
        ("a".to_string(), Json::Int(2)),
    ]);
    assert_eq!(LogFormat::format_raw(&doc), "{\"a\":2}");
    assert_eq!(doc.member("a"), Some(&Json::Int(2)));
}

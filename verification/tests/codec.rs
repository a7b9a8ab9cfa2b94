use conductor::{decode_task_def, encode_task_def, encode_task_defs, Kind, TaskDef};

#[test]
fn round_trip_keeps_the_name() {
    let task_def = TaskDef::new("eat_spam".to_string());
    let json = encode_task_def(&task_def);
    let back = decode_task_def(&json).expect("decoded");
    assert_eq!(back.name(), "eat_spam");
}

#[test]
fn round_trip_keeps_a_name_needing_escapes() {
    let name = "a\"b\\c\nd\te\u{1}f";
    let task_def = TaskDef::new(name.to_string());
    let json = encode_task_def(&task_def);
    let back = decode_task_def(&json).expect("decoded");
    assert_eq!(back.name(), name);
}

#[test]
fn encode_escapes_quotes_and_control_characters() {
    let task_def = TaskDef::new("a\"b\\c\nd\u{1}".to_string());
    let json = encode_task_def(&task_def);
    assert_eq!(json, "{\"name\":\"a\\\"b\\\\c\\nd\\u0001\"}");
}

#[test]
fn encode_list_keeps_order_and_shape() {
    let task_defs = vec![
        TaskDef::new("get_spam".to_string()),
        TaskDef::new("eat_spam".to_string()),
    ];
    let json = encode_task_defs(&task_defs);
    assert_eq!(json, "[{\"name\":\"get_spam\"},{\"name\":\"eat_spam\"}]");
}

#[test]
fn encode_empty_list_is_an_empty_array() {
    let task_defs: Vec<TaskDef> = Vec::new();
    assert_eq!(encode_task_defs(&task_defs), "[]");
}

#[test]
fn decode_missing_name_is_a_serialization_error() {
    let err = decode_task_def("{\"other\": 1}").expect_err("no name");
    assert!(matches!(err.kind(), Kind::Serialization));
    assert!(err.source().is_none());
    let err = decode_task_def("{}").expect_err("no name");
    assert!(matches!(err.kind(), Kind::Serialization));
}

#[test]
fn decode_ignores_unknown_fields() {
    let json = "{\"x\": [1, {\"y\": null}, -2.5e3], \"name\": \"eat_spam\", \"z\": true}";
    let task_def = decode_task_def(json).expect("decoded");
    assert_eq!(task_def.name(), "eat_spam");
}

#[test]
fn decode_rejects_a_duplicate_name() {
    let err = decode_task_def("{\"name\": \"a\", \"name\": \"b\"}").expect_err("duplicate");
    assert!(matches!(err.kind(), Kind::Serialization));
}

#[test]
fn decode_rejects_a_non_string_name() {
    let err = decode_task_def("{\"name\": 3}").expect_err("not a string");
    assert!(matches!(err.kind(), Kind::Serialization));
}

#[test]
fn decode_rejects_malformed_json() {
    assert!(decode_task_def("").is_err());
    assert!(decode_task_def("[]").is_err());
    assert!(decode_task_def("{\"name\": \"a\"").is_err());
    assert!(decode_task_def("{\"name\": \"a\"} trailing").is_err());
    assert!(decode_task_def("{\"name\": \"a\",}").is_err());
}

#[test]
fn decode_reads_unicode_escapes() {
    let task_def = decode_task_def("{\"name\": \"\\u0041\\u00e9\"}").expect("decoded");
    assert_eq!(task_def.name(), "A\u{e9}");
}

#[test]
fn decode_reads_surrogate_pairs() {
    let task_def = decode_task_def("{\"name\": \"\\uD83D\\uDE00\"}").expect("decoded");
    assert_eq!(task_def.name(), "\u{1F600}");
}

#[test]
fn decode_rejects_a_lone_surrogate() {
    assert!(decode_task_def("{\"name\": \"\\uD83D\"}").is_err());
    assert!(decode_task_def("{\"name\": \"\\uDE00\"}").is_err());
}

#[test]
fn decode_rejects_raw_control_characters_in_strings() {
    assert!(decode_task_def("{\"name\": \"a\nb\"}").is_err());
}

#[test]
fn decode_tolerates_duplicate_unknown_fields() {
    let json = "{\"x\": 1, \"x\": 2, \"name\": \"eat_spam\"}";
    let task_def = decode_task_def(json).expect("decoded");
    assert_eq!(task_def.name(), "eat_spam");
}

use ccgui::json::{as_array, as_str, as_u64, member, parse_json, Json};

fn text(s: &str) -> Json {
    Json::Str(s.to_string())
}

#[test]
fn values_of_every_kind_are_read() {
    assert_eq!(parse_json("null"), Some(Json::Null));
    assert_eq!(parse_json(" true "), Some(Json::Bool(true)));
    assert_eq!(parse_json("false"), Some(Json::Bool(false)));
    assert_eq!(parse_json("7"), Some(Json::Number(Some(7))));
    assert_eq!(parse_json("18446744073709551615"), Some(Json::Number(Some(u64::MAX))));
    assert_eq!(parse_json("18446744073709551616"), Some(Json::Number(None)));
    assert_eq!(parse_json("-1"), Some(Json::Number(None)));
    assert_eq!(parse_json("1.0"), Some(Json::Number(None)));
    assert_eq!(parse_json("\"a\\n\\u00e9\""), Some(text("a\né")));
    assert_eq!(
        parse_json("[1, [\"x\"], {}]"),
        Some(Json::Array(vec![
            Json::Number(Some(1)),
            Json::Array(vec![text("x")]),
            Json::Object(vec![]),
        ])),
    );
}

#[test]
fn what_is_no_json_is_not_read() {
    for line in ["", " ", "x", "{", "{}{}", "[1,]", "'a'", "\"a", "nul"] {
        assert_eq!(parse_json(line), None, "{:?}", line);
    }
    let deep = format!("{}{}", "[".repeat(200), "]".repeat(200));
    assert_eq!(parse_json(&deep), None);
    let shallow = format!("{}{}", "[".repeat(100), "]".repeat(100));
    assert!(parse_json(&shallow).is_some());
}

#[test]
fn members_are_found_by_name() {
    let value = parse_json("{\"b\": 1, \"a\": {\"x\": \"y\"}, \"b\": 2}").unwrap();
    assert_eq!(as_u64(member(Some(&value), "b")), Some(2));
    assert_eq!(as_str(member(member(Some(&value), "a"), "x")), Some("y"));
    assert_eq!(member(Some(&value), "c"), None);
    assert_eq!(member(member(Some(&value), "b"), "x"), None);
    assert_eq!(member(None, "b"), None);
}

#[test]
fn the_first_of_two_members_counts() {
    let value = Json::Object(vec![
        ("k".to_string(), Json::Number(Some(1))),
        ("k".to_string(), Json::Number(Some(2))),
    ]);
    assert_eq!(as_u64(member(Some(&value), "k")), Some(1));
}

#[test]
fn a_value_is_only_what_it_is() {
    let values = [
        Json::Null,
        Json::Bool(true),
        Json::Number(None),
        Json::Number(Some(3)),
        text("t"),
        Json::Array(vec![Json::Null]),
        Json::Object(vec![]),
    ];
    for (i, value) in values.iter().enumerate() {
        assert_eq!(as_str(Some(value)).is_some(), i == 4);
        assert_eq!(as_u64(Some(value)).is_some(), i == 3);
        assert_eq!(as_array(Some(value)).is_some(), i == 5);
    }
    assert_eq!(as_str(None), None);
    assert_eq!(as_u64(None), None);
    assert_eq!(as_array(None), None);
}

use avicore::json::{get_nested_value, hashmap_value_to_string, set_nested_value, value_to_string, JsonValue};

fn s(x: &str) -> String {
    String::from(x)
}

fn sample() -> JsonValue {
    JsonValue::Object(vec![
        (
            s("profile"),
            JsonValue::Object(vec![
                (s("name"), JsonValue::Str(s("João"))),
                (s("age"), JsonValue::Number(s("30"))),
            ]),
        ),
        (s("active"), JsonValue::Bool(true)),
    ])
}

#[test]
fn get_nested_value_follows_path() {
    let v = sample();
    match get_nested_value(&v, "profile.name") {
        Some(JsonValue::Str(n)) => assert_eq!(n, "João"),
        other => panic!("unexpected {:?}", other),
    }
    assert!(get_nested_value(&v, "profile.missing").is_none());
    assert!(get_nested_value(&v, "active.x").is_none());
}

#[test]
fn set_then_get_gives_value_back() {
    let mut v = sample();
    assert_eq!(set_nested_value(&mut v, "profile.nickname", JsonValue::Str(s("Johnny"))), Ok(()));
    match get_nested_value(&v, "profile.nickname") {
        Some(JsonValue::Str(n)) => assert_eq!(n, "Johnny"),
        other => panic!("unexpected {:?}", other),
    }
    match get_nested_value(&v, "profile.name") {
        Some(JsonValue::Str(n)) => assert_eq!(n, "João"),
        other => panic!("unexpected {:?}", other),
    }
}

#[test]
fn set_replaces_existing_member() {
    let mut v = sample();
    assert_eq!(set_nested_value(&mut v, "active", JsonValue::Bool(false)), Ok(()));
    assert_eq!(value_to_string(&v), "{\"profile\": {\"name\": João, \"age\": 30}, \"active\": false}");
}

#[test]
fn set_nested_value_errors_leave_value_unchanged() {
    let mut v = sample();
    let before = value_to_string(&v);
    assert_eq!(
        set_nested_value(&mut v, "missing.name", JsonValue::Null),
        Err(s("Path not found: missing"))
    );
    assert_eq!(
        set_nested_value(&mut v, "active.flag", JsonValue::Null),
        Err(s("Cannot set field on non-object at: flag"))
    );
    assert_eq!(
        set_nested_value(&mut v, "active.x.y", JsonValue::Null),
        Err(s("Path not found: x"))
    );
    let mut scalar = JsonValue::Number(s("1"));
    assert_eq!(
        set_nested_value(&mut scalar, "x", JsonValue::Null),
        Err(s("Cannot set field on non-object at: x"))
    );
    assert_eq!(value_to_string(&v), before);
}

#[test]
fn value_to_string_shapes() {
    assert_eq!(value_to_string(&JsonValue::Null), "null");
    assert_eq!(value_to_string(&JsonValue::Bool(true)), "true");
    assert_eq!(value_to_string(&JsonValue::Number(s("2.5"))), "2.5");
    assert_eq!(value_to_string(&JsonValue::Str(s("hi"))), "hi");
    let arr = JsonValue::Array(vec![JsonValue::Number(s("1")), JsonValue::Str(s("a")), JsonValue::Array(vec![])]);
    assert_eq!(value_to_string(&arr), "[1, a, []]");
    assert_eq!(value_to_string(&JsonValue::Object(vec![])), "{}");
}

#[test]
fn hashmap_value_to_string_keeps_keys() {
    let m = vec![(s("a"), JsonValue::Number(s("1"))), (s("b"), JsonValue::Str(s("x")))];
    assert_eq!(hashmap_value_to_string(&m), vec![(s("a"), s("1")), (s("b"), s("x"))]);
}

use avicore::json::JsonValue;
use avicore::slots::{
    assert_equal, assert_in, assert_in_dict, assert_in_dict_keys, find_slot, get, get_raw,
    has_slot, require, Slot,
};

fn s(x: &str) -> String {
    String::from(x)
}

fn slots() -> Vec<Slot> {
    vec![
        Slot { slot_name: s("room"), raw_value: s("the kitchen"), value: JsonValue::Str(s("kitchen")) },
        Slot { slot_name: s("level"), raw_value: s("fifty"), value: JsonValue::Number(s("50")) },
        Slot { slot_name: s("room"), raw_value: s("hall"), value: JsonValue::Str(s("hall")) },
    ]
}

#[test]
fn finding_slots() {
    let sl = slots();
    assert_eq!(find_slot(&sl, "room"), Some(0));
    assert_eq!(find_slot(&sl, "level"), Some(1));
    assert_eq!(find_slot(&sl, "color"), None);
    assert!(has_slot(&sl, "level"));
    assert!(!has_slot(&sl, "color"));
}

#[test]
fn required_slots() {
    let sl = slots();
    assert_eq!(require(&sl, "room"), Ok(()));
    assert_eq!(require(&sl, "color"), Err(s("Slot 'color' is required")));
}

#[test]
fn slot_values_come_from_the_first_match() {
    let sl = slots();
    match get(&sl, "room") {
        Some(JsonValue::Str(v)) => assert_eq!(v, "kitchen"),
        other => panic!("unexpected {:?}", other),
    }
    assert!(get(&sl, "color").is_none());
    assert_eq!(get_raw(&sl, "room"), Some(s("the kitchen")));
    assert_eq!(get_raw(&sl, "color"), None);
}

#[test]
fn slot_comparisons() {
    let sl = slots();
    assert!(assert_equal(&sl, "level", &JsonValue::Number(s("50"))));
    assert!(!assert_equal(&sl, "level", &JsonValue::Str(s("50"))));
    assert!(!assert_equal(&sl, "color", &JsonValue::Null));
    let rooms = JsonValue::Array(vec![JsonValue::Str(s("hall")), JsonValue::Str(s("kitchen"))]);
    assert!(assert_in(&sl, "room", &rooms));
    assert!(!assert_in(&sl, "level", &rooms));
    assert!(assert_in(&sl, "room", &JsonValue::Str(s("kitchen"))));
    assert!(!assert_in(&sl, "color", &rooms));
}

#[test]
fn slot_dictionary_membership() {
    let sl = slots();
    let dict = JsonValue::Object(vec![
        (s("kitchen"), JsonValue::Number(s("1"))),
        (s("bathroom_upstairs"), JsonValue::Number(s("2"))),
    ]);
    assert!(assert_in_dict(&sl, "room", &dict));
    assert!(!assert_in_dict(&sl, "level", &dict));
    let partial = JsonValue::Object(vec![(s("big kitchen"), JsonValue::Null)]);
    assert!(!assert_in_dict(&sl, "room", &partial));
    assert!(assert_in_dict_keys(&sl, "room", &partial));
    assert!(!assert_in_dict_keys(&sl, "room", &JsonValue::Array(vec![])));
}

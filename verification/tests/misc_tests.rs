use avicore::array;
use avicore::config::{ConstFile, Setting, SettingsFile, SkillConfig, YamlValue};
use avicore::fallback::{fallback_message, fill_message, select_fallback, FallbackType};
use avicore::paths::{basename, dirname, or_empty};
use avicore::skill_context::{default_true, Manifest, SkillContext};
use avicore::strops::{chars, lowercase, str_color, trim, trim_left, trim_right, uppercase, white_space};
use avicore::translation::{
    context_is_ordered, text_is_before,
    format_with_placeholders, get, get_or, get_raw, key_exists, script_assert,
};

fn s(x: &str) -> String {
    String::from(x)
}

#[test]
fn array_operations() {
    let mut a = vec![1, 2, 3];
    assert_eq!(array::len(&a), 3);
    array::push(&mut a, 4);
    assert_eq!(a, vec![1, 2, 3, 4]);
    assert_eq!(array::insert(&mut a, 0, 0), Ok(()));
    assert_eq!(array::insert(&mut a, 5, 5), Ok(()));
    assert_eq!(a, vec![0, 1, 2, 3, 4, 5]);
    assert_eq!(array::insert(&mut a, 9, 9), Err(s("Index out of bounds")));
    assert_eq!(array::remove(&mut a, 1), Ok(1));
    assert_eq!(array::remove(&mut a, 10), Err(s("Index out of bounds")));
    assert_eq!(array::pop(&mut a), Ok(5));
    assert_eq!(a, vec![0, 2, 3, 4]);
    array::swap(&mut a, 0, 3);
    assert_eq!(a, vec![4, 2, 3, 0]);
    array::reverse(&mut a);
    assert_eq!(a, vec![0, 3, 2, 4]);
    array::clear(&mut a);
    assert!(a.is_empty());
    assert_eq!(array::pop(&mut a), Err(s("Expected non-empty array")));
}

#[test]
fn reversing_twice_gives_back_the_array() {
    let mut a = vec!['a', 'b', 'c', 'd'];
    array::reverse(&mut a);
    array::reverse(&mut a);
    assert_eq!(a, vec!['a', 'b', 'c', 'd']);
}

#[test]
fn fallbacks() {
    let reg = vec![FallbackType::NotLoaded, FallbackType::NotUnderstood, FallbackType::NotUnderstood];
    assert_eq!(select_fallback(&reg, FallbackType::NotUnderstood), Some(1));
    assert_eq!(select_fallback(&reg, FallbackType::ErrorOnCore), None);
    assert_eq!(fallback_message(Some("hi")), "hi");
    assert_eq!(fallback_message(None), "");
    assert_eq!(fill_message("Sorry, {} failed: {}", "x"), "Sorry, x failed: x");
}

#[test]
fn paths() {
    assert_eq!(basename("/a/b/c.txt"), "c.txt");
    assert_eq!(basename("/"), "");
    assert_eq!(dirname("/a/b/c.txt"), "/a/b");
    assert_eq!(dirname("/"), "");
    assert_eq!(or_empty(None), "");
    assert_eq!(or_empty(Some(s("x"))), "x");
}

#[test]
fn trimming() {
    assert_eq!(trim("  \t hi there \n"), "hi there");
    assert_eq!(trim_left("  hi  "), "hi  ");
    assert_eq!(trim_right("  hi  "), "  hi");
    assert_eq!(trim("\u{3000}x\u{a0}"), "x");
    assert_eq!(trim("   "), "");
    assert!(white_space(' '));
    assert!(!white_space('x'));
    for t in ["", " a b ", "\u{2000}\u{85}z", "é\u{205f}"] {
        assert_eq!(trim(t), t.trim());
        assert_eq!(trim_left(t), t.trim_start());
        assert_eq!(trim_right(t), t.trim_end());
    }
}

#[test]
fn characters_and_case() {
    assert_eq!(chars("aé"), vec![s("a"), s("é")]);
    assert!(chars("").is_empty());
    assert_eq!(uppercase("abc é"), "ABC É");
    assert_eq!(lowercase("ABC É"), "abc é");
}

#[test]
fn colours() {
    assert_eq!(str_color(255, 0, 16, 255), "#ff0010");
    assert_eq!(str_color(1, 2, 3, 128), "#01020380");
}

#[test]
fn translations() {
    assert_eq!(get_raw("hello"), "Translated: hello");
    assert!(key_exists("hello"));
    assert!(key_exists("name_prompt"));
    assert!(!key_exists("other"));
    assert_eq!(get_or("bye", "fallback"), "Translated: bye");
    assert_eq!(get_or("nope", "fallback"), "fallback");
    let ctx = vec![(s("user"), s("Alex"))];
    assert_eq!(get("greet_{user}", &ctx), "Translated: greet_Alex");
    assert_eq!(
        format_with_placeholders("{a} and {b} and {a}", &vec![(s("a"), s("1")), (s("b"), s("2"))]),
        "1 and 2 and 1"
    );
}

#[test]
fn script_assertion_fails_when_condition_holds() {
    assert_eq!(script_assert(true, s("boom")), Err(s("boom")));
    assert_eq!(script_assert(false, s("boom")), Ok(()));
}

fn setting(v: i64) -> Setting {
    Setting {
        value: YamlValue(serde_yaml::Value::Number(v.into())),
        vtype: Some(s("number")),
        description: None,
        ui: None,
        required: Some(true),
        min: Some(0),
        max: Some(10),
        enum_: None,
        advanced: None,
        group: None,
    }
}

#[test]
fn skill_config_lookup() {
    let consts = ConstFile {
        constants: vec![
            (s("greeting"), YamlValue(serde_yaml::Value::String(s("hi")))),
            (s("limit"), YamlValue(serde_yaml::Value::Number(3i64.into()))),
        ],
    };
    let settings = SettingsFile { settings: vec![(s("volume"), setting(5))] };
    let cfg = SkillConfig::from_parsed(&consts, &settings);
    assert_eq!(cfg.constants.len(), 2);
    assert_eq!(cfg.constants[0].name, "greeting");
    assert_eq!(
        cfg.constant("greeting").map(|v| v.0.clone()),
        Some(serde_yaml::Value::String(s("hi")))
    );
    assert!(cfg.constant("missing").is_none());
    let vol = cfg.setting("volume").unwrap();
    assert_eq!(vol.value.0, serde_yaml::Value::Number(5i64.into()));
    assert_eq!(vol.max, Some(10));
    assert!(cfg.setting("missing").is_none());
    assert_eq!(cfg.list_settings(), vec![s("volume")]);
    assert_eq!(cfg.list_constants(), vec![s("greeting"), s("limit")]);
    assert!(cfg.has_setting("volume"));
    assert!(!cfg.has_setting("greeting"));
    assert!(cfg.has_constant("limit"));
    assert!(!cfg.has_constant("volume"));
}

fn manifest(disabled: bool) -> Manifest {
    Manifest {
        id: s("clock"),
        name: s("Clock"),
        description: s("Tells the time"),
        disabled,
        entry: s("main.avi"),
        capabilities: vec![],
        permissions: vec![s("time")],
        subscription: vec![],
        can_repeat_last_response: default_true(),
        can_go_again: default_true(),
        author: s("me"),
        version: s("1.0"),
    }
}

fn empty_config() -> SkillConfig {
    SkillConfig { constants: vec![], settings: vec![] }
}

#[test]
fn skill_context_paths_and_creation() {
    assert_eq!(SkillContext::manifest_path("/skills/clock"), "/skills/clock/manifest.yaml");
    assert_eq!(SkillContext::config_dir("/skills/clock"), "/skills/clock/config");
    assert_eq!(SkillContext::responses_dir("/skills/clock"), "/skills/clock/responses");
    let ctx = SkillContext::new("/skills/clock", Ok(manifest(true)), empty_config()).ok().unwrap();
    assert_eq!(ctx.path, "/skills/clock");
    assert_eq!(ctx.info.id, "clock");
    assert!(ctx.is_disabled());
    assert!(ctx.info.can_go_again);
    let err = SkillContext::new("/x", Err(s("bad manifest")), empty_config());
    assert_eq!(err.err(), Some(s("bad manifest")));
}

#[test]
fn insert_then_remove_gives_back_the_array() {
    let mut a = vec![1, 2, 3];
    assert_eq!(array::insert(&mut a, 1, 9), Ok(()));
    assert_eq!(array::remove(&mut a, 1), Ok(9));
    assert_eq!(a, vec![1, 2, 3]);
    array::push(&mut a, 7);
    assert_eq!(array::pop(&mut a), Ok(7));
    assert_eq!(a, vec![1, 2, 3]);
}

#[test]
fn swapping_twice_gives_back_the_array() {
    let mut a = vec![1, 2, 3];
    array::swap(&mut a, 0, 2);
    array::swap(&mut a, 0, 2);
    assert_eq!(a, vec![1, 2, 3]);
    array::swap(&mut a, 1, 1);
    assert_eq!(a, vec![1, 2, 3]);
}

#[test]
fn trimming_twice_is_trimming_once() {
    for t in ["  a  ", "\t\n", "x", " \u{2028} y \u{3000} "] {
        assert_eq!(trim(&trim(t)), trim(t));
    }
}

#[test]
fn translation_contexts_in_key_order() {
    assert!(text_is_before("a", "b"));
    assert!(text_is_before("ab", "abc"));
    assert!(!text_is_before("abc", "ab"));
    assert!(!text_is_before("a", "a"));
    assert!(text_is_before("Z", "a"));
    assert!(context_is_ordered(&vec![(s("a"), s("1")), (s("b"), s("2"))]));
    assert!(!context_is_ordered(&vec![(s("b"), s("1")), (s("a"), s("2"))]));
    assert!(!context_is_ordered(&vec![(s("a"), s("1")), (s("a"), s("2"))]));
    assert!(context_is_ordered(&vec![]));
}

use avicore::config::SkillConfig;
use avicore::skill::{
    check_can_start, intent_name_matches, resolve_intent_skill, skill_for_intent, strip_shebang,
    subscription_runs, Skill,
};
use avicore::skill_context::{Manifest, SkillContext};

#[test]
fn test_format_intent_name() {
    assert_eq!(Skill::format_intent_name("skill@light.turn_on"), "light_turn_on");
    assert_eq!(Skill::format_intent_name("skill@ask.time"), "ask_time");
}

#[test]
fn format_intent_name_without_separator_keeps_whole_name() {
    assert_eq!(Skill::format_intent_name("ask.time"), "ask_time");
    assert_eq!(Skill::format_intent_name("plain"), "plain");
}

#[test]
fn format_intent_name_uses_second_part_only() {
    assert_eq!(Skill::format_intent_name("a@b.c@d.e"), "b_c");
}

#[test]
fn strip_shebang_removes_first_line() {
    let s = strip_shebang(String::from("#!/usr/bin/avi\non_start() {}\n"));
    assert_eq!(s, "on_start() {}\n");
}

#[test]
fn strip_shebang_keeps_plain_script() {
    let s = strip_shebang(String::from("on_start() {}\n#!x"));
    assert_eq!(s, "on_start() {}\n#!x");
}

#[test]
fn strip_shebang_without_line_break_empties() {
    assert_eq!(strip_shebang(String::from("#!only")), "");
}

#[test]
fn intent_names_match_ignoring_ascii_case() {
    assert!(intent_name_matches("Skill@Light.On", "skill@light.on"));
    assert!(!intent_name_matches("skill@light.on", "skill@light.off"));
}

#[test]
fn resolve_intent_skill_finds_loaded_skill() {
    let loaded = vec![String::from("clock"), String::from("light")];
    assert_eq!(resolve_intent_skill(Some("light@turn_on"), &loaded), Ok(1));
}

#[test]
fn resolve_intent_skill_errors() {
    let loaded = vec![String::from("clock")];
    assert_eq!(
        resolve_intent_skill(None, &loaded),
        Err(String::from("Intent name is not defined"))
    );
    assert_eq!(
        resolve_intent_skill(Some("no_separator"), &loaded),
        Err(String::from("Intent name must contain '@' separator"))
    );
    assert_eq!(
        resolve_intent_skill(Some("a@b@c"), &loaded),
        Err(String::from("Intent name must contain '@' separator"))
    );
    assert_eq!(
        resolve_intent_skill(Some("light@on"), &loaded),
        Err(String::from("Skill light not found"))
    );
}

#[test]
fn check_can_start_refuses_disabled() {
    assert_eq!(check_can_start(true), Err(String::from("Skill is disabled")));
    assert_eq!(check_can_start(false), Ok(()));
}

fn context(disabled: bool) -> SkillContext {
    let manifest = Manifest {
        id: String::from("light"),
        name: String::from("Light"),
        description: String::from("Turns lights on and off"),
        disabled,
        entry: String::from("main.avi"),
        capabilities: vec![],
        permissions: vec![],
        subscription: vec![],
        can_repeat_last_response: true,
        can_go_again: true,
        author: String::from("me"),
        version: String::from("0.1"),
    };
    let config = SkillConfig { constants: vec![], settings: vec![] };
    SkillContext::new("/skills/light", Ok(manifest), config).ok().unwrap()
}

#[test]
fn skill_parts_and_start() {
    assert_eq!(Skill::skill_path("/skills", "light"), "/skills/light");
    let skill = Skill::new(String::from("light"), String::from("/skills/light"), context(false));
    assert_eq!(skill.name(), "light");
    assert_eq!(skill.pathname(), "/skills/light");
    assert!(!skill.is_disabled());
    assert_eq!(skill.start(), Ok(()));
    assert_eq!(skill.context().info.entry, "main.avi");
    let off = Skill::new(String::from("light"), String::from("/skills/light"), context(true));
    assert!(off.is_disabled());
    assert_eq!(off.start(), Err(String::from("Skill is disabled")));
}

#[test]
fn intent_handler_names() {
    assert_eq!(Skill::intent_handler(Some("light@turn.on")), Ok(String::from("turn_on")));
    assert_eq!(Skill::intent_handler(None), Err(String::from("Intent is not defined")));
}

#[test]
fn skill_for_intent_reports_missing_intent() {
    let loaded = vec![String::from("clock"), String::from("light")];
    assert_eq!(skill_for_intent(None, &loaded), Err(String::from("Intent is not defined")));
    assert_eq!(skill_for_intent(Some(None), &loaded), Err(String::from("Intent name is not defined")));
    assert_eq!(skill_for_intent(Some(Some("light@on")), &loaded), Ok(1));
    assert_eq!(skill_for_intent(Some(Some("tv@on")), &loaded), Err(String::from("Skill tv not found")));
}

#[test]
fn subscription_handlers_skip_other_kinds_of_the_same_name() {
    assert!(subscription_runs("Door.Open", "door.open", true));
    assert!(!subscription_runs("Door.Open", "door.open", false));
    assert!(subscription_runs("window", "door.open", false));
}

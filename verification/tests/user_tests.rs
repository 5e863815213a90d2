use avicore::user::{CommunicationStyle, ResponseLength, UserManager};

fn s(x: &str) -> String {
    String::from(x)
}

#[test]
fn new_manager_holds_default_user() {
    let m = UserManager::new();
    assert_eq!(m.get_name(), "User");
    assert_eq!(m.get_nickname(), None);
    assert_eq!(m.get_language(), "en");
    assert_eq!(m.get_timezone(), "UTC");
    assert!(m.get_location().is_none());
    assert_eq!(m.get_birthday(), None);
    assert_eq!(m.get_communication_style(), CommunicationStyle::Friendly);
    assert_eq!(m.get_response_length(), ResponseLength::Balanced);
    assert!(m.get_topics_of_interest().is_empty());
    assert!(m.get_quiet_hours().is_none());
    assert_eq!(m.get_voice_profile_id(), None);
    assert_eq!(m.get_created_at(), m.get_last_updated());
    assert_eq!(m.get_created_at(), m.get_last_interaction());
    assert!(!m.get_id().is_empty());
}

#[test]
fn profile_and_preference_updates() {
    let mut m = UserManager::new();
    m.set_name(s("João Silva"));
    m.set_nickname(Some(s("JJ")));
    m.set_language(s("pt-BR"));
    m.set_timezone(s("America/Sao_Paulo"));
    m.set_location(Some(s("São Paulo")), s("Brasil"));
    m.set_birthday(946684800);
    m.set_communication_style(CommunicationStyle::Casual);
    m.set_response_length(ResponseLength::Detailed);
    m.add_topic_of_interest(s("tecnologia"));
    m.add_topic_of_interest(s("música"));
    m.set_quiet_hours(s("22:00"), s("08:00"));

    assert_eq!(m.get_name(), "João Silva");
    assert_eq!(m.get_nickname(), Some(s("JJ")));
    assert_eq!(m.get_language(), "pt-BR");
    assert_eq!(m.get_timezone(), "America/Sao_Paulo");
    let loc = m.get_location().unwrap();
    assert_eq!(loc.city, Some(s("São Paulo")));
    assert_eq!(loc.country, "Brasil");
    assert_eq!(m.get_birthday(), Some(946684800));
    assert_eq!(m.get_communication_style(), CommunicationStyle::Casual);
    assert_eq!(m.get_response_length(), ResponseLength::Detailed);
    assert_eq!(m.get_topics_of_interest(), vec![s("tecnologia"), s("música")]);
    let qh = m.get_quiet_hours().unwrap();
    assert_eq!(qh.start, "22:00");
    assert_eq!(qh.end, "08:00");

    m.remove_location();
    m.remove_birthday();
    m.remove_quiet_hours();
    assert!(m.get_location().is_none());
    assert_eq!(m.get_birthday(), None);
    assert!(m.get_quiet_hours().is_none());
}

#[test]
fn adding_a_topic_twice_keeps_one() {
    let mut m = UserManager::new();
    m.add_topic_of_interest(s("music"));
    m.add_topic_of_interest(s("music"));
    assert_eq!(m.get_topics_of_interest(), vec![s("music")]);
}

#[test]
fn removing_a_topic_keeps_the_others_in_order() {
    let mut m = UserManager::new();
    m.add_topic_of_interest(s("a"));
    m.add_topic_of_interest(s("b"));
    m.add_topic_of_interest(s("c"));
    m.remove_topic_of_interest("b");
    assert_eq!(m.get_topics_of_interest(), vec![s("a"), s("c")]);
    m.remove_topic_of_interest("zzz");
    assert_eq!(m.get_topics_of_interest(), vec![s("a"), s("c")]);
    m.clear_topics_of_interest();
    assert!(m.get_topics_of_interest().is_empty());
}

#[test]
fn voice_profile_and_interaction() {
    let mut m = UserManager::new();
    m.set_voice_profile_id(Some(s("voice-1")));
    assert_eq!(m.get_voice_profile_id(), Some(s("voice-1")));
    let created = m.get_created_at();
    m.update_last_interaction();
    assert_eq!(m.get_created_at(), created);
    assert!(m.get_last_interaction() >= created);
}

#[test]
fn replace_user_takes_the_record() {
    let mut m = UserManager::new();
    let mut other = UserManager::new();
    other.set_name(s("Ana"));
    let u = other.get_user();
    let id = u.id.clone();
    m.replace_user(u);
    assert_eq!(m.get_name(), "Ana");
    assert_eq!(m.get_id(), id);
}

#[test]
fn fresh_users_have_different_ids() {
    assert_ne!(UserManager::new().get_id(), UserManager::new().get_id());
}

#[test]
fn setting_a_profile_field_keeps_the_rest() {
    let mut m = UserManager::new();
    m.set_communication_style(CommunicationStyle::Formal);
    m.add_topic_of_interest(s("news"));
    let id = m.get_id();
    let created = m.get_created_at();
    m.set_language(s("fr"));
    assert_eq!(m.get_language(), "fr");
    assert_eq!(m.get_name(), "User");
    assert_eq!(m.get_id(), id);
    assert_eq!(m.get_created_at(), created);
    assert_eq!(m.get_communication_style(), CommunicationStyle::Formal);
    assert_eq!(m.get_topics_of_interest(), vec![s("news")]);
    assert!(m.get_last_updated() >= created);
}

#[test]
fn stamping_times_given_by_the_caller() {
    let mut m = UserManager::new();
    let created = m.get_created_at();
    m.stamp_last_updated(1_000);
    assert_eq!(m.get_last_updated(), 1_000);
    assert_eq!(m.get_created_at(), created);
    m.record_interaction(2_000, 3_000);
    assert_eq!(m.get_last_interaction(), 2_000);
    assert_eq!(m.get_last_updated(), 3_000);
    assert_eq!(m.get_name(), "User");
}

#[test]
fn default_user_id_is_a_random_uuid_text() {
    let id = UserManager::new().get_id();
    let cs: Vec<char> = id.chars().collect();
    assert_eq!(cs.len(), 36);
    for (i, c) in cs.iter().enumerate() {
        if i == 8 || i == 13 || i == 18 || i == 23 {
            assert_eq!(*c, '-');
        } else {
            assert!(c.is_ascii_digit() || ('a'..='f').contains(c));
        }
    }
    assert_eq!(cs[14], '4');
    assert!(['8', '9', 'a', 'b'].contains(&cs[19]));
    assert!(UserManager::new().get_created_at() >= 0);
}

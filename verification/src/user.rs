use vstd::prelude::*;

use crate::json::{get_path, set_path, JsonModel, JsonValue};
use crate::text::split_spec;
use vstd::string::StringExecFns;

verus! {

/// Who the user is.
#[derive(Debug)]
pub struct UserProfile {
    pub name: String,
    pub nickname: Option<String>,
    pub language: String,
    pub timezone: String,
    pub location: Option<Location>,
    /// Unix timestamp.
    pub birthday: Option<i64>,
}

/// Where the user lives.
#[derive(Debug)]
pub struct Location {
    pub city: Option<String>,
    pub country: String,
}

/// How the user likes to be answered.
#[derive(Debug)]
pub struct UserPreferences {
    pub communication_style: CommunicationStyle,
    pub response_length: ResponseLength,
    pub topics_of_interest: Vec<String>,
    pub notification_preferences: NotificationPreferences,
}

/// The tone of the answers.
#[derive(Clone, Copy, Debug, PartialEq, Eq, Structural)]
pub enum CommunicationStyle {
    Formal,
    Casual,
    Friendly,
    Professional,
}

/// The length of the answers.
#[derive(Clone, Copy, Debug, PartialEq, Eq, Structural)]
pub enum ResponseLength {
    Concise,
    Balanced,
    Detailed,
}

/// When the user may be notified.
#[derive(Debug)]
pub struct NotificationPreferences {
    pub quiet_hours: Option<QuietHours>,
}

/// A daily span without notifications, as `HH:MM` texts.
#[derive(Debug)]
pub struct QuietHours {
    pub start: String,
    pub end: String,
}

/// The voice profile of the user; the preferred speaking speed is kept by
/// the caller.
#[derive(Debug)]
pub struct VoiceData {
    pub voice_profile_id: Option<String>,
}

/// Unix timestamps of the record's life.
#[derive(Clone, Copy, Debug)]
pub struct Metadata {
    pub created_at: i64,
    pub last_updated: i64,
    pub last_interaction: i64,
}

/// Everything the assistant keeps about its user.
#[derive(Debug)]
pub struct User {
    pub id: String,
    pub profile: UserProfile,
    pub preferences: UserPreferences,
    pub voice_data: VoiceData,
    pub metadata: Metadata,
}

/// The user record and the operations on it.
pub struct UserManager {
    user: User,
}

impl View for UserManager {
    type V = User;

    closed spec fn view(&self) -> User {
        self.user
    }
}

/// The current time as a Unix timestamp in seconds.
///
/// Trusted: `chrono::Utc::now().timestamp()`. It reads the clock, so its
/// value is not stated; `Utc::now` counts the seconds since the Unix epoch
/// of the system clock (and panics when the clock is set before it), so a
/// reading that comes back is not negative. This holds for every target but
/// `wasm32` with JavaScript bindings, where the time comes from `Date`.
#[verifier::external_body]
fn current_timestamp() -> (t: i64)
    ensures
        t >= 0,
{
    chrono::Utc::now().timestamp()
}

/// A lower-case hexadecimal digit.
pub open spec fn is_lower_hex(c: char) -> bool {
    ('0' as int <= c as int <= '9' as int) || ('a' as int <= c as int <= 'f' as int)
}

/// The text of a random (version 4) UUID: 36 characters, lower-case
/// hexadecimal digits in groups of 8, 4, 4, 4 and 12 separated by `-`, the
/// version digit `4` at position 14 and the variant digit, one of `8`, `9`,
/// `a` and `b`, at position 19.
pub open spec fn is_uuid_v4_text(s: Seq<char>) -> bool {
    &&& s.len() == 36
    &&& forall|i: int|
        0 <= i < 36 ==> if i == 8 || i == 13 || i == 18 || i == 23 {
            s[i] == '-'
        } else {
            is_lower_hex(#[trigger] s[i])
        }
    &&& s[14] == '4'
    &&& (s[19] == '8' || s[19] == '9' || s[19] == 'a' || s[19] == 'b')
}

/// A fresh identifier for a user record.
///
/// Trusted: `uuid::Uuid::new_v4()` shown with `to_string`. The value is
/// random and not stated; its form is: `new_v4` sets the version bits to 4
/// and the variant bits to `10`, and `Display` writes the hyphenated
/// lower-case form.
#[verifier::external_body]
fn new_user_id() -> (id: String)
    ensures
        is_uuid_v4_text(id@),
{
    uuid::Uuid::new_v4().to_string()
}

/// A copy of an optional string.
fn copy_opt(s: &Option<String>) -> (r: Option<String>)
    ensures
        r == *s,
{
    match s {
        Some(v) => Some(v.clone()),
        None => None,
    }
}

/// `u` with its last update time set to `t`.
pub open spec fn updated_at(u: User, t: i64) -> User {
    User { metadata: Metadata { last_updated: t, ..u.metadata }, ..u }
}

/// `u` with the profile `p`, updated at `t`.
pub open spec fn with_profile(u: User, p: UserProfile, t: i64) -> User {
    updated_at(User { profile: p, ..u }, t)
}

/// `u` with the preferences `p`, updated at `t`.
pub open spec fn with_preferences(u: User, p: UserPreferences, t: i64) -> User {
    updated_at(User { preferences: p, ..u }, t)
}

/// `a` and `b` agree on everything but the topics of interest and the time
/// of the last update.
pub open spec fn same_but_topics(a: User, b: User) -> bool {
    &&& a.id == b.id
    &&& a.profile == b.profile
    &&& a.preferences.communication_style == b.preferences.communication_style
    &&& a.preferences.response_length == b.preferences.response_length
    &&& a.preferences.notification_preferences == b.preferences.notification_preferences
    &&& a.voice_data == b.voice_data
    &&& a.metadata.created_at == b.metadata.created_at
    &&& a.metadata.last_interaction == b.metadata.last_interaction
}

/// Whether a topic with the text `t` is in the list.
pub open spec fn has_topic(ts: Seq<String>, t: Seq<char>) -> bool {
    exists|i: int| 0 <= i < ts.len() && ts[i]@ == t
}

/// No topic occurs twice in the list.
pub open spec fn topics_unique(ts: Seq<String>) -> bool {
    forall|i: int, j: int| 0 <= i < j < ts.len() ==> ts[i]@ != ts[j]@
}

/// The list without the topics whose text is `t`, the others in order.
pub open spec fn without_topic(ts: Seq<String>, t: Seq<char>) -> Seq<String> {
    ts.filter(|x: String| x@ != t)
}

/// `u` is the record a new user starts with: a random UUID as its id, named
/// `User`, speaking `en` in `UTC`, friendly and balanced answers, nothing
/// else set, and all three timestamps equal and not negative.
pub open spec fn is_default_user(u: User) -> bool {
    &&& is_uuid_v4_text(u.id@)
    &&& u.metadata.created_at >= 0
    &&& u.profile.name@ == "User"@
    &&& u.profile.nickname is None
    &&& u.profile.language@ == "en"@
    &&& u.profile.timezone@ == "UTC"@
    &&& u.profile.location is None
    &&& u.profile.birthday is None
    &&& u.preferences.communication_style == CommunicationStyle::Friendly
    &&& u.preferences.response_length == ResponseLength::Balanced
    &&& u.preferences.topics_of_interest@.len() == 0
    &&& u.preferences.notification_preferences.quiet_hours is None
    &&& u.voice_data.voice_profile_id is None
    &&& u.metadata.last_updated == u.metadata.created_at
    &&& u.metadata.last_interaction == u.metadata.created_at
}

impl UserManager {
    /// The record a new user starts with, created now under a fresh id.
    pub fn create_default_user() -> (u: User)
        ensures
            is_default_user(u),
    {
        let now = current_timestamp();
        User {
            id: new_user_id(),
            profile: UserProfile {
                name: String::from_str("User"),
                nickname: None,
                language: String::from_str("en"),
                timezone: String::from_str("UTC"),
                location: None,
                birthday: None,
            },
            preferences: UserPreferences {
                communication_style: CommunicationStyle::Friendly,
                response_length: ResponseLength::Balanced,
                topics_of_interest: Vec::new(),
                notification_preferences: NotificationPreferences { quiet_hours: None },
            },
            voice_data: VoiceData { voice_profile_id: None },
            metadata: Metadata { created_at: now, last_updated: now, last_interaction: now },
        }
    }

    /// A manager holding a new default user.
    pub fn new() -> (m: Self)
        ensures
            is_default_user(m@),
    {
        UserManager { user: Self::create_default_user() }
    }

    /// Stamps the record as updated at the time `now`.
    pub fn stamp_last_updated(&mut self, now: i64)
        ensures
            final(self)@ == updated_at(old(self)@, now),
    {
        self.user.metadata.last_updated = now;
    }

    /// Stamps the record as updated now.
    fn update_last_modified(&mut self)
        ensures
            final(self)@ == updated_at(old(self)@, final(self)@.metadata.last_updated),
            final(self)@.metadata.last_updated >= 0,
    {
        let now = current_timestamp();
        self.stamp_last_updated(now);
    }

    // ==================== PROFILE ====================

    pub fn get_id(&self) -> (r: String)
        ensures
            r == self@.id,
    {
        self.user.id.clone()
    }

    pub fn get_name(&self) -> (r: String)
        ensures
            r == self@.profile.name,
    {
        self.user.profile.name.clone()
    }

    pub fn set_name(&mut self, name: String)
        ensures
            final(self)@ == with_profile(
                    old(self)@,
                    UserProfile { name: name, ..old(self)@.profile },
                    final(self)@.metadata.last_updated,
                ),
    {
        self.user.profile.name = name;
        self.update_last_modified();
    }

    pub fn get_nickname(&self) -> (r: Option<String>)
        ensures
            r == self@.profile.nickname,
    {
        copy_opt(&self.user.profile.nickname)
    }

    pub fn set_nickname(&mut self, nickname: Option<String>)
        ensures
            final(self)@ == with_profile(
                    old(self)@,
                    UserProfile { nickname: nickname, ..old(self)@.profile },
                    final(self)@.metadata.last_updated,
                ),
    {
        self.user.profile.nickname = nickname;
        self.update_last_modified();
    }

    pub fn get_language(&self) -> (r: String)
        ensures
            r == self@.profile.language,
    {
        self.user.profile.language.clone()
    }

    pub fn set_language(&mut self, language: String)
        ensures
            final(self)@ == with_profile(
                    old(self)@,
                    UserProfile { language: language, ..old(self)@.profile },
                    final(self)@.metadata.last_updated,
                ),
    {
        self.user.profile.language = language;
        self.update_last_modified();
    }

    pub fn get_timezone(&self) -> (r: String)
        ensures
            r == self@.profile.timezone,
    {
        self.user.profile.timezone.clone()
    }

    pub fn set_timezone(&mut self, timezone: String)
        ensures
            final(self)@ == with_profile(
                    old(self)@,
                    UserProfile { timezone: timezone, ..old(self)@.profile },
                    final(self)@.metadata.last_updated,
                ),
    {
        self.user.profile.timezone = timezone;
        self.update_last_modified();
    }

    pub fn get_location(&self) -> (r: Option<Location>)
        ensures
            r == self@.profile.location,
    {
        match &self.user.profile.location {
            Some(l) => Some(Location { city: copy_opt(&l.city), country: l.country.clone() }),
            None => None,
        }
    }

    pub fn set_location(&mut self, city: Option<String>, country: String)
        ensures
            final(self)@ == with_profile(
                    old(self)@,
                    UserProfile {
                        location: Some(Location { city: city, country: country }),
                        ..old(self)@.profile
                    },
                    final(self)@.metadata.last_updated,
                ),
    {
        self.user.profile.location = Some(Location { city, country });
        self.update_last_modified();
    }

    pub fn remove_location(&mut self)
        ensures
            final(self)@ == with_profile(
                    old(self)@,
                    UserProfile { location: None, ..old(self)@.profile },
                    final(self)@.metadata.last_updated,
                ),
    {
        self.user.profile.location = None;
        self.update_last_modified();
    }

    pub fn get_birthday(&self) -> (r: Option<i64>)
        ensures
            r == self@.profile.birthday,
    {
        self.user.profile.birthday
    }

    pub fn set_birthday(&mut self, timestamp: i64)
        ensures
            final(self)@ == with_profile(
                    old(self)@,
                    UserProfile { birthday: Some(timestamp), ..old(self)@.profile },
                    final(self)@.metadata.last_updated,
                ),
    {
        self.user.profile.birthday = Some(timestamp);
        self.update_last_modified();
    }

    pub fn remove_birthday(&mut self)
        ensures
            final(self)@ == with_profile(
                    old(self)@,
                    UserProfile { birthday: None, ..old(self)@.profile },
                    final(self)@.metadata.last_updated,
                ),
    {
        self.user.profile.birthday = None;
        self.update_last_modified();
    }

    // ==================== PREFERENCES ====================

    pub fn get_communication_style(&self) -> (r: CommunicationStyle)
        ensures
            r == self@.preferences.communication_style,
    {
        self.user.preferences.communication_style
    }

    pub fn set_communication_style(&mut self, style: CommunicationStyle)
        ensures
            final(self)@ == with_preferences(
                    old(self)@,
                    UserPreferences { communication_style: style, ..old(self)@.preferences },
                    final(self)@.metadata.last_updated,
                ),
    {
        self.user.preferences.communication_style = style;
        self.update_last_modified();
    }

    pub fn get_response_length(&self) -> (r: ResponseLength)
        ensures
            r == self@.preferences.response_length,
    {
        self.user.preferences.response_length
    }

    pub fn set_response_length(&mut self, length: ResponseLength)
        ensures
            final(self)@ == with_preferences(
                    old(self)@,
                    UserPreferences { response_length: length, ..old(self)@.preferences },
                    final(self)@.metadata.last_updated,
                ),
    {
        self.user.preferences.response_length = length;
        self.update_last_modified();
    }

    pub fn get_topics_of_interest(&self) -> (r: Vec<String>)
        ensures
            r@ == self@.preferences.topics_of_interest@,
    {
        self.user.preferences.topics_of_interest.clone()
    }

    /// Whether the topic is already listed.
    fn has_topic_of_interest(&self, topic: &str) -> (r: bool)
        ensures
            r == has_topic(self@.preferences.topics_of_interest@, topic@),
    {
        let ts = &self.user.preferences.topics_of_interest;
        let mut i: usize = 0;
        while i < ts.len()
            invariant
                ts@ == self@.preferences.topics_of_interest@,
                i <= ts.len(),
                forall|j: int| 0 <= j < i ==> ts@[j]@ != topic@,
            decreases ts.len() - i,
        {
            if crate::text::str_equal(ts[i].as_str(), topic) {
                assert(ts@[i as int]@ == topic@);
                return true;
            }
            i += 1;
        }
        false
    }

    /// Adds a topic unless it is listed already; the record changes, and is
    /// stamped as updated, only when the topic was missing.
    pub fn add_topic_of_interest(&mut self, topic: String)
        ensures
            has_topic(old(self)@.preferences.topics_of_interest@, topic@) ==> final(self)@
                == old(self)@,
            !has_topic(old(self)@.preferences.topics_of_interest@, topic@) ==> {
                &&& same_but_topics(final(self)@, old(self)@)
                &&& final(self)@.preferences.topics_of_interest@
                    == old(self)@.preferences.topics_of_interest@.push(topic)
            },
    {
        if !self.has_topic_of_interest(topic.as_str()) {
            self.user.preferences.topics_of_interest.push(topic);
            self.update_last_modified();
        }
    }

    /// Removes every entry equal to the topic, keeping the others in order.
    pub fn remove_topic_of_interest(&mut self, topic: &str)
        ensures
            same_but_topics(final(self)@, old(self)@),
            final(self)@.preferences.topics_of_interest@ == without_topic(
                old(self)@.preferences.topics_of_interest@,
                topic@,
            ),
    {
        let mut kept: Vec<String> = Vec::new();
        let ghost ts = self@.preferences.topics_of_interest@;
        let mut i: usize = 0;
        while i < self.user.preferences.topics_of_interest.len()
            invariant
                ts == self@.preferences.topics_of_interest@,
                i <= ts.len(),
                kept@ == without_topic(ts.take(i as int), topic@),
            decreases ts.len() - i,
        {
            let t = self.user.preferences.topics_of_interest[i].clone();
            proof {
                assert(ts.take(i + 1) =~= ts.take(i as int).push(ts[i as int]));
                ts.take(i as int).lemma_filter_push(ts[i as int], |x: String| x@ != topic@);
            }
            if !crate::text::str_equal(t.as_str(), topic) {
                kept.push(t);
            }
            i += 1;
        }
        assert(ts.take(ts.len() as int) =~= ts);
        self.user.preferences.topics_of_interest = kept;
        self.update_last_modified();
    }

    /// Empties the list of topics.
    pub fn clear_topics_of_interest(&mut self)
        ensures
            same_but_topics(final(self)@, old(self)@),
            final(self)@.preferences.topics_of_interest@.len() == 0,
    {
        self.user.preferences.topics_of_interest.clear();
        self.update_last_modified();
    }

    pub fn get_quiet_hours(&self) -> (r: Option<QuietHours>)
        ensures
            r == self@.preferences.notification_preferences.quiet_hours,
    {
        match &self.user.preferences.notification_preferences.quiet_hours {
            Some(q) => Some(QuietHours { start: q.start.clone(), end: q.end.clone() }),
            None => None,
        }
    }

    pub fn set_quiet_hours(&mut self, start: String, end: String)
        ensures
            final(self)@ == with_preferences(
                    old(self)@,
                    UserPreferences {
                        notification_preferences: NotificationPreferences {
                            quiet_hours: Some(QuietHours { start: start, end: end }),
                        },
                        ..old(self)@.preferences
                    },
                    final(self)@.metadata.last_updated,
                ),
    {
        self.user.preferences.notification_preferences.quiet_hours = Some(QuietHours { start, end });
        self.update_last_modified();
    }

    pub fn remove_quiet_hours(&mut self)
        ensures
            final(self)@ == with_preferences(
                    old(self)@,
                    UserPreferences {
                        notification_preferences: NotificationPreferences { quiet_hours: None },
                        ..old(self)@.preferences
                    },
                    final(self)@.metadata.last_updated,
                ),
    {
        self.user.preferences.notification_preferences.quiet_hours = None;
        self.update_last_modified();
    }

    // ==================== VOICE DATA ====================

    pub fn get_voice_profile_id(&self) -> (r: Option<String>)
        ensures
            r == self@.voice_data.voice_profile_id,
    {
        copy_opt(&self.user.voice_data.voice_profile_id)
    }

    pub fn set_voice_profile_id(&mut self, id: Option<String>)
        ensures
            final(self)@ == updated_at(
                    User { voice_data: VoiceData { voice_profile_id: id }, ..old(self)@ },
                    final(self)@.metadata.last_updated,
                ),
    {
        self.user.voice_data.voice_profile_id = id;
        self.update_last_modified();
    }

    // ==================== METADATA ====================

    pub fn get_created_at(&self) -> (r: i64)
        ensures
            r == self@.metadata.created_at,
    {
        self.user.metadata.created_at
    }

    pub fn get_last_updated(&self) -> (r: i64)
        ensures
            r == self@.metadata.last_updated,
    {
        self.user.metadata.last_updated
    }

    pub fn get_last_interaction(&self) -> (r: i64)
        ensures
            r == self@.metadata.last_interaction,
    {
        self.user.metadata.last_interaction
    }

    /// Records an interaction with the user at the time `interaction`, and
    /// stamps the record as updated at the time `now`.
    pub fn record_interaction(&mut self, interaction: i64, now: i64)
        ensures
            final(self)@ == updated_at(
                User {
                    metadata: Metadata { last_interaction: interaction, ..old(self)@.metadata },
                    ..old(self)@
                },
                now,
            ),
    {
        self.user.metadata.last_interaction = interaction;
        self.stamp_last_updated(now);
    }

    /// Stamps the last interaction with the user as now.
    pub fn update_last_interaction(&mut self)
        ensures
            final(self)@ == updated_at(
                User {
                    metadata: Metadata {
                        last_interaction: final(self)@.metadata.last_interaction,
                        ..old(self)@.metadata
                    },
                    ..old(self)@
                },
                final(self)@.metadata.last_updated,
            ),
            final(self)@.metadata.last_interaction >= 0,
            final(self)@.metadata.last_updated >= 0,
    {
        let interaction = current_timestamp();
        let now = current_timestamp();
        self.record_interaction(interaction, now);
    }

    // ==================== WHOLE RECORD ====================

    pub fn get_user(&self) -> (r: User)
        ensures
            r.id == self@.id,
            r.profile == self@.profile,
            r.preferences.communication_style == self@.preferences.communication_style,
            r.preferences.response_length == self@.preferences.response_length,
            r.preferences.topics_of_interest@ == self@.preferences.topics_of_interest@,
            r.preferences.notification_preferences == self@.preferences.notification_preferences,
            r.voice_data == self@.voice_data,
            r.metadata == self@.metadata,
    {
        let u = &self.user;
        User {
            id: u.id.clone(),
            profile: UserProfile {
                name: u.profile.name.clone(),
                nickname: copy_opt(&u.profile.nickname),
                language: u.profile.language.clone(),
                timezone: u.profile.timezone.clone(),
                location: self.get_location(),
                birthday: u.profile.birthday,
            },
            preferences: UserPreferences {
                communication_style: u.preferences.communication_style,
                response_length: u.preferences.response_length,
                topics_of_interest: u.preferences.topics_of_interest.clone(),
                notification_preferences: NotificationPreferences {
                    quiet_hours: self.get_quiet_hours(),
                },
            },
            voice_data: VoiceData { voice_profile_id: copy_opt(&u.voice_data.voice_profile_id) },
            metadata: u.metadata,
        }
    }

    /// Replaces the whole record, stamping it as updated now.
    pub fn replace_user(&mut self, user: User)
        ensures
            final(self)@ == updated_at(user, final(self)@.metadata.last_updated),
    {
        self.user = user;
        self.update_last_modified();
    }

    // ==================== FIELDS BY PATH ====================

    /// The value at the dot-separated member path of a JSON document.
    pub fn get_nested_value(value: &JsonValue, path: &str) -> (r: Option<JsonValue>)
        ensures
            match r {
                Some(v) => get_path(value.model(), split_spec(path@, "."@)) == Some(v.model()),
                None => get_path(value.model(), split_spec(path@, "."@)) == None::<JsonModel>,
            },
    {
        crate::json::get_nested_value(value, path)
    }

    /// Sets the value at the dot-separated member path of a JSON document.
    pub fn set_nested_value(value: &mut JsonValue, path: &str, new_value: JsonValue) -> (r: Result<
        (),
        String,
    >)
        ensures
            match set_path(old(value).model(), split_spec(path@, "."@), new_value.model()) {
                Ok(m) => r is Ok && final(value).model() == m,
                Err(e) => r matches Err(s) && s@ == e && final(value).model() == old(
                    value,
                ).model(),
            },
    {
        crate::json::set_nested_value(value, path, new_value)
    }
}

// ---------------------------------------------------------------------------
// Laws
// ---------------------------------------------------------------------------

/// Setting the profile or the preferences makes a read give back what was
/// set, changes nothing else but the time of the last update, and stamps
/// that time.
pub proof fn law_update_keeps_rest(u: User, p: UserProfile, q: UserPreferences, t: i64)
    ensures
        with_profile(u, p, t).profile == p,
        with_profile(u, p, t).id == u.id,
        with_profile(u, p, t).preferences == u.preferences,
        with_profile(u, p, t).voice_data == u.voice_data,
        with_profile(u, p, t).metadata.created_at == u.metadata.created_at,
        with_profile(u, p, t).metadata.last_interaction == u.metadata.last_interaction,
        with_profile(u, p, t).metadata.last_updated == t,
        with_preferences(u, q, t).preferences == q,
        with_preferences(u, q, t).id == u.id,
        with_preferences(u, q, t).profile == u.profile,
        with_preferences(u, q, t).voice_data == u.voice_data,
        with_preferences(u, q, t).metadata.created_at == u.metadata.created_at,
        with_preferences(u, q, t).metadata.last_interaction == u.metadata.last_interaction,
        with_preferences(u, q, t).metadata.last_updated == t,
{
}

proof fn lemma_has_topic_push(ts: Seq<String>, x: String, t: Seq<char>)
    ensures
        has_topic(ts.push(x), t) == (has_topic(ts, t) || x@ == t),
{
    let p = ts.push(x);
    if has_topic(ts, t) {
        let i = choose|i: int| 0 <= i < ts.len() && ts[i]@ == t;
        assert(p[i] == ts[i]);
    }
    if x@ == t {
        assert(p[ts.len() as int] == x);
    }
    if has_topic(p, t) {
        let i = choose|i: int| 0 <= i < p.len() && p[i]@ == t;
        if i < ts.len() {
            assert(p[i] == ts[i]);
        }
    }
}

/// Adding a topic leaves it listed and keeps a list without repeats free of
/// repeats; adding it again changes nothing.
pub proof fn law_add_topic(ts: Seq<String>, topic: String)
    requires
        topics_unique(ts),
    ensures
        ({
            let after = if has_topic(ts, topic@) {
                ts
            } else {
                ts.push(topic)
            };
            &&& topics_unique(after)
            &&& has_topic(after, topic@)
        }),
{
    lemma_has_topic_push(ts, topic, topic@);
    if !has_topic(ts, topic@) {
        let after = ts.push(topic);
        assert forall|i: int, j: int| 0 <= i < j < after.len() implies after[i]@ != after[j]@ by {
            if j == ts.len() {
                assert(after[i] == ts[i]);
            } else {
                assert(after[i] == ts[i] && after[j] == ts[j]);
            }
        }
    }
}

/// Removing a topic leaves it unlisted, keeps every other topic listed or
/// unlisted as before, and keeps a list without repeats free of repeats.
pub proof fn law_remove_topic(ts: Seq<String>, topic: Seq<char>, other: Seq<char>)
    ensures
        !has_topic(without_topic(ts, topic), topic),
        other != topic ==> has_topic(without_topic(ts, topic), other) == has_topic(ts, other),
        topics_unique(ts) ==> topics_unique(without_topic(ts, topic)),
    decreases ts.len(),
{
    reveal(Seq::filter);
    let f = without_topic(ts, topic);
    if ts.len() == 0 {
        assert(f.len() == 0);
    } else {
        let d = ts.drop_last();
        let l = ts.last();
        let g = without_topic(d, topic);
        law_remove_topic(d, topic, other);
        law_remove_topic(d, topic, l@);
        assert(ts =~= d.push(l));
        lemma_has_topic_push(d, l, other);
        lemma_has_topic_push(d, l, topic);
        if topics_unique(ts) {
            assert forall|i: int, j: int| 0 <= i < j < d.len() implies d[i]@ != d[j]@ by {
                assert(d[i] == ts[i] && d[j] == ts[j]);
            }
        }
        if l@ != topic {
            assert(f == g.push(l));
            lemma_has_topic_push(g, l, topic);
            lemma_has_topic_push(g, l, other);
            if topics_unique(ts) {
                if has_topic(d, l@) {
                    let k = choose|k: int| 0 <= k < d.len() && d[k]@ == l@;
                    assert(ts[k] == d[k]);
                    assert(ts[ts.len() - 1] == l);
                }
                assert forall|i: int, j: int| 0 <= i < j < f.len() implies f[i]@ != f[j]@ by {
                    if j == g.len() {
                        assert(f[i] == g[i]);
                        assert(f[j] == l);
                        if f[i]@ == l@ {
                            assert(has_topic(g, l@));
                        }
                    } else {
                        assert(f[i] == g[i] && f[j] == g[j]);
                    }
                }
            }
        } else {
            assert(f == g);
        }
    }
}

} // verus!

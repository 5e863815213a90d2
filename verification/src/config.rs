use vstd::prelude::*;

use crate::text::{first_index_of, lemma_first_index_of, str_equal};

verus! {

#[verifier::external_type_specification]
#[verifier::external_body]
pub struct ExYaml(serde_yaml::Value);

/// A value of a skill's YAML configuration; its contents are carried, not
/// read, by the configuration logic.
pub struct YamlValue(pub serde_yaml::Value);

/// A copy of a YAML value.
///
/// Trusted: the derived `Clone` of `serde_yaml::Value`, which copies the
/// value as it is.
pub assume_specification[ <serde_yaml::Value as Clone>::clone ](v: &serde_yaml::Value) -> (r:
    serde_yaml::Value)
    ensures
        r == *v,
;

impl YamlValue {
    /// A copy of this value.
    pub fn copy(&self) -> (r: YamlValue)
        ensures
            r == *self,
    {
        YamlValue(self.0.clone())
    }
}

/// A user-facing setting of a skill, with its value and how to present it.
pub struct Setting {
    pub value: YamlValue,
    pub vtype: Option<String>,
    pub description: Option<String>,
    pub ui: Option<String>,
    pub required: Option<bool>,
    pub min: Option<usize>,
    pub max: Option<usize>,
    pub enum_: Option<Vec<String>>,
    pub advanced: Option<bool>,
    pub group: Option<String>,
}

/// The contents of a skill's `config/settings.yaml`, one entry per setting.
pub struct SettingsFile {
    pub settings: Vec<(String, Setting)>,
}

/// The contents of a skill's `config/const.yaml`, one entry per constant.
pub struct ConstFile {
    pub constants: Vec<(String, YamlValue)>,
}

/// No key occurs twice among the entries, as in a map.
pub open spec fn keys_unique<V>(entries: Seq<(String, V)>) -> bool {
    forall|i: int, j: int| 0 <= i < j < entries.len() ==> entries[i].0@ != entries[j].0@
}

/// No name occurs twice.
pub open spec fn names_unique(names: Seq<Seq<char>>) -> bool {
    forall|i: int, j: int| 0 <= i < j < names.len() ==> names[i] != names[j]
}

impl SettingsFile {
    /// One entry per setting name, as the file's map has it.
    pub open spec fn wf(&self) -> bool {
        keys_unique(self.settings@)
    }
}

impl ConstFile {
    /// One entry per constant name, as the file's map has it.
    pub open spec fn wf(&self) -> bool {
        keys_unique(self.constants@)
    }
}

/// A constant together with its name.
pub struct ConstantNamed {
    pub name: String,
    pub value: YamlValue,
}

/// A setting together with its name.
pub struct SettingNamed {
    pub name: String,
    pub setting: Setting,
}

/// The constants and settings of a skill.
pub struct SkillConfig {
    pub constants: Vec<ConstantNamed>,
    pub settings: Vec<SettingNamed>,
}

/// A copy of an optional string.
fn copy_opt_string(s: &Option<String>) -> (r: Option<String>)
    ensures
        r == *s,
{
    match s {
        Some(v) => Some(v.clone()),
        None => None,
    }
}

/// A copy of an optional list of strings.
fn copy_opt_strings(s: &Option<Vec<String>>) -> (r: Option<Vec<String>>)
    ensures
        match (r, *s) {
            (Some(a), Some(b)) => a@ == b@,
            (None, None) => true,
            _ => false,
        },
{
    match s {
        Some(v) => Some(v.clone()),
        None => None,
    }
}

/// `a` and `b` are the same setting.
pub open spec fn same_setting(a: Setting, b: Setting) -> bool {
    &&& a.value == b.value
    &&& a.vtype == b.vtype
    &&& a.description == b.description
    &&& a.ui == b.ui
    &&& a.required == b.required
    &&& a.min == b.min
    &&& a.max == b.max
    &&& match (a.enum_, b.enum_) {
        (Some(x), Some(y)) => x@ == y@,
        (None, None) => true,
        _ => false,
    }
    &&& a.advanced == b.advanced
    &&& a.group == b.group
}

impl Setting {
    /// A copy of this setting.
    pub fn copy(&self) -> (r: Setting)
        ensures
            same_setting(r, *self),
    {
        Setting {
            value: self.value.copy(),
            vtype: copy_opt_string(&self.vtype),
            description: copy_opt_string(&self.description),
            ui: copy_opt_string(&self.ui),
            required: self.required,
            min: self.min,
            max: self.max,
            enum_: copy_opt_strings(&self.enum_),
            advanced: self.advanced,
            group: copy_opt_string(&self.group),
        }
    }
}

/// The names of the constants.
pub open spec fn constant_names(cs: Seq<ConstantNamed>) -> Seq<Seq<char>> {
    cs.map_values(|c: ConstantNamed| c.name@)
}

/// The names of the settings.
pub open spec fn setting_names(ss: Seq<SettingNamed>) -> Seq<Seq<char>> {
    ss.map_values(|s: SettingNamed| s.setting_name())
}

impl SettingNamed {
    /// The name of this setting.
    pub open spec fn setting_name(self) -> Seq<char> {
        self.name@
    }
}

impl SkillConfig {
    /// The configuration made of the parsed constants and settings files.
    pub fn from_parsed(constants: &ConstFile, settings: &SettingsFile) -> (r: SkillConfig)
        ensures
            r.constants.len() == constants.constants.len(),
            r.settings.len() == settings.settings.len(),
            forall|i: int|
                0 <= i < r.constants.len() ==> r.constants@[i].name@
                    == constants.constants@[i].0@ && r.constants@[i].value
                    == constants.constants@[i].1,
            forall|i: int|
                0 <= i < r.settings.len() ==> r.settings@[i].name@ == settings.settings@[i].0@
                    && same_setting(r.settings@[i].setting, settings.settings@[i].1),
            constants.wf() ==> names_unique(constant_names(r.constants@)),
            settings.wf() ==> names_unique(setting_names(r.settings@)),
    {
        let r = SkillConfig {
            constants: Self::const_to_named(&constants.constants),
            settings: Self::settings_to_named(&settings.settings),
        };
        proof {
            if constants.wf() {
                assert forall|i: int, j: int|
                    0 <= i < j < constant_names(r.constants@).len() implies constant_names(
                    r.constants@,
                )[i] != constant_names(r.constants@)[j] by {
                    assert(constants.constants@[i].0@ != constants.constants@[j].0@);
                }
            }
            if settings.wf() {
                assert forall|i: int, j: int|
                    0 <= i < j < setting_names(r.settings@).len() implies setting_names(
                    r.settings@,
                )[i] != setting_names(r.settings@)[j] by {
                    assert(settings.settings@[i].0@ != settings.settings@[j].0@);
                }
            }
        }
        r
    }

    /// Each constant of the map paired with its name.
    pub fn const_to_named(constants: &Vec<(String, YamlValue)>) -> (r: Vec<ConstantNamed>)
        ensures
            r.len() == constants.len(),
            forall|i: int|
                0 <= i < r.len() ==> r@[i].name@ == constants@[i].0@ && r@[i].value
                    == constants@[i].1,
    {
        let mut out: Vec<ConstantNamed> = Vec::new();
        let mut i: usize = 0;
        while i < constants.len()
            invariant
                i <= constants.len(),
                out.len() == i,
                forall|j: int|
                    0 <= j < i ==> out@[j].name@ == constants@[j].0@ && out@[j].value
                        == constants@[j].1,
            decreases constants.len() - i,
        {
            out.push(ConstantNamed { name: constants[i].0.clone(), value: constants[i].1.copy() });
            i += 1;
        }
        out
    }

    /// Each setting of the map paired with its name.
    pub fn settings_to_named(settings: &Vec<(String, Setting)>) -> (r: Vec<SettingNamed>)
        ensures
            r.len() == settings.len(),
            forall|i: int|
                0 <= i < r.len() ==> r@[i].name@ == settings@[i].0@ && same_setting(
                    r@[i].setting,
                    settings@[i].1,
                ),
    {
        let mut out: Vec<SettingNamed> = Vec::new();
        let mut i: usize = 0;
        while i < settings.len()
            invariant
                i <= settings.len(),
                out.len() == i,
                forall|j: int|
                    0 <= j < i ==> out@[j].name@ == settings@[j].0@ && same_setting(
                        out@[j].setting,
                        settings@[j].1,
                    ),
            decreases settings.len() - i,
        {
            out.push(SettingNamed { name: settings[i].0.clone(), setting: settings[i].1.copy() });
            i += 1;
        }
        out
    }

    /// The first setting called `name`, if any.
    pub fn setting(&self, name: &str) -> (r: Option<&Setting>)
        ensures
            match first_index_of(setting_names(self.settings@), name@) {
                Some(i) => r == Some(&self.settings@[i].setting),
                None => r is None,
            },
    {
        let mut i: usize = 0;
        while i < self.settings.len()
            invariant
                i <= self.settings.len(),
                forall|j: int| 0 <= j < i ==> setting_names(self.settings@)[j] != name@,
            decreases self.settings.len() - i,
        {
            if str_equal(self.settings[i].name.as_str(), name) {
                proof {
                    lemma_first_index_of(setting_names(self.settings@), name@, i as int);
                }
                return Some(&self.settings[i].setting);
            }
            i += 1;
        }
        None
    }

    /// The value of the first constant called `name`, if any.
    pub fn constant(&self, name: &str) -> (r: Option<&YamlValue>)
        ensures
            match first_index_of(constant_names(self.constants@), name@) {
                Some(i) => r == Some(&self.constants@[i].value),
                None => r is None,
            },
    {
        let mut i: usize = 0;
        while i < self.constants.len()
            invariant
                i <= self.constants.len(),
                forall|j: int| 0 <= j < i ==> constant_names(self.constants@)[j] != name@,
            decreases self.constants.len() - i,
        {
            if str_equal(self.constants[i].name.as_str(), name) {
                proof {
                    lemma_first_index_of(constant_names(self.constants@), name@, i as int);
                }
                return Some(&self.constants[i].value);
            }
            i += 1;
        }
        None
    }

    /// The names of the settings, in order.
    pub fn list_settings(&self) -> (r: Vec<String>)
        ensures
            crate::text::views(r@) == setting_names(self.settings@),
    {
        let mut out: Vec<String> = Vec::new();
        let mut i: usize = 0;
        while i < self.settings.len()
            invariant
                i <= self.settings.len(),
                crate::text::views(out@) == setting_names(self.settings@).take(i as int),
            decreases self.settings.len() - i,
        {
            let ghost before = out@;
            let n = self.settings[i].name.clone();
            assert(n@ == setting_names(self.settings@)[i as int]);
            out.push(n);
            proof {
                assert(crate::text::views(out@) =~= crate::text::views(before).push(n@));
                assert(setting_names(self.settings@).take(i + 1) =~= setting_names(self.settings@).take(
                    i as int,
                ).push(n@));
            }
            i += 1;
        }
        assert(setting_names(self.settings@).take(self.settings.len() as int) =~= setting_names(
            self.settings@,
        ));
        out
    }

    /// Whether a setting called `name` exists.
    pub fn has_setting(&self, name: &str) -> (r: bool)
        ensures
            r == first_index_of(setting_names(self.settings@), name@) is Some,
    {
        self.setting(name).is_some()
    }

    /// The names of the constants, in order.
    pub fn list_constants(&self) -> (r: Vec<String>)
        ensures
            crate::text::views(r@) == constant_names(self.constants@),
    {
        let mut out: Vec<String> = Vec::new();
        let mut i: usize = 0;
        while i < self.constants.len()
            invariant
                i <= self.constants.len(),
                crate::text::views(out@) == constant_names(self.constants@).take(i as int),
            decreases self.constants.len() - i,
        {
            let ghost before = out@;
            let n = self.constants[i].name.clone();
            assert(n@ == constant_names(self.constants@)[i as int]);
            out.push(n);
            proof {
                assert(crate::text::views(out@) =~= crate::text::views(before).push(n@));
                assert(constant_names(self.constants@).take(i + 1) =~= constant_names(self.constants@).take(
                    i as int,
                ).push(n@));
            }
            i += 1;
        }
        assert(constant_names(self.constants@).take(self.constants.len() as int) =~= constant_names(
            self.constants@,
        ));
        out
    }

    /// Whether a constant called `name` exists.
    pub fn has_constant(&self, name: &str) -> (r: bool)
        ensures
            r == first_index_of(constant_names(self.constants@), name@) is Some,
    {
        self.constant(name).is_some()
    }
}

} // verus!

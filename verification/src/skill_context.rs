use vstd::prelude::*;

use crate::config::SkillConfig;
use vstd::string::StringExecFns;

verus! {

/// The value a manifest flag takes when the file leaves it out.
pub fn default_true() -> (r: bool)
    ensures
        r,
{
    true
}

/// The manifest file containing metadata and configuration for a skill.
pub struct Manifest {
    /// Unique identifier for the skill.
    pub id: String,
    /// Human-readable name of the skill.
    pub name: String,
    /// A brief description of what the skill does.
    pub description: String,
    /// Whether the skill is currently disabled.
    pub disabled: bool,
    /// The entry point filename for the skill's logic (e.g., "main.avi").
    pub entry: String,
    /// Capabilities required by the skill.
    pub capabilities: Vec<String>,
    /// Permissions required by the skill.
    pub permissions: Vec<String>,
    /// Subscriptions the skill asks for.
    pub subscription: Vec<String>,
    /// Whether the skill supports repeating the last response.
    pub can_repeat_last_response: bool,
    /// Whether the skill supports immediate re-execution.
    pub can_go_again: bool,
    /// The author of the skill.
    pub author: String,
    /// The version of the skill.
    pub version: String,
}

/// The context of a skill: where it lives, its manifest and its configuration.
pub struct SkillContext {
    /// The filesystem path to the skill directory.
    pub path: String,
    /// Metadata about the skill.
    pub info: Manifest,
    /// The constants and settings of the skill.
    pub config: SkillConfig,
}

/// `dir` followed by `/` and `name`.
pub open spec fn sub_path(dir: Seq<char>, name: Seq<char>) -> Seq<char> {
    dir + "/"@ + name
}

/// The text `dir/name`.
fn make_sub_path(dir: &str, name: &str) -> (r: String)
    ensures
        r@ == sub_path(dir@, name@),
{
    let mut r = crate::text::to_owned_string(dir);
    r.append("/");
    r.append(name);
    r
}

impl SkillContext {
    /// Where the manifest of the skill at `path` is.
    pub fn manifest_path(path: &str) -> (r: String)
        ensures
            r@ == sub_path(path@, "manifest.yaml"@),
    {
        make_sub_path(path, "manifest.yaml")
    }

    /// Where the configuration files of the skill at `path` are.
    pub fn config_dir(path: &str) -> (r: String)
        ensures
            r@ == sub_path(path@, "config"@),
    {
        make_sub_path(path, "config")
    }

    /// Where the localized responses of the skill at `path` are.
    pub fn responses_dir(path: &str) -> (r: String)
        ensures
            r@ == sub_path(path@, "responses"@),
    {
        make_sub_path(path, "responses")
    }

    /// The context of the skill at `path`, from its loaded manifest and
    /// configuration; fails with the manifest's error when it did not load.
    pub fn new(path: &str, manifest: Result<Manifest, String>, config: SkillConfig) -> (r: Result<
        SkillContext,
        String,
    >)
        ensures
            match manifest {
                Ok(m) => r matches Ok(c) && c.path@ == path@ && c.info == m && c.config == config,
                Err(e) => r == Err::<SkillContext, String>(e),
            },
    {
        match manifest {
            Ok(info) => Ok(SkillContext { path: crate::text::to_owned_string(path), info, config }),
            Err(e) => Err(e),
        }
    }

    /// Whether the skill is disabled.
    pub fn is_disabled(&self) -> (r: bool)
        ensures
            r == self.info.disabled,
    {
        self.info.disabled
    }
}

} // verus!

//! Skill catalogue data: plain records; downloading and unpacking are
//! network work outside this crate.

use vstd::prelude::*;

verus! {

/// One skill as shown in the catalogue.
pub struct Skill {
    pub key: String,
    pub name: String,
    pub description: String,
    pub directory: String,
    pub readme_url: Option<String>,
    pub installed: bool,
    pub repo_owner: Option<String>,
    pub repo_name: Option<String>,
    pub repo_branch: Option<String>,
    pub skills_path: Option<String>,
}

/// One configured skill repository.
pub struct SkillRepo {
    pub owner: String,
    pub name: String,
    pub branch: String,
    pub enabled: bool,
    pub skills_path: Option<String>,
}

/// Metadata parsed out of a skill's own description file.
pub struct SkillMetadata {
    pub name: Option<String>,
    pub description: Option<String>,
}

/// One skill's installation state; the time is seconds since the
/// epoch.
pub struct SkillState {
    pub installed: bool,
    pub installed_at: i64,
}

/// The persisted skill configuration.
pub struct SkillStore {
    pub skills: Vec<(String, SkillState)>,
    pub repos: Vec<SkillRepo>,
}

impl SkillStore {
    /// An empty store with no repositories configured.
    pub fn new() -> (r: SkillStore)
        ensures
            r.skills@.len() == 0,
            r.repos@.len() == 0,
    {
        SkillStore { skills: Vec::new(), repos: Vec::new() }
    }
}

} // verus!

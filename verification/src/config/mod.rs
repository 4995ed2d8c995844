//! The application's settings file: tracked repositories, squads and
//! users, and the rules applied to the data.

use crate::text::string_views;
use vstd::prelude::*;

verus! {

#[derive(Debug, Clone)]
pub struct AppConfig {
    pub repositories: Vec<RepositoryConfig>,
    pub squads: Vec<SquadConfig>,
    /// Preferred shape for tracked users with metadata.
    pub users: Vec<UserTrackedConfig>,
    /// Legacy shape kept for backward compatibility.
    pub tracked_users: Vec<UserConfig>,
    pub history_days: i32,
    pub excluded_bots: Vec<String>,
    pub bug_labels: Vec<String>,
    pub feature_labels: Vec<String>,
}

#[derive(Debug, Clone)]
pub struct RepositoryConfig {
    pub owner: String,
    pub name: String,
    pub enabled: bool,
}

#[derive(Debug, Clone)]
pub struct SquadConfig {
    pub id: String,
    pub name: String,
    pub members: Vec<String>,
    pub color: String,
}

#[derive(Debug, Clone)]
pub struct UserConfig {
    pub username: String,
    pub enabled: bool,
}

#[derive(Debug, Clone)]
pub struct UserTrackedConfig {
    pub username: String,
    pub is_tracked: bool,
    pub tracked_at: Option<String>,
}

pub open spec fn default_excluded_bots() -> Seq<Seq<char>> {
    seq![
        "dependabot[bot]"@,
        "dependabot-preview[bot]"@,
        "renovate[bot]"@,
        "github-actions[bot]"@,
        "codecov[bot]"@,
    ]
}

pub open spec fn default_bug_labels() -> Seq<Seq<char>> {
    seq!["bug"@, "defect"@, "fix"@]
}

pub open spec fn default_feature_labels() -> Seq<Seq<char>> {
    seq!["feature"@, "enhancement"@, "feat"@]
}

/// Days of history read when nothing else is configured.
pub const DEFAULT_HISTORY_DAYS: i32 = 90;

impl Default for AppConfig {
    fn default() -> (r: Self)
        ensures
            r.repositories@.len() == 0,
            r.squads@.len() == 0,
            r.users@.len() == 0,
            r.tracked_users@.len() == 0,
            r.history_days == DEFAULT_HISTORY_DAYS,
            string_views(r.excluded_bots@) == default_excluded_bots(),
            string_views(r.bug_labels@) == default_bug_labels(),
            string_views(r.feature_labels@) == default_feature_labels(),
    {
        let mut excluded_bots: Vec<String> = Vec::new();
        excluded_bots.push("dependabot[bot]".to_string());
        excluded_bots.push("dependabot-preview[bot]".to_string());
        excluded_bots.push("renovate[bot]".to_string());
        excluded_bots.push("github-actions[bot]".to_string());
        excluded_bots.push("codecov[bot]".to_string());
        let mut bug_labels: Vec<String> = Vec::new();
        bug_labels.push("bug".to_string());
        bug_labels.push("defect".to_string());
        bug_labels.push("fix".to_string());
        let mut feature_labels: Vec<String> = Vec::new();
        feature_labels.push("feature".to_string());
        feature_labels.push("enhancement".to_string());
        feature_labels.push("feat".to_string());
        assert(string_views(excluded_bots@) =~= default_excluded_bots());
        assert(string_views(bug_labels@) =~= default_bug_labels());
        assert(string_views(feature_labels@) =~= default_feature_labels());
        AppConfig {
            repositories: Vec::new(),
            squads: Vec::new(),
            users: Vec::new(),
            tracked_users: Vec::new(),
            history_days: DEFAULT_HISTORY_DAYS,
            excluded_bots,
            bug_labels,
            feature_labels,
        }
    }
}

} // verus!

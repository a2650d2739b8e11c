use aureus_vrc::json::Json;
use aureus_vrc::storage::config::{config_value, set_config_value, Config};
use aureus_vrc::storage::state::{
    empty_state, get_tracked_repo, track_repo, untrack_repo, update_repo_version, Timestamp,
};
use aureus_vrc::storage::tracking::CommitStats;

#[test]
fn default_config_values() {
    let c = Config::default();
    assert_eq!(c.project.name, None);
    assert_eq!(c.project.default_branch, "main");
    assert_eq!(c.commit.rules.subject_max_length, 100);
    assert_eq!(c.commit.rules.version_pattern, r"v\d+\.\d+\.\d+");
    assert_eq!(c.commit.types.release.format, "RELEASE: {project} - v{version}");
    assert!(!c.hooks.pre_commit.test);
    assert!(c.hooks.commit_msg.allow_amend);
}

#[test]
fn set_config_values() {
    let mut c = Config::default();
    assert!(set_config_value(&mut c, "project.name", "Aureus").is_ok());
    assert_eq!(c.project.name, Some("Aureus".to_string()));
    assert!(set_config_value(&mut c, "project.default_branch", "trunk").is_ok());
    assert_eq!(c.project.default_branch, "trunk");
    assert_eq!(
        set_config_value(&mut c, "commit.rules", "x"),
        Err("Unknown config key: commit.rules".to_string())
    );
    assert_eq!(c.project.name, Some("Aureus".to_string()));
}

#[test]
fn track_untrack_update() {
    let t0 = Timestamp { secs: 10, nanos: 0 };
    let t1 = Timestamp { secs: 20, nanos: 5 };
    let mut s = empty_state();
    let r = track_repo(&mut s, "/repo/a", "a", t0);
    assert_eq!(r.path, "/repo/a");
    assert_eq!(r.commits_count, 0);
    assert_eq!(s.last_update, Some(t0));
    let again = track_repo(&mut s, "/repo/a", "renamed", t1);
    assert_eq!(again.name, "a");
    assert_eq!(again.first_tracked, t0);
    assert_eq!(again.last_tracked, t1);
    assert_eq!(s.tracked_repos.len(), 1);
    update_repo_version(&mut s, "/repo/a", "v1.0.0", t1);
    let got = get_tracked_repo(&s, "/repo/a").unwrap();
    assert_eq!(got.current_version, Some("v1.0.0".to_string()));
    assert_eq!(got.commits_count, 1);
    update_repo_version(&mut s, "/repo/none", "v9.9.9", t1);
    assert!(get_tracked_repo(&s, "/repo/none").is_none());
    assert!(untrack_repo(&mut s, "/repo/a"));
    assert!(!untrack_repo(&mut s, "/repo/a"));
    assert!(get_tracked_repo(&s, "/repo/a").is_none());
}

#[test]
fn stats_from_counts() {
    let st = CommitStats::from_counts(3, Some(1), None, Some(2));
    assert_eq!(st, CommitStats { total: 3, releases: 1, updates: 0, patches: 2 });
}

#[test]
fn config_value_by_dotted_key() {
    let c = Config::default();
    assert!(matches!(config_value(&c, "project.default_branch"), Some(Json::Str(s)) if s == "main"));
    assert!(matches!(config_value(&c, "commit.rules.subject_max_length"), Some(Json::Number(n)) if n == "100"));
    assert!(matches!(config_value(&c, "commit.types.RELEASE.emoji"), Some(Json::Str(s)) if s == "🚀"));
    assert!(matches!(config_value(&c, "hooks.pre_commit.test"), Some(Json::Bool(false))));
    assert!(matches!(config_value(&c, "project.name"), Some(Json::Null)));
    assert!(matches!(config_value(&c, "project"), Some(Json::Object(ms)) if ms.len() == 2));
    assert!(config_value(&c, "nope").is_none());
    assert!(config_value(&c, "project.default_branch.x").is_none());
    assert!(config_value(&c, "").is_none());
    assert!(config_value(&c, "project..name").is_none());
}

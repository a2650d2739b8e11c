use aureus_vrc::cli::CommitType;
use aureus_vrc::commands::amend::{amend_message, has_changes_to_amend};
use aureus_vrc::commands::commit::{detect_from_message, generate_vrc_message, get_project_name};
use aureus_vrc::commands::init::{
    hook_registration, hook_script, should_write_file, to_crlf, HOOK_SCRIPT_BASH,
};
use aureus_vrc::commands::release::{
    changelog_with_release, detect_commit_type, determine_auto_version, release_tag_message,
};
use aureus_vrc::convention::parser::{parse_message, CommitTypeLocal};

#[test]
fn commit_message_has_bullets() {
    let msg = generate_vrc_message(CommitType::Update, "Aureus", "v1.1.0", "feat: login\n\nsecond\nthird");
    assert_eq!(msg, "UPDATE: Aureus - v1.1.0\n\n- Added: feat: login\n- second\n- third");
    let patch = generate_vrc_message(CommitType::Patch, "P", "v0.0.1", "");
    assert_eq!(patch, "PATCH: P - v0.0.1\n\n- Fixed: ");
    let release = generate_vrc_message(CommitType::Release, "P", "v2.0.0", "drop api");
    assert_eq!(release, "RELEASE: P - v2.0.0\n\n- Breaking: drop api");
}

#[test]
fn commit_message_reads_back() {
    let msg = generate_vrc_message(CommitType::Release, " Spaced ", "v2.0.0", "x\ny");
    let parsed = parse_message(&msg).unwrap();
    assert_eq!(parsed.commit_type, CommitTypeLocal::Release);
    assert_eq!(parsed.project, "Spaced");
    assert_eq!(parsed.version, "v2.0.0");
    assert_eq!(parsed.body, Some("- Breaking: x\n- y".to_string()));
}

#[test]
fn detect_from_message_defaults_to_patch() {
    assert_eq!(detect_from_message(""), CommitType::Patch);
    assert_eq!(detect_from_message("feat: x"), CommitType::Update);
    assert_eq!(detect_from_message("x!"), CommitType::Release);
}

#[test]
fn project_name_order() {
    let s = |x: &str| Some(x.to_string());
    assert_eq!(get_project_name(s("a"), s("b"), s("c")), Ok("a".to_string()));
    assert_eq!(get_project_name(None, s("b"), s("c")), Ok("b".to_string()));
    assert_eq!(get_project_name(None, None, s("c")), Ok("c".to_string()));
    assert_eq!(
        get_project_name(None, None, None),
        Err("Cannot determine project name".to_string())
    );
}

#[test]
fn amend_versioned_message() {
    let last = "PATCH: App - v1.0.1\n\n- Fixed: typo";
    assert_eq!(
        amend_message(last, "also docs"),
        "PATCH: App - v1.0.1\n\n- Fixed: typo\n- also docs"
    );
    assert_eq!(amend_message(last, ""), "PATCH: App - v1.0.1\n\n- Fixed: typo");
    assert_eq!(
        amend_message("UPDATE: App - v1.1.0", "more"),
        "UPDATE: App - v1.1.0\n\n\n\n- more"
    );
    assert_eq!(amend_message("UPDATE: App - v1.1.0", ""), "UPDATE: App - v1.1.0");
}

#[test]
fn amend_keeps_version() {
    let last = "RELEASE: App - v3.0.0 extra\n\nbody";
    let amended = amend_message(last, "note");
    let before = parse_message(last).unwrap();
    let after = parse_message(&amended).unwrap();
    assert_eq!(after.commit_type, before.commit_type);
    assert_eq!(after.project, before.project);
    assert_eq!(after.version, before.version);
}

#[test]
fn amend_other_message() {
    assert_eq!(amend_message("plain commit", "first"), "first\nplain commit");
    assert!(has_changes_to_amend("x", false));
    assert!(has_changes_to_amend("", true));
    assert!(!has_changes_to_amend("", false));
}

#[test]
fn release_type_and_auto_version() {
    assert_eq!(detect_commit_type("fix: x\n\nBREAKING: y"), CommitType::Release);
    assert_eq!(detect_commit_type("feat: x"), CommitType::Update);
    assert_eq!(detect_commit_type("docs: x"), CommitType::Patch);
    assert_eq!(determine_auto_version("feat: x", Some("v1.2.3")), Ok("v1.3.0".to_string()));
    assert_eq!(determine_auto_version("oops!", None), Ok("v1.0.0".to_string()));
    assert_eq!(
        determine_auto_version("fix", Some("bad")),
        Err("Invalid version: bad".to_string())
    );
}

#[test]
fn release_tag_messages() {
    assert_eq!(release_tag_message("v1.0.0", true), Some("Release v1.0.0".to_string()));
    assert_eq!(release_tag_message("v1.0.0", false), None);
}

#[test]
fn changelog_updates() {
    let entry = "## [1.2.0] - 2024-05-01\n\n### Added\n\n### Changed\n\n### Fixed\n\n";
    assert_eq!(
        changelog_with_release("", "v1.2.0", "2024-05-01"),
        format!("# Changelog\n\n{}", entry)
    );
    assert_eq!(
        changelog_with_release("# Changelog\n\n## [1.1.0]\n", "v1.2.0", "2024-05-01"),
        format!("# Changelog\n\n{}\n## [1.1.0]\n", entry)
    );
    assert_eq!(
        changelog_with_release("old notes", "vv1.2.0", "2024-05-01"),
        format!("{}old notes", entry)
    );
}

#[test]
fn init_files_and_settings() {
    assert!(should_write_file(false, false));
    assert!(should_write_file(true, true));
    assert!(!should_write_file(true, false));
    assert_eq!(to_crlf("a\nb\n"), "a\r\nb\r\n");
    let (unix_name, unix_text) = hook_script(false);
    assert_eq!(unix_name, "aureus-rewrite.sh");
    assert_eq!(unix_text, HOOK_SCRIPT_BASH);
    let (win_name, win_text) = hook_script(true);
    assert_eq!(win_name, "aureus-rewrite.ps1");
    assert!(win_text.contains("\r\n"));
    assert_eq!(
        hook_registration(false, ".agent", "aureus-rewrite.sh"),
        ("Bash", "~/.agent/hooks/aureus-rewrite.sh".to_string())
    );
    assert_eq!(
        hook_registration(true, ".agent", "x.ps1"),
        ("Command", "~/.agent/hooks/x.ps1".to_string())
    );
}

#[test]
fn commit_message_validates() {
    let msg = generate_vrc_message(CommitType::Patch, "Tool", "v1.0.1", "fix: crash\non start");
    let ok = aureus_vrc::convention::parser::validate_message(&msg).unwrap();
    assert_eq!(ok.version, "v1.0.1");
    assert_eq!(ok.body, Some("- Fixed: fix: crash\n- on start".to_string()));
}

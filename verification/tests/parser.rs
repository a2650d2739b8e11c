use aureus_vrc::cli::CommitType;
use aureus_vrc::convention::parser::{
    generate_message, parse_message, validate_message, CommitTypeLocal,
};

#[test]
fn parser_test_parse_vrc_message() {
    let msg = "PATCH: Aureus - v1.0.1\n\n- Fixed: typo";
    let parsed = parse_message(msg).unwrap();
    assert_eq!(CommitType::from(parsed.commit_type), CommitType::Patch);
    assert_eq!(parsed.project, "Aureus");
    assert_eq!(parsed.version, "v1.0.1");
    assert_eq!(parsed.body, Some("- Fixed: typo".to_string()));
}

#[test]
fn test_parse_vrc_no_body() {
    let msg = "UPDATE: MyProject - v1.1.0";
    let parsed = parse_message(msg).unwrap();
    assert_eq!(CommitType::from(parsed.commit_type), CommitType::Update);
    assert_eq!(parsed.body, None);
}

#[test]
fn parser_test_generate_message() {
    let msg = generate_message(
        CommitType::Release,
        "Aureus",
        "v2.0.0",
        Some("- Breaking: API redesign"),
    );
    assert!(msg.starts_with("RELEASE: Aureus - v2.0.0"));
    assert!(msg.contains("Breaking: API redesign"));
}

#[test]
fn test_validate_valid_message() {
    let msg = "PATCH: Aureus - v1.0.1\n\n- Fixed: bug";
    let result = validate_message(msg);
    assert!(result.is_ok());
}

#[test]
fn test_validate_too_long() {
    let msg = "UPDATE: Project - v1.0.0: this message is way too long and should fail validation";
    let result = validate_message(msg);
    assert!(result.is_err());
}

#[test]
fn tests_test_parse_vrc_message() {
    let msg = "PATCH: Aureus - v1.0.1\n\n- Fixed: typo";
    let parsed = parse_message(msg).unwrap();
    assert_eq!(CommitType::from(parsed.commit_type), CommitType::Patch);
    assert_eq!(parsed.project, "Aureus");
    assert_eq!(parsed.version, "v1.0.1");
}

#[test]
fn tests_test_generate_message() {
    let msg = generate_message(
        CommitType::Update,
        "TestProject",
        "v1.1.0",
        Some("- Added: feature"),
    );
    assert!(msg.starts_with("UPDATE: TestProject - v1.1.0"));
}

#[test]
fn test_validate_message() {
    let valid_msg = "PATCH: Test - v1.0.0\n\n- Fixed";
    assert!(validate_message(valid_msg).is_ok());

    let invalid_msg = "Not a VRC message";
    assert!(validate_message(invalid_msg).is_err());
}

#[test]
fn test_vrc_message_parsing() {
    let msg = "PATCH: Aureus - v1.0.1\n\n- Fixed: typo";
    let parsed = parse_message(msg).unwrap();
    assert_eq!(parsed.commit_type, CommitTypeLocal::Patch);
    assert_eq!(parsed.project, "Aureus");
    assert_eq!(parsed.version, "v1.0.1");
}

#[test]
fn test_vrc_message_generation() {
    let msg = generate_message(
        CommitType::Update,
        "Aureus",
        "v1.1.0",
        Some("- Added: new feature"),
    );
    assert!(msg.starts_with("UPDATE: Aureus - v1.1.0"));
    assert!(msg.contains("Added: new feature"));
}

#[test]
fn test_commit_type_local_display() {
    assert_eq!(CommitTypeLocal::Release.to_string(), "RELEASE");
    assert_eq!(CommitTypeLocal::Update.to_string(), "UPDATE");
    assert_eq!(CommitTypeLocal::Patch.to_string(), "PATCH");
}

#[test]
fn generate_exact_text() {
    let msg = generate_message(CommitType::Patch, "Proj", "v0.1.2", Some("- Fixed: x"));
    assert_eq!(msg, "PATCH: Proj - v0.1.2\n\n- Fixed: x");
    let bare = generate_message(CommitType::Update, "Proj", "v0.2.0", Some(""));
    assert_eq!(bare, "UPDATE: Proj - v0.2.0");
    let none = generate_message(CommitType::Release, "Proj", "v1.0.0", None);
    assert_eq!(none, "RELEASE: Proj - v1.0.0");
}

#[test]
fn generate_then_parse_roundtrip() {
    let msg = generate_message(CommitType::Release, "My App", "v3.14.15", Some("- Breaking: a\n- b"));
    let parsed = parse_message(&msg).unwrap();
    assert_eq!(parsed.commit_type, CommitTypeLocal::Release);
    assert_eq!(parsed.project, "My App");
    assert_eq!(parsed.version, "v3.14.15");
    assert_eq!(parsed.body, Some("- Breaking: a\n- b".to_string()));
    assert_eq!(parsed.full_message, msg);
    assert!(parsed.valid);
    assert_eq!(parsed.error, None);
}

#[test]
fn parse_body_skips_leading_empty_lines() {
    let parsed = parse_message("PATCH: P - v1.0.0\n\n\n\nline one\r\nline two\n").unwrap();
    assert_eq!(parsed.body, Some("line one\nline two".to_string()));
    let only_blank = parse_message("PATCH: P - v1.0.0\n\n\n").unwrap();
    assert_eq!(only_blank.body, None);
}

#[test]
fn parse_project_is_trimmed_and_stops_at_dash() {
    let parsed = parse_message("UPDATE:   spaced name   -   v10.20.30 and more").unwrap();
    assert_eq!(parsed.project, "spaced name");
    assert_eq!(parsed.version, "v10.20.30");
    let empty = parse_message("PATCH: - v1.0.0").unwrap();
    assert_eq!(empty.project, "");
}

#[test]
fn parse_rejects_other_subjects() {
    assert!(parse_message("").is_none());
    assert!(parse_message("PATCH:- v1.0.0").is_none());
    assert!(parse_message("PATCH: P - 1.0.0").is_none());
    assert!(parse_message("PATCH: P - v1.0").is_none());
    assert!(parse_message("patch: P - v1.0.0").is_none());
    assert!(parse_message("FEATURE: P - v1.0.0").is_none());
    assert!(parse_message("PATCH: a-b - v1.0.0").is_none());
}

#[test]
fn parse_unicode_digits_in_version() {
    let parsed = parse_message("PATCH: P - v\u{0663}.1.2").unwrap();
    assert_eq!(parsed.version, "v\u{0663}.1.2");
}

#[test]
fn validate_errors() {
    assert_eq!(validate_message("").unwrap_err(), "Message is empty");
    let long = format!("PATCH: {} - v1.0.0", "x".repeat(100));
    assert_eq!(
        validate_message(&long).unwrap_err(),
        "Subject too long: 116 characters (max 100)"
    );
    let wide = format!("PATCH: {} - v1.0.0", "\u{e9}".repeat(45));
    assert_eq!(
        validate_message(&wide).unwrap_err(),
        "Subject too long: 106 characters (max 100)"
    );
    assert_eq!(
        validate_message("feat(api)!: add endpoint").unwrap_err(),
        "Message matches Conventional Commits but not VRC format. Use TYPE: PROJECT - vVERSION"
    );
    assert_eq!(
        validate_message("feat(: add endpoint").unwrap_err(),
        "Invalid message format. Expected: TYPE: PROJECT - vVERSION"
    );
    assert_eq!(
        validate_message("fix:nospace").unwrap_err(),
        "Invalid message format. Expected: TYPE: PROJECT - vVERSION"
    );
}

#[test]
fn validate_ok_returns_parse() {
    let ok = validate_message("UPDATE: App - v1.2.0\n\n- Added: x").unwrap();
    assert_eq!(ok.commit_type, CommitTypeLocal::Update);
    assert_eq!(ok.project, "App");
    assert_eq!(ok.body, Some("- Added: x".to_string()));
}

#[test]
fn commit_type_conversions() {
    assert_eq!(CommitTypeLocal::from(CommitType::Release), CommitTypeLocal::Release);
    assert_eq!(CommitType::from(CommitTypeLocal::Update), CommitType::Update);
    assert_eq!(CommitTypeLocal::Patch.as_str(), "PATCH");
}

#[test]
fn parse_version_digits_come_from_the_digit_class() {
    assert!(parse_message("PATCH: P - vA.1.2").is_none());
    assert!(parse_message("PATCH: P - v1.\u{0669}\u{0660}.2").is_some());
}

#[test]
fn generated_message_validates() {
    let msg = generate_message(CommitType::Update, "Tool", "v0.3.0", Some("- Added: a"));
    let ok = validate_message(&msg).unwrap();
    assert_eq!(ok.version, "v0.3.0");
    assert_eq!(ok.full_message, msg);
}

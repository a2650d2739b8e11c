use aureus_vrc::cli::CommitType;
use aureus_vrc::convention::detect::{detect_commit_type, infer_from_files};

#[test]
fn test_detect_feat() {
    assert_eq!(detect_commit_type("feat: add authentication"), Some(CommitType::Update));
}

#[test]
fn test_detect_fix() {
    assert_eq!(detect_commit_type("fix: typo in header"), Some(CommitType::Patch));
}

#[test]
fn test_detect_breaking() {
    assert_eq!(detect_commit_type("feat!: remove deprecated API"), Some(CommitType::Release));
}

#[test]
fn test_infer_from_manifest() {
    let files = vec!["Cargo.toml".to_string(), "src/main.rs".to_string()];
    assert_eq!(infer_from_files(&files), Some(CommitType::Update));
}

#[test]
fn test_infer_from_tests() {
    let files = vec!["src/auth_test.rs".to_string(), "tests/unit.rs".to_string()];
    assert_eq!(infer_from_files(&files), Some(CommitType::Patch));
}

#[test]
fn detect_empty_message_has_no_type() {
    assert_eq!(detect_commit_type(""), None);
}

#[test]
fn detect_breaking_change_text() {
    assert_eq!(detect_commit_type("refactor: BREAKING CHANGE in config"), Some(CommitType::Release));
}

#[test]
fn detect_breaking_keyword() {
    assert_eq!(detect_commit_type("BREAKING: change API"), Some(CommitType::Release));
    assert_eq!(detect_commit_type("fix: login bug"), Some(CommitType::Patch));
}

#[test]
fn detect_only_first_line_counts() {
    assert_eq!(detect_commit_type("feat: login\nfix!: second line"), Some(CommitType::Update));
}

#[test]
fn detect_refactor_and_perf() {
    assert_eq!(detect_commit_type("refactor: split module"), Some(CommitType::Update));
    assert_eq!(detect_commit_type("perf: faster"), Some(CommitType::Patch));
    assert_eq!(detect_commit_type("chore: tidy"), Some(CommitType::Patch));
}

#[test]
fn infer_docs_only_and_empty() {
    let docs = vec!["README.md".to_string(), "docs/guide.txt".to_string()];
    assert_eq!(infer_from_files(&docs), Some(CommitType::Patch));
    let none: Vec<String> = Vec::new();
    assert_eq!(infer_from_files(&none), Some(CommitType::Patch));
}

#[test]
fn infer_source_and_other() {
    let src = vec!["lib/app.ts".to_string()];
    assert_eq!(infer_from_files(&src), Some(CommitType::Update));
    let other = vec!["assets/logo.png".to_string()];
    assert_eq!(infer_from_files(&other), Some(CommitType::Patch));
}

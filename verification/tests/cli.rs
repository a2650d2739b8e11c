use aureus_vrc::cli::CommitType;
use aureus_vrc::convention::detect_commit_type;

#[test]
fn test_commit_type_detection() {
    assert_eq!(detect_commit_type("feat: add login"), Some(CommitType::Update));
    assert_eq!(detect_commit_type("fix: typo"), Some(CommitType::Patch));
    assert_eq!(detect_commit_type("feat!: remove API"), Some(CommitType::Release));
}

#[test]
fn test_commit_type_to_string() {
    assert_eq!(CommitType::Release.to_string(), "RELEASE");
    assert_eq!(CommitType::Update.to_string(), "UPDATE");
    assert_eq!(CommitType::Patch.to_string(), "PATCH");
}

#[test]
fn test_commit_type_from_str() {
    assert_eq!(CommitType::from_str("RELEASE"), Some(CommitType::Release));
    assert_eq!(CommitType::from_str("update"), Some(CommitType::Update));
    assert_eq!(CommitType::from_str("patch"), Some(CommitType::Patch));
    assert_eq!(CommitType::from_str("unknown"), None);
}

#[test]
fn commit_type_from_str_mixed_case() {
    assert_eq!(CommitType::from_str("ReLeAsE"), Some(CommitType::Release));
    assert_eq!(CommitType::from_str("patches"), None);
    assert_eq!(CommitType::from_str(""), None);
    assert_eq!(CommitType::from_str(CommitType::Update.as_str()), Some(CommitType::Update));
}

use aureus_vrc::cli::CommitType;
use aureus_vrc::convention::version::{
    bump_version, determine_next_version, latest_version, parse_version, Version,
};

#[test]
fn test_version_parsing() {
    let version = parse_version("v1.2.3").unwrap();
    assert_eq!(version.major, 1);
    assert_eq!(version.minor, 2);
    assert_eq!(version.patch, 3);
}

#[test]
fn test_version_bump_release() {
    let version = Version::new(1, 2, 3);
    let bumped = version.bump(CommitType::Release);
    assert_eq!(bumped, Version::new(2, 0, 0));
}

#[test]
fn test_version_bump_update() {
    let version = Version::new(1, 2, 3);
    let bumped = version.bump(CommitType::Update);
    assert_eq!(bumped, Version::new(1, 3, 0));
}

#[test]
fn test_version_bump_patch() {
    let version = Version::new(1, 2, 3);
    let bumped = version.bump(CommitType::Patch);
    assert_eq!(bumped, Version::new(1, 2, 4));
}

#[test]
fn test_version_display() {
    let version = Version::new(1, 2, 3);
    assert_eq!(version.to_string(), "v1.2.3");
}

#[test]
fn test_version_from_str() {
    let version = Version::from_str("v1.2.3").unwrap();
    assert_eq!(version, Version::new(1, 2, 3));

    let version2 = Version::from_str("1.2.3").unwrap();
    assert_eq!(version2, Version::new(1, 2, 3));
}

#[test]
fn test_version_suggestions() {
    let version = Version::new(1, 0, 0);
    let suggestions = version.suggestions();
    assert_eq!(suggestions.current, Version::new(1, 0, 0));
    assert_eq!(suggestions.release, Version::new(2, 0, 0));
    assert_eq!(suggestions.update, Version::new(1, 1, 0));
    assert_eq!(suggestions.patch, Version::new(1, 0, 1));
}

#[test]
fn version_roundtrip_values() {
    for v in [Version::new(0, 0, 0), Version::new(10, 200, 3000), Version::new(u64::MAX, 0, 7)] {
        assert_eq!(parse_version(&v.to_string()), Some(v));
    }
}

#[test]
fn parse_version_rejects() {
    assert_eq!(parse_version(""), None);
    assert_eq!(parse_version("v1.2"), None);
    assert_eq!(parse_version("v1.2.3.4"), None);
    assert_eq!(parse_version("v1..3"), None);
    assert_eq!(parse_version("vv1.2.3"), None);
    assert_eq!(parse_version("v1.2.x"), None);
    assert_eq!(parse_version("v18446744073709551616.0.0"), None);
    assert_eq!(parse_version("v18446744073709551615.0.0"), Some(Version::new(u64::MAX, 0, 0)));
}

#[test]
fn bump_version_texts() {
    assert_eq!(bump_version("v1.2.3", CommitType::Release), Ok("v2.0.0".to_string()));
    assert_eq!(bump_version("1.2.3", CommitType::Update), Ok("v1.3.0".to_string()));
    assert_eq!(bump_version("v1.2.3", CommitType::Patch), Ok("v1.2.4".to_string()));
    assert_eq!(bump_version("nope", CommitType::Patch), Err("Invalid version: nope".to_string()));
    assert_eq!(
        bump_version("v0.0.18446744073709551615", CommitType::Patch),
        Err("Version number overflow: v0.0.18446744073709551615".to_string())
    );
}

#[test]
fn next_version_defaults() {
    assert_eq!(determine_next_version("v0.0.0", CommitType::Update), "v0.1.0");
    assert_eq!(determine_next_version("garbage", CommitType::Release), "v1.0.0");
    assert_eq!(
        determine_next_version("v18446744073709551615.0.0", CommitType::Release),
        "v18446744073709551615.0.0"
    );
}

#[test]
fn latest_version_picks_greatest_first() {
    let tags: Vec<String> = ["v1.2.0", "notes", "v1.10.0", "1.10.0", "v1.9.9"]
        .iter()
        .map(|s| s.to_string())
        .collect();
    assert_eq!(latest_version(&tags), Some((2, Version::new(1, 10, 0))));
    let none: Vec<String> = vec!["alpha".to_string()];
    assert_eq!(latest_version(&none), None);
}

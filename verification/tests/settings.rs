use aureus_vrc::commands::settings::{
    entry_runs_rewrite_hook, rewrite_settings_text, settings_take_hook_list, updated_settings,
};
use aureus_vrc::json::{get_member, Json};

fn value(text: &str) -> serde_json::Value {
    serde_json::from_str(text).unwrap()
}

fn rewrite(text: Option<&str>) -> Option<serde_json::Value> {
    rewrite_settings_text(text, false, ".agent", "aureus-rewrite.sh").map(|t| value(&t))
}

const OUR_ENTRY: &str =
    r#"{"matcher":"Bash","hooks":[{"type":"command","command":"~/.agent/hooks/aureus-rewrite.sh"}]}"#;

#[test]
fn settings_created_when_missing() {
    let expected = value(&format!(r#"{{"hooks":{{"PreToolUse":[{}]}}}}"#, OUR_ENTRY));
    assert_eq!(rewrite(None), Some(expected.clone()));
    assert_eq!(rewrite(Some("not json")), Some(expected.clone()));
    assert_eq!(rewrite(Some("null")), Some(expected));
}

#[test]
fn settings_keep_other_entries_and_keys() {
    let before = r#"{
        "theme": "dark",
        "limits": {"n": 10, "ratio": 1.5, "neg": -3},
        "hooks": {
            "PostToolUse": [{"matcher": "X"}],
            "PreToolUse": [
                {"matcher": "Bash", "hooks": [{"type": "command", "command": "~/old/aureus-rewrite.sh"}]},
                {"matcher": "Edit", "hooks": [{"type": "command", "command": "other-tool"}]},
                {"matcher": "Bash", "hooks": [{"type": "command", "command": "/x/aureus-rewrite.sh"}]},
                {"matcher": "Y", "hooks": [{"type": "script", "command": "aureus-rewrite"}]}
            ]
        }
    }"#;
    let expected = value(&format!(
        r#"{{
        "theme": "dark",
        "limits": {{"n": 10, "ratio": 1.5, "neg": -3}},
        "hooks": {{
            "PostToolUse": [{{"matcher": "X"}}],
            "PreToolUse": [
                {{"matcher": "Edit", "hooks": [{{"type": "command", "command": "other-tool"}}]}},
                {{"matcher": "Y", "hooks": [{{"type": "script", "command": "aureus-rewrite"}}]}},
                {}
            ]
        }}
    }}"#,
        OUR_ENTRY
    ));
    assert_eq!(rewrite(Some(before)), Some(expected));
}

#[test]
fn settings_rewrite_twice_changes_nothing() {
    let before = r#"{"a": [1, 2], "hooks": {"PreToolUse": "oops"}}"#;
    let once = rewrite_settings_text(Some(before), true, ".agent", "aureus-rewrite.ps1").unwrap();
    let twice = rewrite_settings_text(Some(&once), true, ".agent", "aureus-rewrite.ps1").unwrap();
    assert_eq!(once, twice);
    let v = value(&once);
    assert_eq!(v["a"], value("[1, 2]"));
    assert_eq!(
        v["hooks"]["PreToolUse"],
        value(r#"[{"matcher":"Command","hooks":[{"type":"command","command":"~/.agent/hooks/aureus-rewrite.ps1"}]}]"#)
    );
}

#[test]
fn settings_that_cannot_take_the_list() {
    assert_eq!(rewrite(Some("[1]")), None);
    assert_eq!(rewrite(Some(r#"{"hooks": 3}"#)), None);
    assert_eq!(rewrite(Some("true")), None);
    assert!(rewrite(Some(r#"{"hooks": null}"#)).is_some());
    assert!(!settings_take_hook_list(&Some(Json::Array(Vec::new()))));
    assert!(settings_take_hook_list(&None));
}

#[test]
fn settings_update_on_values() {
    let settings = Json::Object(vec![("k".to_string(), Json::Bool(true))]);
    let r = updated_settings(Some(settings), false, ".agent", "aureus-rewrite.sh");
    assert!(matches!(get_member(&r, "k"), Some(Json::Bool(true))));
    let hooks = get_member(&r, "hooks").unwrap();
    match get_member(hooks, "PreToolUse") {
        Some(Json::Array(list)) => {
            assert_eq!(list.len(), 1);
            assert!(entry_runs_rewrite_hook(&list[0]));
        }
        other => panic!("unexpected {:?}", other),
    }
}

#[test]
fn rewrite_entry_recognised() {
    let hook = |kind: &str, command: &str| {
        Json::Object(vec![(
            "hooks".to_string(),
            Json::Array(vec![Json::Object(vec![
                ("type".to_string(), Json::Str(kind.to_string())),
                ("command".to_string(), Json::Str(command.to_string())),
            ])]),
        )])
    };
    assert!(entry_runs_rewrite_hook(&hook("command", "~/.agent/hooks/aureus-rewrite.sh")));
    assert!(!entry_runs_rewrite_hook(&hook("command", "other-tool")));
    assert!(!entry_runs_rewrite_hook(&hook("script", "aureus-rewrite")));
    assert!(!entry_runs_rewrite_hook(&Json::Object(Vec::new())));
    assert!(!entry_runs_rewrite_hook(&Json::Null));
}

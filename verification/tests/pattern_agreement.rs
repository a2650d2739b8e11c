use aureus_vrc::convention::parser::{parse_message, validate_message};

fn vrc_pattern() -> regex::Regex {
    regex::Regex::new(
        r"^(?P<type>RELEASE|UPDATE|PATCH):\s*(?P<project>[^-]+?)\s*-\s*(?P<version>v\d+\.\d+\.\d+)",
    )
    .unwrap()
}

fn conventional_pattern() -> regex::Regex {
    regex::Regex::new(
        r"^(?P<type>feat|fix|docs|style|refactor|perf|test|build|ci|chore|revert)(?:\((?P<scope>[^)]+)\))?(?P<breaking>!)?:\s+(?P<description>.+)",
    )
    .unwrap()
}

/// Subjects built from a small alphabet that holds every character the
/// pattern treats specially.
fn subjects() -> Vec<String> {
    let pieces = [
        "RELEASE:", "UPDATE:", "PATCH:", "PATCH", " ", "\t", "\u{a0}", "-", "v", "1", "22", ".",
        "x", "\u{0663}", ":", "\r", "a b", "(", ")", "!", "feat", "fix(", "docs",
    ];
    let mut out = Vec::new();
    let mut seed: u64 = 0x2545_f491_4f6c_dd1d;
    for _ in 0..1500 {
        let mut s = String::new();
        seed ^= seed << 13;
        seed ^= seed >> 7;
        seed ^= seed << 17;
        let n = (seed % 9) as usize + 1;
        let start = ((seed >> 8) % 4) as usize;
        s.push_str(pieces[start]);
        let mut k = seed;
        for _ in 0..n {
            k = k.wrapping_mul(6364136223846793005).wrapping_add(1442695040888963407);
            s.push_str(pieces[((k >> 33) as usize) % pieces.len()]);
        }
        out.push(s);
    }
    let types = ["RELEASE:", "UPDATE:", "PATCH:", "PATCH", "UPDATE"];
    let middles = [" ", "\t", "", "a", "x y", "\u{a0}", " - ", "-", ":", "\r", "  name  "];
    let blanks = [" ", "", "\t ", "\u{3000}"];
    let versions = [
        "v1.2.3", "v1.2", "v\u{0663}.1.0", "v12.0.7x", "v1..2", "1.2.3", "v1.2.3.4", "V1.2.3",
        "v10.20.30",
    ];
    let tails = ["", " extra", "\r", ".5", "-1"];
    let mut k: u64 = 7;
    for _ in 0..1500 {
        let mut pick = |len: usize| {
            k = k.wrapping_mul(6364136223846793005).wrapping_add(1442695040888963407);
            ((k >> 33) as usize) % len
        };
        let mut s = String::new();
        s.push_str(types[pick(types.len())]);
        for _ in 0..pick(3) {
            s.push_str(middles[pick(middles.len())]);
        }
        s.push_str(blanks[pick(blanks.len())]);
        s.push('-');
        s.push_str(blanks[pick(blanks.len())]);
        s.push_str(versions[pick(versions.len())]);
        s.push_str(tails[pick(tails.len())]);
        out.push(s);
    }
    for s in [
        "PATCH: - v1.0.0",
        "PATCH:- v1.0.0",
        "PATCH:  \u{a0} name \t - \t v1.2.3tail",
        "UPDATE:x-v1.2.3",
        "UPDATE:x - v1.2",
        "RELEASE: a - b - v1.2.3",
        "RELEASE: a b c   -v01.002.3",
        "feat(scope)!: thing",
        "feat(): thing",
        "fix: ",
        "fix:  x",
    ] {
        out.push(s.to_string());
    }
    out
}

#[test]
fn subject_parse_agrees_with_pattern() {
    let re = vrc_pattern();
    let all = subjects();
    for s in &all {
        let s = s.as_str();
        let mine = parse_message(&s);
        let theirs = re.captures(&s);
        match (&mine, &theirs) {
            (Some(m), Some(c)) => {
                assert_eq!(m.commit_type.as_str(), &c["type"], "type of {:?}", s);
                assert_eq!(m.project, c["project"].trim(), "project of {:?}", s);
                assert_eq!(m.version, &c["version"], "version of {:?}", s);
            }
            (None, None) => {}
            _ => panic!("disagreement on {:?}: {:?} vs {:?}", s, mine.is_some(), theirs.is_some()),
        }
    }
    let n = all.iter().filter(|s| re.is_match(s)).count();
    assert!(n > 200);
}

#[test]
fn conventional_hint_agrees_with_pattern() {
    let vrc = vrc_pattern();
    let conv = conventional_pattern();
    let hint = "Message matches Conventional Commits but not VRC format. Use TYPE: PROJECT - vVERSION";
    for s in subjects() {
        if s.is_empty() || s.contains('\n') || s.len() > 100 || vrc.is_match(&s) {
            continue;
        }
        let r = validate_message(&s);
        assert_eq!(r.as_ref().err().map(|e| e == hint), Some(conv.is_match(&s)), "on {:?}", s);
    }
}

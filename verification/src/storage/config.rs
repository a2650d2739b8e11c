//! The configuration: its parts, its defaults, and setting a value by key.

use vstd::prelude::*;
use crate::text::{
    chars_of, string_of, push_str, decimal, push_decimal, index_of, lemma_index_of, find_char,
    slice_chars,
};
use crate::json::{
    Json, JsonView, opt_json_view, member, members_of, members_view, lemma_view, find_member,
};

verus! {

/// The whole configuration.
#[derive(Debug, Clone)]
pub struct Config {
    pub project: ProjectConfig,
    pub commit: CommitConfig,
    pub hooks: HooksConfig,
}

/// The project section.
#[derive(Debug, Clone)]
pub struct ProjectConfig {
    pub name: Option<String>,
    pub default_branch: String,
}

/// The commit section.
#[derive(Debug, Clone)]
pub struct CommitConfig {
    pub types: CommitTypes,
    pub rules: CommitRules,
}

/// How each of the three commit types is described.
#[derive(Debug, Clone)]
pub struct CommitTypes {
    pub release: CommitType,
    pub update: CommitType,
    pub patch: CommitType,
}

/// The description of one commit type.
#[derive(Debug, Clone)]
pub struct CommitType {
    pub description: String,
    pub emoji: String,
    pub format: String,
}

/// The rules that commit messages follow.
#[derive(Debug, Clone)]
pub struct CommitRules {
    pub subject_max_length: usize,
    pub require_version: bool,
    pub require_project_name: bool,
    pub version_pattern: String,
    pub project_name_max_length: usize,
}

/// The hooks section.
#[derive(Debug, Clone)]
pub struct HooksConfig {
    pub pre_commit: PreCommitConfig,
    pub commit_msg: CommitMsgConfig,
}

/// The pre-commit hook's settings.
#[derive(Debug, Clone)]
pub struct PreCommitConfig {
    pub enabled: bool,
    pub lint: bool,
    pub typecheck: bool,
    pub test: bool,
    pub secret_scan: bool,
}

/// The commit-msg hook's settings.
#[derive(Debug, Clone)]
pub struct CommitMsgConfig {
    pub enabled: bool,
    pub validate: bool,
    pub enforce_vrc: bool,
    pub allow_amend: bool,
}

/// Whether a commit type is described by the given texts.
pub open spec fn describes(t: CommitType, description: Seq<char>, emoji: Seq<char>, format: Seq<char>) -> bool {
    t.description@ == description && t.emoji@ == emoji && t.format@ == format
}

/// Whether `c` is the default configuration.
pub open spec fn is_default_config(c: Config) -> bool {
    &&& c.project.name is None
    &&& c.project.default_branch@ == "main"@
    &&& describes(c.commit.types.release, "Major release - Breaking changes"@, "🚀"@, "RELEASE: {project} - v{version}"@)
    &&& describes(c.commit.types.update, "Minor update - New features"@, "✨"@, "UPDATE: {project} - v{version}"@)
    &&& describes(c.commit.types.patch, "Patch - Bug fixes"@, "🔧"@, "PATCH: {project} - v{version}"@)
    &&& c.commit.rules.subject_max_length == 100
    &&& c.commit.rules.require_version
    &&& c.commit.rules.require_project_name
    &&& c.commit.rules.version_pattern@ == "v\\d+\\.\\d+\\.\\d+"@
    &&& c.commit.rules.project_name_max_length == 50
    &&& c.hooks.pre_commit.enabled
    &&& c.hooks.pre_commit.lint
    &&& c.hooks.pre_commit.typecheck
    &&& !c.hooks.pre_commit.test
    &&& c.hooks.pre_commit.secret_scan
    &&& c.hooks.commit_msg.enabled
    &&& c.hooks.commit_msg.validate
    &&& c.hooks.commit_msg.enforce_vrc
    &&& c.hooks.commit_msg.allow_amend
}

impl Default for Config {
    fn default() -> (r: Config)
        ensures
            is_default_config(r),
    {
        Config {
            project: ProjectConfig { name: None, default_branch: "main".to_string() },
            commit: CommitConfig {
                types: CommitTypes {
                    release: CommitType {
                        description: "Major release - Breaking changes".to_string(),
                        emoji: "🚀".to_string(),
                        format: "RELEASE: {project} - v{version}".to_string(),
                    },
                    update: CommitType {
                        description: "Minor update - New features".to_string(),
                        emoji: "✨".to_string(),
                        format: "UPDATE: {project} - v{version}".to_string(),
                    },
                    patch: CommitType {
                        description: "Patch - Bug fixes".to_string(),
                        emoji: "🔧".to_string(),
                        format: "PATCH: {project} - v{version}".to_string(),
                    },
                },
                rules: CommitRules {
                    subject_max_length: 100,
                    require_version: true,
                    require_project_name: true,
                    version_pattern: "v\\d+\\.\\d+\\.\\d+".to_string(),
                    project_name_max_length: 50,
                },
            },
            hooks: HooksConfig {
                pre_commit: PreCommitConfig {
                    enabled: true,
                    lint: true,
                    typecheck: true,
                    test: false,
                    secret_scan: true,
                },
                commit_msg: CommitMsgConfig {
                    enabled: true,
                    validate: true,
                    enforce_vrc: true,
                    allow_amend: true,
                },
            },
        }
    }
}

/// Whether two configurations agree everywhere but in the project section.
pub open spec fn same_but_project(a: Config, b: Config) -> bool {
    &&& a.commit == b.commit
    &&& a.hooks == b.hooks
}

/// The error for a key that cannot be set.
pub open spec fn unknown_key_error(key: Seq<char>) -> Seq<char> {
    "Unknown config key: "@ + key
}

/// Whether two texts are equal.
pub fn same_text(a: &str, b: &str) -> (r: bool)
    ensures
        r == (a@ == b@),
{
    let x = chars_of(a);
    let y = chars_of(b);
    if x.len() != y.len() {
        return false;
    }
    let r = crate::text::starts_with(&x, &y);
    proof {
        if r {
            assert(x@ =~= y@);
        }
    }
    r
}

/// Sets the value under `key` (`project.name` or `project.default_branch`);
/// any other key is refused and leaves the configuration as it was.
pub fn set_config_value(config: &mut Config, key: &str, value: &str) -> (r: Result<(), String>)
    ensures
        key@ == "project.name"@ ==> {
            &&& r is Ok
            &&& final(config).project.name matches Some(n) && n@ == value@
            &&& final(config).project.default_branch == old(config).project.default_branch
            &&& same_but_project(*final(config), *old(config))
        },
        key@ == "project.default_branch"@ ==> {
            &&& r is Ok
            &&& final(config).project.default_branch@ == value@
            &&& final(config).project.name == old(config).project.name
            &&& same_but_project(*final(config), *old(config))
        },
        key@ != "project.name"@ && key@ != "project.default_branch"@ ==> {
            &&& r matches Err(e) && e@ == unknown_key_error(key@)
            &&& *final(config) == *old(config)
        },
{
    proof {
        reveal_strlit("project.name");
        reveal_strlit("project.default_branch");
        assert("project.name"@.len() != "project.default_branch"@.len());
    }
    if same_text(key, "project.name") {
        config.project.name = Some(value.to_string());
        Ok(())
    } else if same_text(key, "project.default_branch") {
        let ghost before = *config;
        config.project.default_branch = value.to_string();
        assert(config.project.name == before.project.name);
        assert(config.commit == before.commit);
        assert(config.hooks == before.hooks);
        Ok(())
    } else {
        let mut e: Vec<char> = Vec::new();
        push_str(&mut e, "Unknown config key: ");
        push_str(&mut e, key);
        Err(string_of(&e))
    }
}

// ---------------------------------------------------------------------------
// Reading a value by a dotted key.
// ---------------------------------------------------------------------------

/// A text as a JSON string.
pub open spec fn jstr(s: String) -> JsonView {
    JsonView::Str(s@)
}

/// A count as a JSON number.
pub open spec fn jnum(n: usize) -> JsonView {
    JsonView::Number(decimal(n as nat))
}

/// The JSON form of a commit type's settings.
pub open spec fn commit_type_json(t: CommitType) -> JsonView {
    JsonView::Object(
        seq![
            ("description"@, jstr(t.description)),
            ("emoji"@, jstr(t.emoji)),
            ("format"@, jstr(t.format)),
        ],
    )
}

/// The JSON form of the configuration, with the keys of its file (the commit
/// types under `RELEASE`, `UPDATE` and `PATCH`, a missing name as `null`).
pub open spec fn config_json(c: Config) -> JsonView {
    JsonView::Object(
        seq![
            (
                "project"@,
                JsonView::Object(
                    seq![
                        (
                            "name"@,
                            match c.project.name {
                                Some(n) => jstr(n),
                                None => JsonView::Null,
                            },
                        ),
                        ("default_branch"@, jstr(c.project.default_branch)),
                    ],
                ),
            ),
            (
                "commit"@,
                JsonView::Object(
                    seq![
                        (
                            "types"@,
                            JsonView::Object(
                                seq![
                                    ("RELEASE"@, commit_type_json(c.commit.types.release)),
                                    ("UPDATE"@, commit_type_json(c.commit.types.update)),
                                    ("PATCH"@, commit_type_json(c.commit.types.patch)),
                                ],
                            ),
                        ),
                        (
                            "rules"@,
                            JsonView::Object(
                                seq![
                                    ("subject_max_length"@, jnum(c.commit.rules.subject_max_length)),
                                    ("require_version"@, JsonView::Bool(c.commit.rules.require_version)),
                                    (
                                        "require_project_name"@,
                                        JsonView::Bool(c.commit.rules.require_project_name),
                                    ),
                                    ("version_pattern"@, jstr(c.commit.rules.version_pattern)),
                                    (
                                        "project_name_max_length"@,
                                        jnum(c.commit.rules.project_name_max_length),
                                    ),
                                ],
                            ),
                        ),
                    ],
                ),
            ),
            (
                "hooks"@,
                JsonView::Object(
                    seq![
                        (
                            "pre_commit"@,
                            JsonView::Object(
                                seq![
                                    ("enabled"@, JsonView::Bool(c.hooks.pre_commit.enabled)),
                                    ("lint"@, JsonView::Bool(c.hooks.pre_commit.lint)),
                                    ("typecheck"@, JsonView::Bool(c.hooks.pre_commit.typecheck)),
                                    ("test"@, JsonView::Bool(c.hooks.pre_commit.test)),
                                    ("secret_scan"@, JsonView::Bool(c.hooks.pre_commit.secret_scan)),
                                ],
                            ),
                        ),
                        (
                            "commit_msg"@,
                            JsonView::Object(
                                seq![
                                    ("enabled"@, JsonView::Bool(c.hooks.commit_msg.enabled)),
                                    ("validate"@, JsonView::Bool(c.hooks.commit_msg.validate)),
                                    ("enforce_vrc"@, JsonView::Bool(c.hooks.commit_msg.enforce_vrc)),
                                    ("allow_amend"@, JsonView::Bool(c.hooks.commit_msg.allow_amend)),
                                ],
                            ),
                        ),
                    ],
                ),
            ),
        ],
    )
}

/// The parts of a dotted key: the texts between the dots (so `a..b` has an
/// empty part, and a key without a dot is one part).
pub open spec fn dot_parts(key: Seq<char>) -> Seq<Seq<char>>
    decreases key.len(),
{
    let i = index_of(key, '.');
    if i >= key.len() {
        seq![key]
    } else {
        seq![key.take(i as int)] + dot_parts(key.skip((i + 1) as int))
    }
}

/// The value reached from `v` by taking, in turn, the member named by each part.
pub open spec fn value_at_path(v: JsonView, parts: Seq<Seq<char>>) -> Option<JsonView>
    decreases parts.len(),
{
    if parts.len() == 0 {
        Some(v)
    } else {
        match member(v, parts[0]) {
            Some(x) => value_at_path(x, parts.drop_first()),
            None => None,
        }
    }
}

/// The value of the configuration under a dotted key.
pub open spec fn spec_config_value(c: Config, key: Seq<char>) -> Option<JsonView> {
    value_at_path(config_json(c), dot_parts(key))
}

/// An object of the members `ms`.
fn object_of(ms: Vec<(String, Json)>) -> (r: Json)
    ensures
        r@ == JsonView::Object(members_view(ms@)),
{
    let r = Json::Object(ms);
    proof {
        lemma_view(r);
    }
    r
}

fn text_json(s: &String) -> (r: Json)
    ensures
        r@ == jstr(*s),
{
    Json::Str(s.clone())
}

fn count_json(n: usize) -> (r: Json)
    ensures
        r@ == jnum(n),
{
    let mut out: Vec<char> = Vec::new();
    push_decimal(&mut out, n as u128);
    Json::Number(string_of(&out))
}

fn commit_type_to_json(t: &CommitType) -> (r: Json)
    ensures
        r@ == commit_type_json(*t),
{
    let ms = vec![
        ("description".to_string(), text_json(&t.description)),
        ("emoji".to_string(), text_json(&t.emoji)),
        ("format".to_string(), text_json(&t.format)),
    ];
    assert(members_view(ms@) =~= seq![
        ("description"@, jstr(t.description)),
        ("emoji"@, jstr(t.emoji)),
        ("format"@, jstr(t.format)),
    ]);
    object_of(ms)
}

/// The JSON form of the configuration.
pub fn config_to_json(c: &Config) -> (r: Json)
    ensures
        r@ == config_json(*c),
{
    let name = match &c.project.name {
        Some(n) => text_json(n),
        None => Json::Null,
    };
    let project = vec![
        ("name".to_string(), name),
        ("default_branch".to_string(), text_json(&c.project.default_branch)),
    ];
    let ghost pv = members_view(project@);
    let project = object_of(project);
    let types = vec![
        ("RELEASE".to_string(), commit_type_to_json(&c.commit.types.release)),
        ("UPDATE".to_string(), commit_type_to_json(&c.commit.types.update)),
        ("PATCH".to_string(), commit_type_to_json(&c.commit.types.patch)),
    ];
    let ghost tv = members_view(types@);
    let types = object_of(types);
    let rl = &c.commit.rules;
    let rules = vec![
        ("subject_max_length".to_string(), count_json(rl.subject_max_length)),
        ("require_version".to_string(), Json::Bool(rl.require_version)),
        ("require_project_name".to_string(), Json::Bool(rl.require_project_name)),
        ("version_pattern".to_string(), text_json(&rl.version_pattern)),
        ("project_name_max_length".to_string(), count_json(rl.project_name_max_length)),
    ];
    let ghost rv = members_view(rules@);
    let rules = object_of(rules);
    let commit = vec![("types".to_string(), types), ("rules".to_string(), rules)];
    let ghost cv = members_view(commit@);
    let commit = object_of(commit);
    let pc = &c.hooks.pre_commit;
    let pre_commit = vec![
        ("enabled".to_string(), Json::Bool(pc.enabled)),
        ("lint".to_string(), Json::Bool(pc.lint)),
        ("typecheck".to_string(), Json::Bool(pc.typecheck)),
        ("test".to_string(), Json::Bool(pc.test)),
        ("secret_scan".to_string(), Json::Bool(pc.secret_scan)),
    ];
    let ghost pcv = members_view(pre_commit@);
    let pre_commit = object_of(pre_commit);
    let cm = &c.hooks.commit_msg;
    let commit_msg = vec![
        ("enabled".to_string(), Json::Bool(cm.enabled)),
        ("validate".to_string(), Json::Bool(cm.validate)),
        ("enforce_vrc".to_string(), Json::Bool(cm.enforce_vrc)),
        ("allow_amend".to_string(), Json::Bool(cm.allow_amend)),
    ];
    let ghost cmv = members_view(commit_msg@);
    let commit_msg = object_of(commit_msg);
    let hooks = vec![("pre_commit".to_string(), pre_commit), ("commit_msg".to_string(), commit_msg)];
    let ghost hv = members_view(hooks@);
    let hooks = object_of(hooks);
    let top = vec![
        ("project".to_string(), project),
        ("commit".to_string(), commit),
        ("hooks".to_string(), hooks),
    ];
    let ghost topv = members_view(top@);
    proof {
        let cj = config_json(*c);
        let t = members_of(cj);
        assert(pv =~= members_of_at(t, 0));
        assert(tv =~= members_of_at(members_of_at(t, 1), 0));
        assert(rv =~= members_of_at(members_of_at(t, 1), 1));
        assert(cv =~= members_of_at(t, 1));
        assert(pcv =~= members_of_at(members_of_at(t, 2), 0));
        assert(cmv =~= members_of_at(members_of_at(t, 2), 1));
        assert(hv =~= members_of_at(t, 2));
        assert(topv =~= t);
    }
    object_of(top)
}

/// The members of the object at position `i` of `ms` (none if it is not one).
pub open spec fn members_of_at(ms: Seq<(Seq<char>, JsonView)>, i: int) -> Seq<(Seq<char>, JsonView)> {
    match ms[i].1 {
        JsonView::Object(o) => o,
        _ => Seq::empty(),
    }
}

/// Takes the member named `k` out of `v`, when `v` is an object that has one.
fn take_member(v: Json, k: &str) -> (r: Option<Json>)
    ensures
        opt_json_view(r) == member(v@, k@),
{
    proof {
        lemma_view(v);
    }
    match v {
        Json::Object(mut o) => {
            let ghost ov = o@;
            let i = find_member(&o, k);
            if i < o.len() {
                let (_, x) = o.remove(i);
                assert(members_view(ov)[i as int].1 == x@);
                Some(x)
            } else {
                None
            }
        },
        _ => None,
    }
}

/// The dotted key's parts from position `start` on, split at the dot at `d`.
proof fn lemma_dot_parts_step(k: Seq<char>, start: int, d: int)
    requires
        0 <= start <= d <= k.len(),
        d < k.len() ==> k[d] == '.',
        forall|j: int| start <= j < d ==> k[j] != '.',
    ensures
        d < k.len() ==> dot_parts(k.skip(start)) == seq![k.subrange(start, d)] + dot_parts(k.skip(d + 1)),
        d == k.len() ==> dot_parts(k.skip(start)) == seq![k.skip(start)],
{
    let t = k.skip(start);
    lemma_index_of(t, '.');
    let i = index_of(t, '.') as int;
    if i < d - start {
        assert(t[i] == k[start + i]);
    }
    if d < k.len() && d - start < i {
        assert(t[d - start] == k[d]);
    }
    if d < k.len() {
        assert(t.take(i) =~= k.subrange(start, d));
        assert(t.skip(i + 1) =~= k.skip(d + 1));
    }
}

/// The value of the configuration under a dotted key (`a.b.c`: member `c`
/// of member `b` of member `a`), as its file writes it; `None` where a part
/// names no member.
pub fn config_value(config: &Config, key: &str) -> (r: Option<Json>)
    ensures
        opt_json_view(r) == spec_config_value(*config, key@),
{
    let k = chars_of(key);
    let mut cur = config_to_json(config);
    let mut start: usize = 0;
    assert(k@.skip(0) =~= k@);
    loop
        invariant
            start <= k@.len(),
            k@ == key@,
            spec_config_value(*config, key@) == value_at_path(cur@, dot_parts(k@.skip(start as int))),
        decreases k@.len() - start,
    {
        let d = find_char(&k, start, '.');
        proof {
            lemma_dot_parts_step(k@, start as int, d as int);
        }
        let part = string_of(&slice_chars(&k, start, d));
        let ghost parts = dot_parts(k@.skip(start as int));
        let ghost cv = cur@;
        match take_member(cur, part.as_str()) {
            Some(x) => {
                cur = x;
            },
            None => {
                return None;
            },
        }
        if d == k.len() {
            proof {
                assert(k@.skip(start as int) =~= k@.subrange(start as int, d as int));
                assert(parts.drop_first() =~= Seq::<Seq<char>>::empty());
                assert(value_at_path(cur@, Seq::<Seq<char>>::empty()) == Some(cur@));
                assert(member(cv, parts[0]) == Some(cur@));
            }
            return Some(cur);
        }
        assert(parts.drop_first() =~= dot_parts(k@.skip(d + 1)));
        start = d + 1;
    }
}

} // verus!

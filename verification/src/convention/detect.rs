//! Choosing a commit type from a free-form message or from changed files.

use vstd::prelude::*;
use crate::cli::CommitType;
use crate::text::{
    chars_of, first_line, views, split_lines, has_infix, contains_char, contains_chars,
    starts_with, ends_with,
};

verus! {

/// The type that a message's first line asks for: `RELEASE` when it holds `!`
/// or `BREAKING` (so also `BREAKING CHANGE`), `UPDATE` when it starts with
/// `feat` or `refactor`,
/// `PATCH` otherwise (`fix` and `perf` included). `None` for an empty message,
/// which has no first line.
pub open spec fn spec_detect_commit_type(m: Seq<char>) -> Option<CommitType> {
    match first_line(m) {
        None => None,
        Some(l) => Some(
            if l.contains('!') || has_infix(l, "BREAKING"@) {
                CommitType::Release
            } else if "feat"@.is_prefix_of(l) || "refactor"@.is_prefix_of(l) {
                CommitType::Update
            } else if "fix"@.is_prefix_of(l) || "perf"@.is_prefix_of(l) {
                CommitType::Patch
            } else {
                CommitType::Patch
            },
        ),
    }
}

/// Detects the commit type from a conventional commit message:
/// `feat`/`refactor` give `UPDATE`, `fix`/`perf` and anything else `PATCH`,
/// a breaking change (`!` or `BREAKING` on the first line) `RELEASE`.
pub fn detect_commit_type(message: &str) -> (r: Option<CommitType>)
    ensures
        r == spec_detect_commit_type(message@),
{
    let m = chars_of(message);
    let ls = split_lines(&m);
    if ls.len() == 0 {
        return None;
    }
    assert(views(ls@)[0] == ls@[0]@);
    let first = &ls[0];
    if contains_char(first, '!') || contains_chars(first, &chars_of("BREAKING")) {
        return Some(CommitType::Release);
    }
    if starts_with(first, &chars_of("feat")) || starts_with(first, &chars_of("refactor")) {
        return Some(CommitType::Update);
    }
    if starts_with(first, &chars_of("fix")) || starts_with(first, &chars_of("perf")) {
        return Some(CommitType::Patch);
    }
    Some(CommitType::Patch)
}

/// Whether a path names a package manifest.
pub open spec fn is_manifest(f: Seq<char>) -> bool {
    "Cargo.toml"@.is_suffix_of(f) || "package.json"@.is_suffix_of(f) || "go.mod"@.is_suffix_of(f)
}

/// Whether a path names a source file.
pub open spec fn is_source(f: Seq<char>) -> bool {
    ".rs"@.is_suffix_of(f) || ".ts"@.is_suffix_of(f) || ".js"@.is_suffix_of(f)
        || ".go"@.is_suffix_of(f)
}

/// Whether a path names a test file.
pub open spec fn is_test(f: Seq<char>) -> bool {
    has_infix(f, "test"@) || "_test.rs"@.is_suffix_of(f) || ".test.ts"@.is_suffix_of(f)
        || ".spec.ts"@.is_suffix_of(f)
}

/// Whether a path names documentation.
pub open spec fn is_doc(f: Seq<char>) -> bool {
    ".md"@.is_suffix_of(f) || has_infix(f, "docs/"@) || "docs/"@.is_prefix_of(f)
}

/// The type that a set of changed files suggests: `PATCH` when all are tests
/// or all are documentation (so also for no files), `UPDATE` when a manifest
/// or a source file changed, `PATCH` otherwise.
pub open spec fn spec_infer_from_files(files: Seq<Seq<char>>) -> Option<CommitType> {
    let has_manifest = exists|i: int| 0 <= i < files.len() && is_manifest(#[trigger] files[i]);
    let has_source = exists|i: int| 0 <= i < files.len() && is_source(#[trigger] files[i]);
    let only_tests = forall|i: int| 0 <= i < files.len() ==> is_test(#[trigger] files[i]);
    let only_docs = forall|i: int| 0 <= i < files.len() ==> is_doc(#[trigger] files[i]);
    Some(
        if only_tests || only_docs {
            CommitType::Patch
        } else if has_manifest {
            CommitType::Update
        } else if has_source {
            CommitType::Update
        } else {
            CommitType::Patch
        },
    )
}

/// Two lists with the same paths have a path with property `p` alike.
proof fn lemma_same_paths_exists(f: Seq<Seq<char>>, g: Seq<Seq<char>>, p: spec_fn(Seq<char>) -> bool)
    requires
        forall|x: Seq<char>| f.contains(x) <==> g.contains(x),
    ensures
        (exists|i: int| 0 <= i < f.len() && p(#[trigger] f[i])) <==> (exists|j: int|
            0 <= j < g.len() && p(#[trigger] g[j])),
{
    if exists|i: int| 0 <= i < f.len() && p(#[trigger] f[i]) {
        let i = choose|i: int| 0 <= i < f.len() && p(#[trigger] f[i]);
        assert(f.contains(f[i]));
        assert(g.contains(f[i]));
    }
    if exists|j: int| 0 <= j < g.len() && p(#[trigger] g[j]) {
        let j = choose|j: int| 0 <= j < g.len() && p(#[trigger] g[j]);
        assert(g.contains(g[j]));
        assert(f.contains(g[j]));
    }
}

/// The type inferred from changed files depends only on which paths are in
/// the list: its order and repeated paths do not matter.
pub proof fn law_infer_ignores_order(f: Seq<Seq<char>>, g: Seq<Seq<char>>)
    requires
        forall|x: Seq<char>| f.contains(x) <==> g.contains(x),
    ensures
        spec_infer_from_files(f) == spec_infer_from_files(g),
{
    lemma_same_paths_exists(f, g, |x: Seq<char>| is_manifest(x));
    lemma_same_paths_exists(f, g, |x: Seq<char>| is_source(x));
    lemma_same_paths_exists(f, g, |x: Seq<char>| !is_test(x));
    lemma_same_paths_exists(f, g, |x: Seq<char>| !is_doc(x));
}

/// Once changed files suggest `UPDATE`, more changed files still do.
pub proof fn law_infer_update_stays(f: Seq<Seq<char>>, extra: Seq<Seq<char>>)
    requires
        spec_infer_from_files(f) == Some(CommitType::Update),
    ensures
        spec_infer_from_files(f + extra) == Some(CommitType::Update),
{
    let h = f + extra;
    let nt = choose|i: int| 0 <= i < f.len() && !is_test(#[trigger] f[i]);
    assert(h[nt] == f[nt]);
    let nd = choose|i: int| 0 <= i < f.len() && !is_doc(#[trigger] f[i]);
    assert(h[nd] == f[nd]);
    if exists|i: int| 0 <= i < f.len() && is_manifest(#[trigger] f[i]) {
        let i = choose|i: int| 0 <= i < f.len() && is_manifest(#[trigger] f[i]);
        assert(h[i] == f[i]);
    } else {
        let i = choose|i: int| 0 <= i < f.len() && is_source(#[trigger] f[i]);
        assert(h[i] == f[i]);
    }
}

/// The first line of `l` alone, and of `l` followed by a newline and any
/// text, is `l`, when `l` is a line without `'\n'` or `'\r'`.
proof fn lemma_first_line_of(l: Seq<char>, rest: Seq<char>)
    requires
        l.len() > 0,
        !l.contains('\n'),
        !l.contains('\r'),
    ensures
        first_line(l) == Some(l),
        first_line(l + seq!['\n'] + rest) == Some(l),
{
    assert forall|j: int| 0 <= j < l.len() implies l[j] != '\n' by {
        assert(l.contains(l[j]));
    }
    crate::text::lemma_lines_single(l);
    crate::text::lemma_lines_split(l, rest);
    assert(crate::text::strip_cr(l) == l) by {
        assert(l.contains(l.last()));
    }
}

/// A message whose first line `l` holds `!` or `BREAKING` is a `RELEASE`,
/// whatever follows that line.
pub proof fn law_detect_breaking_is_release(l: Seq<char>, rest: Seq<char>)
    requires
        l.len() > 0,
        !l.contains('\n'),
        !l.contains('\r'),
        l.contains('!') || has_infix(l, "BREAKING"@),
    ensures
        spec_detect_commit_type(l) == Some(CommitType::Release),
        spec_detect_commit_type(l + seq!['\n'] + rest) == Some(CommitType::Release),
{
    lemma_first_line_of(l, rest);
}

/// A message whose first line `l` starts with `feat` or `refactor` (with a
/// scope such as `feat(auth):` or not) and holds neither `!` nor `BREAKING`
/// is an `UPDATE`, whatever follows that line.
pub proof fn law_detect_feature_is_update(l: Seq<char>, rest: Seq<char>)
    requires
        !l.contains('\n'),
        !l.contains('\r'),
        (exists|t: Seq<char>| l == "feat"@ + t) || (exists|t: Seq<char>| l == "refactor"@ + t),
        !l.contains('!'),
        !has_infix(l, "BREAKING"@),
    ensures
        spec_detect_commit_type(l) == Some(CommitType::Update),
        spec_detect_commit_type(l + seq!['\n'] + rest) == Some(CommitType::Update),
{
    reveal_strlit("feat");
    reveal_strlit("refactor");
    if exists|t: Seq<char>| l == "feat"@ + t {
        let t = choose|t: Seq<char>| l == "feat"@ + t;
        assert(l.subrange(0, 4) =~= "feat"@);
    } else {
        let t = choose|t: Seq<char>| l == "refactor"@ + t;
        assert(l.subrange(0, 8) =~= "refactor"@);
    }
    lemma_first_line_of(l, rest);
}

/// A message whose first line `l` holds neither `!` nor `BREAKING` and starts
/// with neither `feat` nor `refactor` is a `PATCH`, whatever follows that line.
pub proof fn law_detect_other_is_patch(l: Seq<char>, rest: Seq<char>)
    requires
        l.len() > 0,
        !l.contains('\n'),
        !l.contains('\r'),
        !l.contains('!'),
        !has_infix(l, "BREAKING"@),
        forall|t: Seq<char>| l != "feat"@ + t && l != "refactor"@ + t,
    ensures
        spec_detect_commit_type(l) == Some(CommitType::Patch),
        spec_detect_commit_type(l + seq!['\n'] + rest) == Some(CommitType::Patch),
{
    reveal_strlit("feat");
    reveal_strlit("refactor");
    if "feat"@.is_prefix_of(l) {
        assert(l == "feat"@ + l.skip(4));
    }
    if "refactor"@.is_prefix_of(l) {
        assert(l == "refactor"@ + l.skip(8));
    }
    lemma_first_line_of(l, rest);
}

/// The texts of a slice of strings.
pub open spec fn string_views(v: Seq<String>) -> Seq<Seq<char>> {
    Seq::new(v.len(), |i: int| v[i]@)
}

fn file_is_manifest(f: &Vec<char>) -> (r: bool)
    ensures
        r == is_manifest(f@),
{
    ends_with(f, &chars_of("Cargo.toml")) || ends_with(f, &chars_of("package.json")) || ends_with(
        f,
        &chars_of("go.mod"),
    )
}

fn file_is_source(f: &Vec<char>) -> (r: bool)
    ensures
        r == is_source(f@),
{
    ends_with(f, &chars_of(".rs")) || ends_with(f, &chars_of(".ts")) || ends_with(
        f,
        &chars_of(".js"),
    ) || ends_with(f, &chars_of(".go"))
}

fn file_is_test(f: &Vec<char>) -> (r: bool)
    ensures
        r == is_test(f@),
{
    contains_chars(f, &chars_of("test")) || ends_with(f, &chars_of("_test.rs")) || ends_with(
        f,
        &chars_of(".test.ts"),
    ) || ends_with(f, &chars_of(".spec.ts"))
}

fn file_is_doc(f: &Vec<char>) -> (r: bool)
    ensures
        r == is_doc(f@),
{
    ends_with(f, &chars_of(".md")) || contains_chars(f, &chars_of("docs/")) || starts_with(
        f,
        &chars_of("docs/"),
    )
}

/// Infers the commit type from the changed files: only tests or only docs
/// give `PATCH`; a manifest or a source file gives `UPDATE`; anything else
/// `PATCH`.
pub fn infer_from_files(files: &[String]) -> (r: Option<CommitType>)
    ensures
        r == spec_infer_from_files(string_views(files@)),
{
    let ghost fs = string_views(files@);
    let mut has_manifest = false;
    let mut has_source = false;
    let mut only_tests = true;
    let mut only_docs = true;
    let mut i: usize = 0;
    while i < files.len()
        invariant
            i <= files@.len(),
            fs == string_views(files@),
            has_manifest == exists|j: int| 0 <= j < i && is_manifest(#[trigger] fs[j]),
            has_source == exists|j: int| 0 <= j < i && is_source(#[trigger] fs[j]),
            only_tests == forall|j: int| 0 <= j < i ==> is_test(#[trigger] fs[j]),
            only_docs == forall|j: int| 0 <= j < i ==> is_doc(#[trigger] fs[j]),
        decreases files@.len() - i,
    {
        let f = chars_of(files[i].as_str());
        assert(f@ == fs[i as int]);
        let m = file_is_manifest(&f);
        let s = file_is_source(&f);
        let t = file_is_test(&f);
        let d = file_is_doc(&f);
        has_manifest = has_manifest || m;
        has_source = has_source || s;
        only_tests = only_tests && t;
        only_docs = only_docs && d;
        i = i + 1;
        proof {
            assert(has_manifest == exists|j: int| 0 <= j < i && is_manifest(#[trigger] fs[j])) by {
                if m {
                    assert(is_manifest(fs[i - 1]));
                }
            }
            assert(has_source == exists|j: int| 0 <= j < i && is_source(#[trigger] fs[j])) by {
                if s {
                    assert(is_source(fs[i - 1]));
                }
            }
        }
    }
    if only_tests || only_docs {
        Some(CommitType::Patch)
    } else if has_manifest {
        Some(CommitType::Update)
    } else if has_source {
        Some(CommitType::Update)
    } else {
        Some(CommitType::Patch)
    }
}

} // verus!

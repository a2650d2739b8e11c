//! Choosing the version of a release and recording it in the changelog.

use vstd::prelude::*;
use crate::cli::CommitType;
use crate::convention::version::{
    bump_version, spec_bump_version, string_result_view, spec_parse_version, version_text, Version,
};
use crate::text::{
    chars_of, string_of, push_str, push_all, lines, views, split_lines, has_infix,
    contains_char, contains_chars, starts_with,
};

verus! {

/// The type that the last commit's whole message asks for when a release
/// version is chosen automatically: `RELEASE` when it holds `!` or `BREAKING`,
/// `UPDATE` when it starts with `feat` or `refactor`, `PATCH` otherwise.
pub open spec fn spec_release_type(m: Seq<char>) -> CommitType {
    if m.contains('!') || has_infix(m, "BREAKING"@) {
        CommitType::Release
    } else if "feat"@.is_prefix_of(m) || "refactor"@.is_prefix_of(m) {
        CommitType::Update
    } else {
        CommitType::Patch
    }
}

/// The type that a release after a commit with message `message` bumps.
pub fn detect_commit_type(message: &str) -> (r: CommitType)
    ensures
        r == spec_release_type(message@),
{
    let m = chars_of(message);
    if contains_char(&m, '!') || contains_chars(&m, &chars_of("BREAKING")) {
        CommitType::Release
    } else if starts_with(&m, &chars_of("feat")) || starts_with(&m, &chars_of("refactor")) {
        CommitType::Update
    } else {
        CommitType::Patch
    }
}

/// The version that an automatic release gets: the current version (`v0.0.0`
/// when the repository has none) bumped by the type that the last commit's
/// message asks for.
pub open spec fn spec_auto_version(last_message: Seq<char>, current: Option<Seq<char>>) -> Result<
    Seq<char>,
    Seq<char>,
> {
    let cur = match current {
        Some(c) => c,
        None => "v0.0.0"@,
    };
    spec_bump_version(cur, spec_release_type(last_message))
}

/// The text held by an optional string slice.
pub open spec fn opt_str(s: Option<&str>) -> Option<Seq<char>> {
    match s {
        Some(t) => Some(t@),
        None => None,
    }
}

/// Chooses the version of an automatic release.
pub fn determine_auto_version(last_message: &str, current: Option<&str>) -> (r: Result<
    String,
    String,
>)
    ensures
        string_result_view(r) == spec_auto_version(last_message@, opt_str(current)),
{
    let cur = match current {
        Some(c) => c,
        None => "v0.0.0",
    };
    let t = detect_commit_type(last_message);
    bump_version(cur, t)
}

/// The message of an annotated release tag: `Release VERSION`; none for a
/// lightweight tag.
pub fn release_tag_message(version: &str, annotated: bool) -> (r: Option<String>)
    ensures
        annotated ==> (r matches Some(m) && m@ == "Release "@ + version@),
        !annotated ==> r is None,
{
    if annotated {
        let mut out: Vec<char> = Vec::new();
        push_str(&mut out, "Release ");
        push_str(&mut out, version);
        Some(string_of(&out))
    } else {
        None
    }
}

/// `s` without all its leading `v`s (`str::trim_start_matches('v')`).
pub open spec fn strip_leading_v(s: Seq<char>) -> Seq<char>
    decreases s.len(),
{
    if s.len() > 0 && s[0] == 'v' {
        strip_leading_v(s.drop_first())
    } else {
        s
    }
}

/// The changelog section for a release of `version` on `date`.
pub open spec fn changelog_entry(version: Seq<char>, date: Seq<char>) -> Seq<char> {
    "## ["@ + strip_leading_v(version) + "] - "@ + date
        + "\n\n### Added\n\n### Changed\n\n### Fixed\n\n"@
}

/// Each line followed by a `'\n'`.
pub open spec fn lines_with_newlines(ls: Seq<Seq<char>>) -> Seq<char>
    decreases ls.len(),
{
    if ls.len() == 0 {
        Seq::empty()
    } else {
        lines_with_newlines(ls.drop_last()) + ls.last() + seq!['\n']
    }
}

/// The changelog after recording a release: a new changelog when there was
/// none; the new section right after a `# ` title line; else the new section
/// in front of everything.
pub open spec fn spec_changelog_with_release(
    existing: Seq<char>,
    version: Seq<char>,
    date: Seq<char>,
) -> Seq<char> {
    let entry = changelog_entry(version, date);
    if existing.len() == 0 {
        "# Changelog\n\n"@ + entry
    } else {
        let ls = lines(existing);
        if ls.len() > 0 && "# "@.is_prefix_of(ls[0]) {
            ls[0] + "\n\n"@ + entry + lines_with_newlines(ls.skip(1))
        } else {
            entry + existing
        }
    }
}

/// `version` without its leading `v`s.
fn strip_leading_v_exec(version: &str) -> (r: Vec<char>)
    ensures
        r@ == strip_leading_v(version@),
{
    let v = chars_of(version);
    let mut i: usize = 0;
    assert(v@.skip(0) =~= v@);
    while i < v.len() && v[i] == 'v'
        invariant
            i <= v@.len(),
            strip_leading_v(v@.skip(i as int)) == strip_leading_v(v@),
        decreases v@.len() - i,
    {
        assert(v@.skip(i as int).drop_first() == v@.skip(i + 1));
        i = i + 1;
    }
    assert(v@ == v@.skip(0));
    crate::text::slice_chars(&v, i, v.len())
}

/// The changelog text after recording a release of `version` on `date`.
pub fn changelog_with_release(existing: &str, version: &str, date: &str) -> (r: String)
    ensures
        r@ == spec_changelog_with_release(existing@, version@, date@),
{
    let mut entry: Vec<char> = Vec::new();
    push_str(&mut entry, "## [");
    let stripped = strip_leading_v_exec(version);
    push_all(&mut entry, &stripped);
    push_str(&mut entry, "] - ");
    push_str(&mut entry, date);
    push_str(&mut entry, "\n\n### Added\n\n### Changed\n\n### Fixed\n\n");
    let mut out: Vec<char> = Vec::new();
    if existing.is_empty() {
        push_str(&mut out, "# Changelog\n\n");
        push_all(&mut out, &entry);
        return string_of(&out);
    }
    let ex = chars_of(existing);
    let ls = split_lines(&ex);
    let ghost vl = views(ls@);
    if ls.len() > 0 && starts_with(&ls[0], &chars_of("# ")) {
        assert(vl[0] == ls@[0]@);
        push_all(&mut out, &ls[0]);
        push_str(&mut out, "\n\n");
        push_all(&mut out, &entry);
        let ghost head = out@;
        let mut i: usize = 1;
        assert(vl.subrange(1, 1) =~= Seq::<Seq<char>>::empty());
        while i < ls.len()
            invariant
                1 <= i <= ls@.len(),
                vl == views(ls@),
                out@ == head + lines_with_newlines(vl.subrange(1, i as int)),
            decreases ls@.len() - i,
        {
            let ghost before = vl.subrange(1, i as int);
            push_all(&mut out, &ls[i]);
            out.push('\n');
            let ghost after = vl.subrange(1, i + 1);
            assert(after.drop_last() == before);
            assert(after.last() == ls@[i as int]@);
            i = i + 1;
        }
        assert(vl.subrange(1, i as int) == vl.skip(1));
        string_of(&out)
    } else {
        push_all(&mut out, &entry);
        push_all(&mut out, &ex);
        string_of(&out)
    }
}

/// Each line followed by a newline, with a first line in front.
pub proof fn lemma_lines_with_newlines_prepend(x: Seq<char>, ls: Seq<Seq<char>>)
    ensures
        lines_with_newlines(seq![x] + ls) == x + seq!['\n'] + lines_with_newlines(ls),
    decreases ls.len(),
{
    let s = seq![x] + ls;
    if ls.len() == 0 {
        assert(s.drop_last() =~= Seq::<Seq<char>>::empty());
        assert(s.last() == x);
        assert(lines_with_newlines(s) =~= x + seq!['\n'] + lines_with_newlines(ls));
    } else {
        assert(s.drop_last() =~= seq![x] + ls.drop_last());
        lemma_lines_with_newlines_prepend(x, ls.drop_last());
        assert(s.last() == ls.last());
        assert(lines_with_newlines(ls) == lines_with_newlines(ls.drop_last()) + ls.last() + seq!['\n']);
        assert(lines_with_newlines(s) == lines_with_newlines(s.drop_last()) + s.last() + seq!['\n']);
        assert(lines_with_newlines(s) =~= x + seq!['\n'] + lines_with_newlines(ls));
    }
}

/// A text without `'\r'` that is empty or ends with `'\n'` is its lines, each
/// followed by a newline.
pub proof fn lemma_lines_with_newlines_of(s: Seq<char>)
    requires
        !s.contains('\r'),
        s.len() == 0 || s.last() == '\n',
    ensures
        lines_with_newlines(lines(s)) == s,
    decreases s.len(),
{
    if s.len() > 0 {
        crate::text::lemma_first_newline(s);
        let n = crate::text::first_newline(s) as int;
        assert(n < s.len()) by {
            if n >= s.len() {
                assert(s[s.len() - 1] != '\n');
            }
        }
        let x = s.take(n);
        let rest = s.skip(n + 1);
        assert(!rest.contains('\r')) by {
            if rest.contains('\r') {
                let j = choose|j: int| 0 <= j < rest.len() && rest[j] == '\r';
                assert(s[n + 1 + j] == '\r');
            }
        }
        if rest.len() > 0 {
            assert(rest.last() == s.last());
        }
        assert(crate::text::strip_cr(x) == x) by {
            if x.len() > 0 {
                assert(x.last() == s[n - 1]);
            }
        }
        lemma_lines_with_newlines_of(rest);
        lemma_lines_with_newlines_prepend(x, lines(rest));
        assert(x + seq!['\n'] + rest =~= s);
    }
}

/// Law: recording a release in a changelog that opens with a `# ` title line
/// puts the new section right after the title and keeps everything after the
/// title line as it was (for a changelog without `'\r'` that ends with a
/// newline, as written files do).
pub proof fn law_changelog_keeps_history(existing: Seq<char>, version: Seq<char>, date: Seq<char>)
    requires
        "# "@.is_prefix_of(existing),
        !existing.contains('\r'),
        existing.last() == '\n',
    ensures
        ({
            let n = crate::text::first_newline(existing) as int;
            spec_changelog_with_release(existing, version, date) == existing.take(n) + "\n\n"@
                + changelog_entry(version, date) + existing.skip(n + 1)
        }),
{
    reveal_strlit("# ");
    let s = existing;
    assert(s.len() >= 2);
    crate::text::lemma_first_newline(s);
    let n = crate::text::first_newline(s) as int;
    assert(s[0] == '#' && s[1] == ' ') by {
        assert(s.subrange(0, 2)[0] == s[0]);
        assert(s.subrange(0, 2)[1] == s[1]);
    }
    assert(n >= 2);
    assert(n < s.len()) by {
        if n >= s.len() {
            assert(s[s.len() - 1] != '\n');
        }
    }
    let x = s.take(n);
    let rest = s.skip(n + 1);
    assert(x + seq!['\n'] + rest =~= s);
    crate::text::lemma_lines_split(x, rest);
    assert(crate::text::strip_cr(x) == x) by {
        assert(x.last() == s[n - 1]);
    }
    let ls = lines(s);
    assert(ls[0] == x);
    assert("# "@.is_prefix_of(x)) by {
        assert(x.subrange(0, 2) =~= s.subrange(0, 2));
    }
    assert(ls.skip(1) =~= lines(rest));
    assert(!rest.contains('\r')) by {
        if rest.contains('\r') {
            let j = choose|j: int| 0 <= j < rest.len() && rest[j] == '\r';
            assert(s[n + 1 + j] == '\r');
        }
    }
    if rest.len() > 0 {
        assert(rest.last() == s.last());
    }
    lemma_lines_with_newlines_of(rest);
}

/// An automatic release after a commit whose message starts with `feat` or
/// `refactor` (a scope such as `refactor(core):` included) and holds neither
/// `!` nor `BREAKING` raises the minor number of the current version and
/// sets the patch number to zero.
pub proof fn law_auto_version_feature_raises_minor(m: Seq<char>, current: Seq<char>)
    requires
        (exists|t: Seq<char>| m == "feat"@ + t) || (exists|t: Seq<char>| m == "refactor"@ + t),
        !m.contains('!'),
        !has_infix(m, "BREAKING"@),
        spec_parse_version(current) matches Some(v) && v.minor < u64::MAX,
    ensures
        ({
            let v = spec_parse_version(current)->0;
            spec_auto_version(m, Some(current)) == Ok::<Seq<char>, Seq<char>>(
                version_text(Version { major: v.major, minor: (v.minor + 1) as u64, patch: 0 }),
            )
        }),
{
    reveal_strlit("feat");
    reveal_strlit("refactor");
    if exists|t: Seq<char>| m == "feat"@ + t {
        let t = choose|t: Seq<char>| m == "feat"@ + t;
        assert(m.subrange(0, 4) =~= "feat"@);
    } else {
        let t = choose|t: Seq<char>| m == "refactor"@ + t;
        assert(m.subrange(0, 8) =~= "refactor"@);
    }
}

/// An automatic release after a commit whose message holds `!` or `BREAKING`
/// raises the major number and sets the others to zero.
pub proof fn law_auto_version_breaking_raises_major(m: Seq<char>, current: Seq<char>)
    requires
        m.contains('!') || has_infix(m, "BREAKING"@),
        spec_parse_version(current) matches Some(v) && v.major < u64::MAX,
    ensures
        ({
            let v = spec_parse_version(current)->0;
            spec_auto_version(m, Some(current)) == Ok::<Seq<char>, Seq<char>>(
                version_text(Version { major: (v.major + 1) as u64, minor: 0, patch: 0 }),
            )
        }),
{
}

/// An automatic release after any other commit (no `!`, no `BREAKING`, not
/// starting with `feat` or `refactor`) raises the patch number only.
pub proof fn law_auto_version_other_raises_patch(m: Seq<char>, current: Seq<char>)
    requires
        forall|t: Seq<char>| m != "feat"@ + t && m != "refactor"@ + t,
        !m.contains('!'),
        !has_infix(m, "BREAKING"@),
        spec_parse_version(current) matches Some(v) && v.patch < u64::MAX,
    ensures
        ({
            let v = spec_parse_version(current)->0;
            spec_auto_version(m, Some(current)) == Ok::<Seq<char>, Seq<char>>(
                version_text(Version { major: v.major, minor: v.minor, patch: (v.patch + 1) as u64 }),
            )
        }),
{
    reveal_strlit("feat");
    reveal_strlit("refactor");
    if "feat"@.is_prefix_of(m) {
        assert(m == "feat"@ + m.skip(4));
    }
    if "refactor"@.is_prefix_of(m) {
        assert(m == "refactor"@ + m.skip(8));
    }
}

/// Recording a release in a changelog that does not start with a `# ` title
/// puts the new section in front of the whole existing text: `## [X.Y.Z] -
/// DATE` (the version without its leading `v`), then empty `Added`, `Changed`
/// and `Fixed` subsections.
pub proof fn law_changelog_without_title_prepends(existing: Seq<char>, version: Seq<char>, date: Seq<char>)
    requires
        existing.len() > 0,
        !"# "@.is_prefix_of(existing),
    ensures
        spec_changelog_with_release(existing, version, date) == "## ["@ + strip_leading_v(version)
            + "] - "@ + date + "\n\n### Added\n\n### Changed\n\n### Fixed\n\n"@ + existing,
{
    reveal_strlit("# ");
    let ls = lines(existing);
    crate::text::lemma_first_newline(existing);
    let n = crate::text::first_newline(existing) as int;
    if ls.len() > 0 && "# "@.is_prefix_of(ls[0]) {
        let x = existing.take(n);
        assert(ls[0] == crate::text::strip_cr(x)) by {
            if n >= existing.len() {
                assert(x =~= existing);
            }
        }
        assert(ls[0].len() >= 2);
        assert(ls[0][0] == x[0]);
        assert(ls[0][1] == x[1]);
        assert(existing.subrange(0, 2) =~= "# "@);
    }
}

} // verus!

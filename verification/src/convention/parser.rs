//! Parsing, generating and validating messages in the Versioned Release
//! Convention: a subject `TYPE: PROJECT - vX.Y.Z`, then optionally a blank
//! line and a body.

use vstd::prelude::*;
use crate::cli::CommitType;
use crate::text::{
    chars_of, string_of, push_str, lines, views, split_lines, index_of, find_char, leading_ws,
    lemma_leading_ws, is_white_space, is_whitespace, trim, trim_chars, skip_empty,
    skip_empty_lines, join_lines, join_lines_from, slice_chars,
};

verus! {

/// The commit type as recorded in a parsed message.
#[derive(Clone, Copy, Debug, PartialEq, Eq, Structural)]
pub enum CommitTypeLocal {
    Release,
    Update,
    Patch,
}

impl CommitTypeLocal {
    /// The name of the type as it stands in a subject.
    pub open spec fn name(self) -> Seq<char> {
        match self {
            CommitTypeLocal::Release => "RELEASE"@,
            CommitTypeLocal::Update => "UPDATE"@,
            CommitTypeLocal::Patch => "PATCH"@,
        }
    }

    /// The name of the type: `RELEASE`, `UPDATE` or `PATCH`.
    pub fn as_str(&self) -> (r: &'static str)
        ensures
            r@ == self.name(),
    {
        match self {
            CommitTypeLocal::Release => "RELEASE",
            CommitTypeLocal::Update => "UPDATE",
            CommitTypeLocal::Patch => "PATCH",
        }
    }

    /// The name of the type as an owned string.
    pub fn to_string(&self) -> (r: String)
        ensures
            r@ == self.name(),
    {
        self.as_str().to_string()
    }
}

/// The recorded type for a command-line type.
pub open spec fn local_type(t: CommitType) -> CommitTypeLocal {
    match t {
        CommitType::Release => CommitTypeLocal::Release,
        CommitType::Update => CommitTypeLocal::Update,
        CommitType::Patch => CommitTypeLocal::Patch,
    }
}

/// The command-line type for a recorded type.
pub open spec fn cli_type(t: CommitTypeLocal) -> CommitType {
    match t {
        CommitTypeLocal::Release => CommitType::Release,
        CommitTypeLocal::Update => CommitType::Update,
        CommitTypeLocal::Patch => CommitType::Patch,
    }
}

impl From<CommitTypeLocal> for CommitType {
    fn from(t: CommitTypeLocal) -> (r: CommitType) {
        match t {
            CommitTypeLocal::Release => CommitType::Release,
            CommitTypeLocal::Update => CommitType::Update,
            CommitTypeLocal::Patch => CommitType::Patch,
        }
    }
}

impl vstd::std_specs::convert::FromSpecImpl<CommitTypeLocal> for CommitType {
    open spec fn obeys_from_spec() -> bool {
        true
    }

    open spec fn from_spec(t: CommitTypeLocal) -> CommitType {
        cli_type(t)
    }
}

impl From<CommitType> for CommitTypeLocal {
    fn from(t: CommitType) -> (r: CommitTypeLocal) {
        match t {
            CommitType::Release => CommitTypeLocal::Release,
            CommitType::Update => CommitTypeLocal::Update,
            CommitType::Patch => CommitTypeLocal::Patch,
        }
    }
}

impl vstd::std_specs::convert::FromSpecImpl<CommitType> for CommitTypeLocal {
    open spec fn obeys_from_spec() -> bool {
        true
    }

    open spec fn from_spec(t: CommitType) -> CommitTypeLocal {
        local_type(t)
    }
}

/// A message in the convention, split into its parts.
#[derive(Debug, Clone, PartialEq, Eq)]
pub struct CommitMessage {
    pub commit_type: CommitTypeLocal,
    pub project: String,
    pub version: String,
    pub body: Option<String>,
    pub full_message: String,
    pub valid: bool,
    pub error: Option<String>,
}

/// The abstract content of a `CommitMessage`.
pub struct CommitMessageView {
    pub commit_type: CommitTypeLocal,
    pub project: Seq<char>,
    pub version: Seq<char>,
    pub body: Option<Seq<char>>,
    pub full_message: Seq<char>,
    pub valid: bool,
    pub error: Option<Seq<char>>,
}

/// The text held by an optional string.
pub open spec fn opt_view(s: Option<String>) -> Option<Seq<char>> {
    match s {
        Some(t) => Some(t@),
        None => None,
    }
}

impl View for CommitMessage {
    type V = CommitMessageView;

    open spec fn view(&self) -> CommitMessageView {
        CommitMessageView {
            commit_type: self.commit_type,
            project: self.project@,
            version: self.version@,
            body: opt_view(self.body),
            full_message: self.full_message@,
            valid: self.valid,
            error: opt_view(self.error),
        }
    }
}

// ---------------------------------------------------------------------------
// The grammar of a subject line.
// ---------------------------------------------------------------------------

/// Whether `c` belongs to the `\d` class of the `regex` crate (the Unicode
/// general category `Nd`, decimal digits of every script). The class is a table
/// of several hundred code points, so it is named here and not written out.
pub uninterp spec fn regex_decimal_digit(c: char) -> bool;

/// A digit of a version token: in ASCII exactly `0` to `9`, elsewhere what
/// the `\d` class holds.
#[verifier::opaque]
pub open spec fn is_digit(c: char) -> bool {
    if (c as u32) < 128 {
        '0' <= c && c <= '9'
    } else {
        regex_decimal_digit(c)
    }
}

/// Asks the `regex` crate whether the single character `c` matches `\d`
/// (`Regex::new` on the fixed pattern `\A\d\z`, then `Regex::is_match`).
/// Claimed: the answer depends on `c` alone and is named `regex_decimal_digit(c)`;
/// within ASCII the class holds `0` to `9` and nothing else (its table in
/// `regex-syntax` starts with the range `'0'..='9'`, and the next range starts
/// at U+0660). The pattern is valid, so `Regex::new` does not fail.
#[verifier::external_body]
fn is_decimal_digit(c: char) -> (r: bool)
    ensures
        r == regex_decimal_digit(c),
        (c as u32) < 128 ==> (r <==> ('0' <= c && c <= '9')),
{
    let mut buf = [0u8; 4];
    regex::Regex::new(r"\A\d\z").unwrap().is_match(c.encode_utf8(&mut buf))
}

/// Number of `\d` characters at the start of `t`.
pub open spec fn digit_run(t: Seq<char>) -> nat
    decreases t.len(),
{
    if t.len() > 0 && is_digit(t[0]) {
        1 + digit_run(t.drop_first())
    } else {
        0
    }
}

/// Length of the version token `v<digits>.<digits>.<digits>` at the start of
/// `t`, each run of digits taken as long as it goes; `None` when `t` does not
/// start with such a token.
pub open spec fn version_token_len(t: Seq<char>) -> Option<nat> {
    if t.len() > 0 && t[0] == 'v' {
        let a = digit_run(t.skip(1));
        let p1 = 1 + a;
        if a > 0 && p1 < t.len() && t[p1 as int] == '.' {
            let b = digit_run(t.skip((p1 + 1) as int));
            let p2 = p1 + 1 + b;
            if b > 0 && p2 < t.len() && t[p2 as int] == '.' {
                let c = digit_run(t.skip((p2 + 1) as int));
                if c > 0 {
                    Some(p2 + 1 + c)
                } else {
                    None
                }
            } else {
                None
            }
        } else {
            None
        }
    } else {
        None
    }
}

/// The type at the start of a subject and the position after its colon.
pub open spec fn vrc_type_prefix(s: Seq<char>) -> Option<(CommitTypeLocal, nat)> {
    if "RELEASE:"@.is_prefix_of(s) {
        Some((CommitTypeLocal::Release, 8))
    } else if "UPDATE:"@.is_prefix_of(s) {
        Some((CommitTypeLocal::Update, 7))
    } else if "PATCH:"@.is_prefix_of(s) {
        Some((CommitTypeLocal::Patch, 6))
    } else {
        None
    }
}

/// What a subject line says, when it is in the convention: the type, the
/// project (the text between the colon and the first `-`, trimmed; at least
/// one character must stand there) and the version token after that `-` and
/// any blanks. This is what the pattern
/// `^(RELEASE|UPDATE|PATCH):\s*([^-]+?)\s*-\s*(v\d+\.\d+\.\d+)` captures.
pub open spec fn vrc_subject(s: Seq<char>) -> Option<(CommitTypeLocal, Seq<char>, Seq<char>)> {
    match vrc_type_prefix(s) {
        None => None,
        Some((t, k)) => {
            let rest = s.skip(k as int);
            let d = index_of(rest, '-');
            if d == 0 || d >= rest.len() {
                None
            } else {
                let after = rest.skip((d + 1) as int);
                let tail = after.skip(leading_ws(after) as int);
                match version_token_len(tail) {
                    None => None,
                    Some(n) => Some((t, trim(rest.take(d as int)), tail.take(n as int))),
                }
            }
        }
    }
}

/// Whether the version token of a subject line in the convention ends the
/// line: nothing stands after `vX.Y.Z`.
pub open spec fn vrc_subject_exact(s: Seq<char>) -> bool {
    match vrc_type_prefix(s) {
        None => false,
        Some((t, k)) => {
            let rest = s.skip(k as int);
            let d = index_of(rest, '-');
            let after = rest.skip((d + 1) as int);
            let tail = after.skip(leading_ws(after) as int);
            version_token_len(tail) == Some(tail.len())
        },
    }
}

/// The body of a message with lines `ls`: the lines after the subject, leading
/// empty lines dropped, joined with `'\n'`; `None` when nothing is left.
pub open spec fn message_body(ls: Seq<Seq<char>>) -> Option<Seq<char>> {
    let rest = skip_empty(ls.skip(1));
    if ls.len() <= 1 || rest.len() == 0 {
        None
    } else {
        Some(join_lines(rest))
    }
}

/// The parse of a whole message: its first line must be a subject in the
/// convention.
pub open spec fn spec_parse_message(m: Seq<char>) -> Option<CommitMessageView> {
    let ls = lines(m);
    if ls.len() == 0 {
        None
    } else {
        match vrc_subject(ls[0]) {
            None => None,
            Some((t, p, v)) => Some(
                CommitMessageView {
                    commit_type: t,
                    project: p,
                    version: v,
                    body: message_body(ls),
                    full_message: m,
                    valid: true,
                    error: None,
                },
            ),
        }
    }
}

/// The view of an optional parsed message.
pub open spec fn opt_message_view(m: Option<CommitMessage>) -> Option<CommitMessageView> {
    match m {
        Some(x) => Some(x@),
        None => None,
    }
}

/// `digit_run` is the length of the longest run of digits at the start.
pub proof fn lemma_digit_run(t: Seq<char>, i: int)
    requires
        0 <= i <= t.len(),
        forall|j: int| 0 <= j < i ==> is_digit(#[trigger] t[j]),
        i == t.len() || !is_digit(t[i]),
    ensures
        digit_run(t) == i,
    decreases i,
{
    if i > 0 {
        let u = t.drop_first();
        assert forall|j: int| 0 <= j < i - 1 implies is_digit(#[trigger] u[j]) by {
            assert(u[j] == t[j + 1]);
        }
        if i - 1 < u.len() {
            assert(u[i - 1] == t[i]);
        }
        lemma_digit_run(u, i - 1);
    }
}

/// Facts about `digit_run`: it is at most the length, the characters it
/// counts are digits, and the one after them is not.
pub proof fn lemma_digit_run_props(t: Seq<char>)
    ensures
        digit_run(t) <= t.len(),
        forall|j: int| 0 <= j < digit_run(t) ==> is_digit(#[trigger] t[j]),
        digit_run(t) < t.len() ==> !is_digit(t[digit_run(t) as int]),
    decreases t.len(),
{
    if t.len() > 0 && is_digit(t[0]) {
        let u = t.drop_first();
        lemma_digit_run_props(u);
        assert forall|j: int| 0 <= j < digit_run(t) implies is_digit(#[trigger] t[j]) by {
            if j > 0 {
                assert(t[j] == u[j - 1]);
            }
        }
        if digit_run(t) < t.len() {
            assert(t[digit_run(t) as int] == u[digit_run(u) as int]);
        }
    }
}

/// Cutting a text after its run of digits keeps the run.
pub proof fn lemma_digit_run_take(t: Seq<char>, k: int)
    requires
        digit_run(t) <= k <= t.len(),
    ensures
        digit_run(t.take(k)) == digit_run(t),
{
    lemma_digit_run_props(t);
    let i = digit_run(t) as int;
    let u = t.take(k);
    assert forall|j: int| 0 <= j < i implies is_digit(#[trigger] u[j]) by {
        assert(u[j] == t[j]);
    }
    if i < k {
        assert(u[i] == t[i]);
    }
    lemma_digit_run(u, i);
}

/// The version token at the start of a text is a whole token on its own.
pub proof fn lemma_version_token_take(t: Seq<char>)
    requires
        version_token_len(t) is Some,
    ensures
        version_token_len(t)->0 <= t.len(),
        version_token_len(t.take(version_token_len(t)->0 as int)) == Some(version_token_len(t)->0),
{
    let n = version_token_len(t)->0 as int;
    let v = t.take(n);
    lemma_digit_run_props(t.skip(1));
    let a = digit_run(t.skip(1)) as int;
    let p1 = 1 + a;
    lemma_digit_run_props(t.skip(p1 + 1));
    let b = digit_run(t.skip(p1 + 1)) as int;
    let p2 = p1 + 1 + b;
    lemma_digit_run_props(t.skip(p2 + 1));
    assert(v.skip(1) =~= t.skip(1).take(n - 1));
    lemma_digit_run_take(t.skip(1), n - 1);
    assert(v.skip(p1 + 1) =~= t.skip(p1 + 1).take(n - p1 - 1));
    lemma_digit_run_take(t.skip(p1 + 1), n - p1 - 1);
    assert(v.skip(p2 + 1) =~= t.skip(p2 + 1).take(n - p2 - 1));
    lemma_digit_run_take(t.skip(p2 + 1), n - p2 - 1);
    assert(v[0] == t[0]);
    assert(v[p1] == t[p1]);
    assert(v[p2] == t[p2]);
}

/// Whether `c` is a digit of a version token.
fn digit_at(c: char) -> (r: bool)
    ensures
        r == is_digit(c),
{
    proof {
        reveal(is_digit);
    }
    is_decimal_digit(c)
}

/// Position after the run of digits that starts at `start`.
fn scan_digits(s: &Vec<char>, start: usize) -> (r: usize)
    requires
        start <= s@.len(),
    ensures
        r == start + digit_run(s@.skip(start as int)),
        r <= s@.len(),
{
    let mut i = start;
    while i < s.len() && digit_at(s[i])
        invariant
            start <= i <= s@.len(),
            forall|j: int| start <= j < i ==> is_digit(#[trigger] s@[j]),
        decreases s@.len() - i,
    {
        i = i + 1;
    }
    proof {
        let t = s@.skip(start as int);
        assert forall|j: int| 0 <= j < i - start implies is_digit(#[trigger] t[j]) by {
            assert(t[j] == s@[start + j]);
        }
        if i < s@.len() {
            assert(t[i - start] == s@[i as int]);
        }
        lemma_digit_run(t, i - start);
    }
    i
}

/// Position after the blanks that start at `start`.
fn scan_blanks(s: &Vec<char>, start: usize) -> (r: usize)
    requires
        start <= s@.len(),
    ensures
        r == start + leading_ws(s@.skip(start as int)),
        r <= s@.len(),
{
    let mut i = start;
    while i < s.len() && is_whitespace(s[i])
        invariant
            start <= i <= s@.len(),
            forall|j: int| start <= j < i ==> is_white_space(#[trigger] s@[j]),
        decreases s@.len() - i,
    {
        i = i + 1;
    }
    proof {
        let t = s@.skip(start as int);
        assert forall|j: int| 0 <= j < i - start implies is_white_space(#[trigger] t[j]) by {
            assert(t[j] == s@[start + j]);
        }
        if i < s@.len() {
            assert(t[i - start] == s@[i as int]);
        }
        lemma_leading_ws(t, i - start);
    }
    i
}

/// End of the version token that starts at `q`, if one starts there.
fn scan_version(s: &Vec<char>, q: usize) -> (r: Option<usize>)
    requires
        q <= s@.len(),
    ensures
        match version_token_len(s@.skip(q as int)) {
            Some(n) => r matches Some(e) && e == q + n,
            None => r is None,
        },
        r matches Some(e) ==> q <= e <= s@.len(),
{
    let ghost t = s@.skip(q as int);
    if q >= s.len() || s[q] != 'v' {
        return None;
    }
    assert(t[0] == s@[q as int]);
    let e1 = scan_digits(s, q + 1);
    assert(t.skip(1) == s@.skip(q + 1));
    if e1 == q + 1 || e1 >= s.len() || s[e1] != '.' {
        proof {
            if e1 < s@.len() {
                assert(t[e1 - q] == s@[e1 as int]);
            }
        }
        return None;
    }
    assert(t[e1 - q] == s@[e1 as int]);
    let e2 = scan_digits(s, e1 + 1);
    assert(t.skip(e1 - q + 1) == s@.skip(e1 + 1));
    if e2 == e1 + 1 || e2 >= s.len() || s[e2] != '.' {
        proof {
            if e2 < s@.len() {
                assert(t[e2 - q] == s@[e2 as int]);
            }
        }
        return None;
    }
    assert(t[e2 - q] == s@[e2 as int]);
    let e3 = scan_digits(s, e2 + 1);
    assert(t.skip(e2 - q + 1) == s@.skip(e2 + 1));
    if e3 == e2 + 1 {
        return None;
    }
    Some(e3)
}

/// The type at the start of a subject and the position after its colon.
fn scan_type_prefix(s: &Vec<char>) -> (r: Option<(CommitTypeLocal, usize)>)
    ensures
        match vrc_type_prefix(s@) {
            Some((t, k)) => r == Some((t, k as usize)),
            None => r is None,
        },
        r matches Some((t, k)) ==> k <= s@.len(),
{
    proof {
        reveal_strlit("RELEASE:");
        reveal_strlit("UPDATE:");
        reveal_strlit("PATCH:");
    }
    if crate::text::starts_with(s, &chars_of("RELEASE:")) {
        Some((CommitTypeLocal::Release, 8))
    } else if crate::text::starts_with(s, &chars_of("UPDATE:")) {
        Some((CommitTypeLocal::Update, 7))
    } else if crate::text::starts_with(s, &chars_of("PATCH:")) {
        Some((CommitTypeLocal::Patch, 6))
    } else {
        None
    }
}

/// Whether a subject line in the convention has nothing after its version.
pub fn subject_is_exact(s: &Vec<char>) -> (r: bool)
    requires
        vrc_subject(s@) is Some,
    ensures
        r == vrc_subject_exact(s@),
{
    let (t, k) = match scan_type_prefix(s) {
        Some(x) => x,
        None => {
            return false;
        },
    };
    let ghost rest = s@.skip(k as int);
    let d = find_char(s, k, '-');
    if d >= s.len() {
        return false;
    }
    let q = scan_blanks(s, d + 1);
    proof {
        let dd = d - k;
        assert(rest.skip(dd + 1) == s@.skip(d + 1));
        let after = rest.skip(dd + 1);
        assert(after.skip(leading_ws(after) as int) == s@.skip(q as int));
    }
    match scan_version(s, q) {
        Some(e) => {
            assert(s@.skip(q as int).len() == s@.len() - q);
            e == s.len()
        },
        None => false,
    }
}

/// Reads a subject line in the convention: its type, project and version.
#[verifier::rlimit(40)]
pub fn parse_subject(s: &Vec<char>) -> (r: Option<(CommitTypeLocal, Vec<char>, Vec<char>)>)
    ensures
        match vrc_subject(s@) {
            Some((t, p, v)) => r matches Some((t2, p2, v2)) && t2 == t && p2@ == p && v2@ == v,
            None => r is None,
        },
{
    let (t, k) = match scan_type_prefix(s) {
        Some(x) => x,
        None => {
            return None;
        },
    };
    let ghost rest = s@.skip(k as int);
    let d = find_char(s, k, '-');
    if d == k || d >= s.len() {
        return None;
    }
    let q = scan_blanks(s, d + 1);
    proof {
        let dd = d - k;
        assert(rest.skip(dd + 1) == s@.skip(d + 1));
        let after = rest.skip((dd + 1) as int);
        assert(after.skip(leading_ws(after) as int) == s@.skip(q as int));
    }
    let e = match scan_version(s, q) {
        Some(e) => e,
        None => {
            return None;
        },
    };
    let raw = slice_chars(s, k, d);
    assert(raw@ == rest.take(d - k));
    let project = trim_chars(&raw);
    let version = slice_chars(s, q, e);
    assert(version@ == s@.skip(q as int).take(e - q));
    proof {
        let dd = (d - k) as nat;
        assert(index_of(rest, '-') == dd);
        assert(dd != 0 && dd < rest.len());
        let after = rest.skip((dd + 1) as int);
        let tail = after.skip(leading_ws(after) as int);
        assert(tail == s@.skip(q as int));
        assert(version_token_len(tail) == Some((e - q) as nat));
        assert(vrc_type_prefix(s@) == Some((t, k as nat)));
        assert(vrc_subject(s@) == Some((t, trim(rest.take(dd as int)), tail.take((e - q) as int))));
    }
    Some((t, project, version))
}

/// Parses a message in the convention; `None` when its first line is not a
/// subject `TYPE: PROJECT - vX.Y.Z`. The body is what follows the subject,
/// leading empty lines dropped, or `None` when nothing follows.
pub fn parse_message(message: &str) -> (r: Option<CommitMessage>)
    ensures
        opt_message_view(r) == spec_parse_message(message@),
{
    let m = chars_of(message);
    let ls = split_lines(&m);
    if ls.len() == 0 {
        return None;
    }
    assert(views(ls@)[0] == ls@[0]@);
    let (t, project, version) = match parse_subject(&ls[0]) {
        Some(x) => x,
        None => {
            return None;
        },
    };
    let body = if ls.len() > 1 {
        let first = skip_empty_lines(&ls, 1);
        if first == ls.len() {
            None
        } else {
            let joined = join_lines_from(&ls, first);
            Some(string_of(&joined))
        }
    } else {
        None
    };
    let r = CommitMessage {
        commit_type: t,
        project: string_of(&project),
        version: string_of(&version),
        body: body,
        full_message: message.to_string(),
        valid: true,
        error: None,
    };
    Some(r)
}

// ---------------------------------------------------------------------------
// Generating messages.
// ---------------------------------------------------------------------------

/// The message `TYPE: PROJECT - VERSION`, followed by a blank line and the body
/// when a non-empty body is given.
pub open spec fn spec_generate_message(
    commit_type: CommitType,
    project: Seq<char>,
    version: Seq<char>,
    body: Option<Seq<char>>,
) -> Seq<char> {
    let subject = commit_type.name() + ": "@ + project + " - "@ + version;
    match body {
        Some(b) => if b.len() > 0 {
            subject + "\n\n"@ + b
        } else {
            subject
        },
        None => subject,
    }
}

/// The text held by an optional string slice.
pub open spec fn opt_str_view(s: Option<&str>) -> Option<Seq<char>> {
    match s {
        Some(t) => Some(t@),
        None => None,
    }
}

/// Writes a message in the convention.
pub fn generate_message(
    commit_type: CommitType,
    project: &str,
    version: &str,
    body: Option<&str>,
) -> (r: String)
    ensures
        r@ == spec_generate_message(commit_type, project@, version@, opt_str_view(body)),
{
    let mut out: Vec<char> = Vec::new();
    push_str(&mut out, commit_type.as_str());
    push_str(&mut out, ": ");
    push_str(&mut out, project);
    push_str(&mut out, " - ");
    push_str(&mut out, version);
    if let Some(b) = body {
        if !b.is_empty() {
            push_str(&mut out, "\n\n");
            push_str(&mut out, b);
        }
    }
    string_of(&out)
}

// ---------------------------------------------------------------------------
// Validating messages.
// ---------------------------------------------------------------------------

/// Length of the Conventional Commits type word at the start of `s`
/// (`feat`, `fix`, `docs`, `style`, `refactor`, `perf`, `test`, `build`, `ci`,
/// `chore` or `revert`).
pub open spec fn conventional_word_len(s: Seq<char>) -> Option<nat> {
    if "feat"@.is_prefix_of(s) {
        Some(4)
    } else if "fix"@.is_prefix_of(s) {
        Some(3)
    } else if "docs"@.is_prefix_of(s) {
        Some(4)
    } else if "style"@.is_prefix_of(s) {
        Some(5)
    } else if "refactor"@.is_prefix_of(s) {
        Some(8)
    } else if "perf"@.is_prefix_of(s) {
        Some(4)
    } else if "test"@.is_prefix_of(s) {
        Some(4)
    } else if "build"@.is_prefix_of(s) {
        Some(5)
    } else if "ci"@.is_prefix_of(s) {
        Some(2)
    } else if "chore"@.is_prefix_of(s) {
        Some(5)
    } else if "revert"@.is_prefix_of(s) {
        Some(6)
    } else {
        None
    }
}

/// Position after an optional `(scope)` at `p` (the scope holds at least one
/// character and no `)`); `None` when a `(` stands there but no scope follows.
pub open spec fn conventional_after_scope(s: Seq<char>, p: nat) -> Option<nat> {
    if p < s.len() && s[p as int] == '(' {
        let e = index_of(s.skip((p + 1) as int), ')');
        if e == 0 || p + 1 + e >= s.len() {
            None
        } else {
            Some(p + 1 + e + 1)
        }
    } else {
        Some(p)
    }
}

/// Whether `t` is one or more blanks followed by at least one character other
/// than `'\n'` (the `\s+(.+)` that closes the Conventional Commits pattern).
pub open spec fn blank_then_text(t: Seq<char>) -> bool {
    exists|k: int|
        1 <= k < t.len() && (forall|j: int| 0 <= j < k ==> is_white_space(#[trigger] t[j]))
            && #[trigger] t[k] != '\n'
}

/// Whether a subject follows Conventional Commits:
/// `^(feat|fix|docs|style|refactor|perf|test|build|ci|chore|revert)(\([^)]+\))?(!)?:\s+(.+)`.
pub open spec fn is_conventional_subject(s: Seq<char>) -> bool {
    match conventional_word_len(s) {
        None => false,
        Some(p) => match conventional_after_scope(s, p) {
            None => false,
            Some(p2) => {
                let p3 = if p2 < s.len() && s[p2 as int] == '!' {
                    p2 + 1
                } else {
                    p2
                };
                p3 < s.len() && s[p3 as int] == ':' && blank_then_text(s.skip((p3 + 1) as int))
            },
        },
    }
}

/// The error for a message that is empty.
pub open spec fn empty_message_error() -> Seq<char> {
    "Message is empty"@
}

/// The error for a subject of `n` bytes, over the limit of 100.
pub open spec fn too_long_error(n: nat) -> Seq<char> {
    "Subject too long: "@ + crate::text::decimal(n) + " characters (max 100)"@
}

/// The error for a Conventional Commits message that is not in the convention.
pub open spec fn conventional_error() -> Seq<char> {
    "Message matches Conventional Commits but not VRC format. Use TYPE: PROJECT - vVERSION"@
}

/// The error for any other message that is not in the convention.
pub open spec fn invalid_format_error() -> Seq<char> {
    "Invalid message format. Expected: TYPE: PROJECT - vVERSION"@
}

/// What `validate_message` answers for the text `m`: the message must be
/// non-empty, its subject at most 100 bytes in UTF-8, and it must parse with
/// nothing after the version on the subject line.
pub open spec fn spec_validate_message(m: Seq<char>) -> Result<CommitMessageView, Seq<char>> {
    if m.len() == 0 {
        Err(empty_message_error())
    } else {
        let subject = lines(m)[0];
        let n = vstd::utf8::encode_utf8(subject).len();
        if n > 100 {
            Err(too_long_error(n))
        } else {
            match spec_parse_message(m) {
                Some(v) if vrc_subject_exact(subject) => Ok(v),
                _ => if is_conventional_subject(subject) {
                    Err(conventional_error())
                } else {
                    Err(invalid_format_error())
                },
            }
        }
    }
}

/// The view of a validation result.
pub open spec fn result_view(r: Result<CommitMessage, String>) -> Result<CommitMessageView, Seq<char>> {
    match r {
        Ok(m) => Ok(m@),
        Err(e) => Err(e@),
    }
}

/// Length of the Conventional Commits type word at the start of `s`.
fn scan_conventional_word(s: &Vec<char>) -> (r: Option<usize>)
    ensures
        match conventional_word_len(s@) {
            Some(n) => r == Some(n as usize),
            None => r is None,
        },
        r matches Some(n) ==> n <= s@.len(),
{
    proof {
        reveal_strlit("feat");
        reveal_strlit("fix");
        reveal_strlit("docs");
        reveal_strlit("style");
        reveal_strlit("refactor");
        reveal_strlit("perf");
        reveal_strlit("test");
        reveal_strlit("build");
        reveal_strlit("ci");
        reveal_strlit("chore");
        reveal_strlit("revert");
    }
    if crate::text::starts_with(s, &chars_of("feat")) {
        Some(4)
    } else if crate::text::starts_with(s, &chars_of("fix")) {
        Some(3)
    } else if crate::text::starts_with(s, &chars_of("docs")) {
        Some(4)
    } else if crate::text::starts_with(s, &chars_of("style")) {
        Some(5)
    } else if crate::text::starts_with(s, &chars_of("refactor")) {
        Some(8)
    } else if crate::text::starts_with(s, &chars_of("perf")) {
        Some(4)
    } else if crate::text::starts_with(s, &chars_of("test")) {
        Some(4)
    } else if crate::text::starts_with(s, &chars_of("build")) {
        Some(5)
    } else if crate::text::starts_with(s, &chars_of("ci")) {
        Some(2)
    } else if crate::text::starts_with(s, &chars_of("chore")) {
        Some(5)
    } else if crate::text::starts_with(s, &chars_of("revert")) {
        Some(6)
    } else {
        None
    }
}

/// Whether the text from `start` on is blanks followed by a character other
/// than `'\n'`.
fn scan_blank_then_text(s: &Vec<char>, start: usize) -> (r: bool)
    requires
        start <= s@.len(),
    ensures
        r == blank_then_text(s@.skip(start as int)),
{
    let ghost t = s@.skip(start as int);
    let n = s.len();
    if start >= n || !is_whitespace(s[start]) {
        proof {
            if blank_then_text(t) {
                let k = choose|k: int|
                    1 <= k < t.len() && (forall|j: int|
                        0 <= j < k ==> is_white_space(#[trigger] t[j])) && #[trigger] t[k]
                        != '\n';
                assert(is_white_space(t[0]));
            }
        }
        return false;
    }
    assert(t[0] == s@[start as int]);
    let mut i = start + 1;
    while i < n
        invariant
            start < i <= n == s@.len(),
            t == s@.skip(start as int),
            forall|j: int| start <= j < i ==> is_white_space(#[trigger] s@[j]),
            forall|j: int| start < j < i ==> s@[j] == '\n',
        decreases n - i,
    {
        if s[i] != '\n' {
            proof {
                let k = i - start;
                assert forall|j: int| 0 <= j < k implies is_white_space(#[trigger] t[j]) by {
                    assert(t[j] == s@[start + j]);
                }
                assert(t[k] == s@[i as int]);
            }
            return true;
        }
        i = i + 1;
    }
    proof {
        if blank_then_text(t) {
            let k = choose|k: int|
                1 <= k < t.len() && (forall|j: int|
                    0 <= j < k ==> is_white_space(#[trigger] t[j])) && #[trigger] t[k] != '\n';
            assert(t[k] == s@[start + k]);
        }
    }
    false
}

/// Whether a subject follows Conventional Commits.
pub fn is_conventional(s: &Vec<char>) -> (r: bool)
    ensures
        r == is_conventional_subject(s@),
{
    let n = s.len();
    let p = match scan_conventional_word(s) {
        Some(p) => p,
        None => {
            return false;
        },
    };
    proof {
        let w = conventional_word_len(s@);
        assert(p <= s@.len());
    }
    let p2 = if p < n && s[p] == '(' {
        let e = find_char(s, p + 1, ')');
        assert(s@.skip(p + 1).len() == n - (p + 1));
        if e == p + 1 || e >= n {
            return false;
        }
        e + 1
    } else {
        p
    };
    let p3 = if p2 < n && s[p2] == '!' {
        p2 + 1
    } else {
        p2
    };
    if p3 < n && s[p3] == ':' {
        scan_blank_then_text(s, p3 + 1)
    } else {
        false
    }
}

/// Checks a message against the convention: it must not be empty, its
/// subject must be at most 100 bytes long, and it must parse with nothing
/// after the version. A message that fails gets a hint when it follows
/// Conventional Commits.
pub fn validate_message(message: &str) -> (r: Result<CommitMessage, String>)
    ensures
        result_view(r) == spec_validate_message(message@),
{
    if message.is_empty() {
        return Err("Message is empty".to_string());
    }
    let m = chars_of(message);
    let ls = split_lines(&m);
    proof {
        crate::text::lemma_lines_nonempty_text(m@);
    }
    assert(views(ls@)[0] == ls@[0]@);
    let subject = &ls[0];
    let n = crate::text::utf8_len(subject);
    if n > 100 {
        let mut e: Vec<char> = Vec::new();
        push_str(&mut e, "Subject too long: ");
        crate::text::push_decimal(&mut e, n);
        push_str(&mut e, " characters (max 100)");
        return Err(string_of(&e));
    }
    let parsed = parse_message(message);
    let exact = match &parsed {
        Some(_) => subject_is_exact(subject),
        None => false,
    };
    match parsed {
        Some(parsed) if exact => Ok(parsed),
        _ => {
            if is_conventional(subject) {
                Err(
                    "Message matches Conventional Commits but not VRC format. Use TYPE: PROJECT - vVERSION".to_string(),
                )
            } else {
                Err("Invalid message format. Expected: TYPE: PROJECT - vVERSION".to_string())
            }
        },
    }
}

} // verus!

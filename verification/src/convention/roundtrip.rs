//! What reading back a generated message gives.

use vstd::prelude::*;
use crate::cli::CommitType;
use crate::convention::parser::{
    CommitMessageView, local_type, spec_generate_message, spec_parse_message, vrc_subject,
    vrc_subject_exact, spec_validate_message, vrc_type_prefix, version_token_len,
    lemma_version_token_take, is_digit, digit_run, lemma_digit_run,
};
use crate::text::{
    lines, trim, index_of, lemma_index_of, leading_ws, lemma_leading_ws, lemma_lines_single,
    lemma_lines_split, strip_cr, skip_empty, leading_empty, join_lines, lemma_trim_padded,
    lemma_join_lines_of,
};

verus! {

/// The body that reading a message back gives for the body `b` it was
/// written with: the lines of `b`, leading empty lines dropped, joined with
/// `'\n'`; `None` when nothing is left.
pub open spec fn read_body(b: Seq<char>) -> Option<Seq<char>> {
    let rest = skip_empty(lines(b));
    if rest.len() == 0 {
        None
    } else {
        Some(join_lines(rest))
    }
}

/// The body that reading a message back gives for the optional body it was
/// written with.
pub open spec fn read_optional_body(body: Option<Seq<char>>) -> Option<Seq<char>> {
    match body {
        Some(b) => if b.len() > 0 {
            read_body(b)
        } else {
            None
        },
        None => None,
    }
}

/// Whether `v` is a version token `v<digits>.<digits>.<digits>` on one line.
pub open spec fn is_version_token(v: Seq<char>) -> bool {
    &&& version_token_len(v) == Some(v.len())
    &&& !v.contains('\n')
    &&& !v.contains('\r')
}

/// Whether `p` can stand as a project name in a subject: no `-`, no newline.
pub open spec fn is_project_name(p: Seq<char>) -> bool {
    !p.contains('-') && !p.contains('\n')
}

/// The subject of a generated message is a subject in the convention, and it
/// reads back as the type, the trimmed project and the version.
pub proof fn lemma_subject_reads_back(t: CommitType, p: Seq<char>, v: Seq<char>)
    requires
        is_project_name(p),
        is_version_token(v),
    ensures
        vrc_subject(t.name() + ": "@ + p + " - "@ + v) == Some((local_type(t), trim(p), v)),
        vrc_subject_exact(t.name() + ": "@ + p + " - "@ + v),
{
    reveal_strlit("RELEASE");
    reveal_strlit("UPDATE");
    reveal_strlit("PATCH");
    reveal_strlit("RELEASE:");
    reveal_strlit("UPDATE:");
    reveal_strlit("PATCH:");
    reveal_strlit(": ");
    reveal_strlit(" - ");
    let name = t.name();
    let s = name + ": "@ + p + " - "@ + v;
    let k = name.len() + 1;
    let colon_word = name + seq![':'];
    assert(colon_word.is_prefix_of(s)) by {
        assert(s.subrange(0, colon_word.len() as int) =~= colon_word);
    }
    assert(vrc_type_prefix(s) == Some((local_type(t), k))) by {
        match t {
            CommitType::Release => {
                assert(colon_word =~= "RELEASE:"@);
            },
            CommitType::Update => {
                assert(colon_word =~= "UPDATE:"@);
                assert(s[0] == 'U');
                assert(!"RELEASE:"@.is_prefix_of(s)) by {
                    if "RELEASE:"@.is_prefix_of(s) {
                        assert(s.subrange(0, 8)[0] == 'R');
                    }
                }
            },
            CommitType::Patch => {
                assert(colon_word =~= "PATCH:"@);
                assert(s[0] == 'P');
                assert(!"RELEASE:"@.is_prefix_of(s)) by {
                    if "RELEASE:"@.is_prefix_of(s) {
                        assert(s.subrange(0, 8)[0] == 'R');
                    }
                }
                assert(!"UPDATE:"@.is_prefix_of(s)) by {
                    if "UPDATE:"@.is_prefix_of(s) {
                        assert(s.subrange(0, 7)[0] == 'U');
                    }
                }
            },
        }
    }
    let rest = s.skip(k as int);
    assert(rest =~= seq![' '] + p + seq![' ', '-', ' '] + v);
    let d: int = (p.len() + 2) as int;
    lemma_index_of(rest, '-');
    assert(rest[d] == '-');
    assert forall|j: int| 0 <= j < d implies rest[j] != '-' by {
        if 1 <= j < d - 1 {
            assert(rest[j] == p[j - 1]);
            assert(!p.contains('-'));
        }
    }
    assert(index_of(rest, '-') == d) by {
        if index_of(rest, '-') < d {
            assert(rest[index_of(rest, '-') as int] == '-');
        }
    }
    assert(rest.take(d) =~= seq![' '] + p + seq![' ']);
    lemma_trim_padded(p);
    let after = rest.skip(d + 1);
    assert(after =~= seq![' '] + v);
    assert(v[0] == 'v');
    lemma_leading_ws(after, 1);
    let tail = after.skip(leading_ws(after) as int);
    assert(tail =~= v);
    assert(tail.take(v.len() as int) =~= v);
}

/// A run of ASCII decimal digits, at least one.
pub open spec fn is_ascii_number(a: Seq<char>) -> bool {
    &&& a.len() > 0
    &&& forall|i: int| 0 <= i < a.len() ==> '0' <= #[trigger] a[i] && a[i] <= '9'
}

/// The version text `v<a>.<b>.<c>`.
pub open spec fn version_text_of(a: Seq<char>, b: Seq<char>, c: Seq<char>) -> Seq<char> {
    seq!['v'] + a + seq!['.'] + b + seq!['.'] + c
}

/// The run of digits at the start of `a + rest` is `a`, when `a` is an ASCII
/// number and `rest` is empty or starts with `.`.
proof fn lemma_ascii_digit_run(a: Seq<char>, rest: Seq<char>)
    requires
        is_ascii_number(a),
        rest.len() == 0 || rest[0] == '.',
    ensures
        digit_run(a + rest) == a.len(),
{
    reveal(is_digit);
    let t = a + rest;
    assert forall|j: int| 0 <= j < a.len() implies is_digit(#[trigger] t[j]) by {
        assert(t[j] == a[j]);
    }
    if a.len() < t.len() {
        assert(t[a.len() as int] == rest[0]);
    }
    lemma_digit_run(t, a.len() as int);
}

/// `v<a>.<b>.<c>` with ASCII numbers `a`, `b`, `c` is a version token.
pub proof fn lemma_ascii_version_is_token(a: Seq<char>, b: Seq<char>, c: Seq<char>)
    requires
        is_ascii_number(a),
        is_ascii_number(b),
        is_ascii_number(c),
    ensures
        is_version_token(version_text_of(a, b, c)),
{
    let v = version_text_of(a, b, c);
    let p1: int = 1 + a.len() as int;
    let p2: int = p1 + 1 + b.len();
    assert(v.skip(1) =~= a + (seq!['.'] + b + seq!['.'] + c));
    lemma_ascii_digit_run(a, seq!['.'] + b + seq!['.'] + c);
    assert(v[p1 as int] == '.');
    assert(v.skip(p1 + 1) =~= b + (seq!['.'] + c));
    lemma_ascii_digit_run(b, seq!['.'] + c);
    assert(v[p2 as int] == '.');
    assert(v.skip(p2 + 1) =~= c + Seq::<char>::empty());
    lemma_ascii_digit_run(c, Seq::<char>::empty());
    assert(version_token_len(v) == Some(v.len()));
    assert(!v.contains('\n')) by {
        if v.contains('\n') {
            let i = choose|i: int| 0 <= i < v.len() && v[i] == '\n';
            if 1 <= i < p1 {
                assert(v[i] == a[i - 1]);
            } else if p1 < i < p2 {
                assert(v[i] == b[i - p1 - 1]);
            } else if p2 < i {
                assert(v[i] == c[i - p2 - 1]);
            }
        }
    }
    assert(!v.contains('\r')) by {
        if v.contains('\r') {
            let i = choose|i: int| 0 <= i < v.len() && v[i] == '\r';
            if 1 <= i < p1 {
                assert(v[i] == a[i - 1]);
            } else if p1 < i < p2 {
                assert(v[i] == b[i - p1 - 1]);
            } else if p2 < i {
                assert(v[i] == c[i - p2 - 1]);
            }
        }
    }
}

/// A message written with a plain version `v<a>.<b>.<c>` of ASCII digits
/// reads back as its type, trimmed project, version and body.
pub proof fn law_generate_then_parse_plain_version(
    t: CommitType,
    project: Seq<char>,
    a: Seq<char>,
    b: Seq<char>,
    c: Seq<char>,
    body: Option<Seq<char>>,
)
    requires
        is_project_name(project),
        is_ascii_number(a),
        is_ascii_number(b),
        is_ascii_number(c),
    ensures
        spec_parse_message(spec_generate_message(t, project, version_text_of(a, b, c), body))
            == Some(
            CommitMessageView {
                commit_type: local_type(t),
                project: trim(project),
                version: version_text_of(a, b, c),
                body: read_optional_body(body),
                full_message: spec_generate_message(t, project, version_text_of(a, b, c), body),
                valid: true,
                error: None,
            },
        ),
{
    lemma_ascii_version_is_token(a, b, c);
    law_generate_then_parse(t, project, version_text_of(a, b, c), body);
}

/// A generated message has the subject as its first line, then an empty
/// line and the lines of the body, when the body is not empty.
pub proof fn lemma_generated_lines(t: CommitType, p: Seq<char>, v: Seq<char>, body: Option<Seq<char>>)
    requires
        is_project_name(p),
        is_version_token(v),
    ensures
        ({
            let subject = t.name() + ": "@ + p + " - "@ + v;
            let m = spec_generate_message(t, p, v, body);
            match body {
                Some(b) => if b.len() > 0 {
                    lines(m) == seq![subject, Seq::<char>::empty()] + lines(b)
                } else {
                    lines(m) == seq![subject]
                },
                None => lines(m) == seq![subject],
            }
        }),
{
    reveal_strlit("RELEASE");
    reveal_strlit("UPDATE");
    reveal_strlit("PATCH");
    reveal_strlit(": ");
    reveal_strlit(" - ");
    reveal_strlit("\n\n");
    let name = t.name();
    let subject = name + ": "@ + p + " - "@ + v;
    assert forall|j: int| 0 <= j < subject.len() implies subject[j] != '\n' by {
        if j < name.len() {
            assert(subject[j] == name[j]);
        } else if name.len() + 2 <= j < name.len() + 2 + p.len() {
            assert(subject[j] == p[j - name.len() - 2]);
            assert(!p.contains('\n'));
        } else if name.len() + 5 + p.len() <= j {
            assert(subject[j] == v[j - name.len() - 5 - p.len()]);
            assert(!v.contains('\n'));
        }
    }
    assert(subject.last() == v.last());
    assert(v.last() != '\r') by {
        assert(!v.contains('\r'));
        assert(v.last() == v[v.len() - 1]);
    }
    assert(strip_cr(subject) == subject);
    let m = spec_generate_message(t, p, v, body);
    match body {
        Some(b) => {
            if b.len() > 0 {
                let tail = seq!['\n'] + b;
                assert(m =~= subject + seq!['\n'] + tail);
                lemma_lines_split(subject, tail);
                let e = Seq::<char>::empty();
                assert(e + seq!['\n'] + b =~= tail);
                lemma_lines_split(e, b);
                assert(strip_cr(e) == e);
                assert(lines(m) =~= seq![subject, e] + lines(b));
            } else {
                lemma_lines_single(subject);
            }
        },
        None => {
            lemma_lines_single(subject);
        },
    }
}

/// Law: a message written by `generate_message` reads back with
/// `parse_message` as the same type, the project trimmed, the same version
/// and the body as `str::lines` reads it (leading empty lines dropped), when
/// the project holds no `-` or newline and the version is a token
/// `v<digits>.<digits>.<digits>` on one line.
pub proof fn law_generate_then_parse(
    t: CommitType,
    project: Seq<char>,
    version: Seq<char>,
    body: Option<Seq<char>>,
)
    requires
        is_project_name(project),
        is_version_token(version),
    ensures
        spec_parse_message(spec_generate_message(t, project, version, body)) == Some(
            CommitMessageView {
                commit_type: local_type(t),
                project: trim(project),
                version: version,
                body: read_optional_body(body),
                full_message: spec_generate_message(t, project, version, body),
                valid: true,
                error: None,
            },
        ),
{
    lemma_subject_reads_back(t, project, version);
    lemma_generated_lines(t, project, version, body);
    let m = spec_generate_message(t, project, version, body);
    let ls = lines(m);
    match body {
        Some(b) => {
            if b.len() > 0 {
                let e = Seq::<char>::empty();
                let lb = lines(b);
                let after = ls.skip(1);
                assert(after =~= seq![e] + lb);
                assert(after.drop_first() =~= lb);
                assert(leading_empty(after) == 1 + leading_empty(lb));
                crate::text::lemma_leading_empty_bound(lb);
                assert(skip_empty(after) =~= skip_empty(lb));
            }
        },
        None => {},
    }
}

/// Law: a body with no `'\r'` that neither starts nor ends with a newline
/// reads back exactly as it was written.
pub proof fn law_body_reads_back(b: Seq<char>)
    requires
        b.len() > 0,
        b[0] != '\n',
        b.last() != '\n',
        !b.contains('\r'),
    ensures
        read_body(b) == Some(b),
{
    lemma_join_lines_of(b);
    let ls = lines(b);
    crate::text::lemma_first_newline(b);
    assert(ls.len() > 0);
    assert(ls[0].len() > 0) by {
        let n = crate::text::first_newline(b) as int;
        if n < b.len() {
            assert(n > 0);
            assert(ls[0] == strip_cr(b.take(n)));
            assert(b.take(n).last() == b[n - 1]);
        }
    }
    assert(leading_empty(ls) == 0);
    assert(skip_empty(ls) =~= ls);
}

/// The parts that a subject line reads as can be written back: the project
/// holds no `-` or newline and is already trimmed, and the version is a whole
/// version token.
pub proof fn lemma_subject_parts(s: Seq<char>)
    requires
        vrc_subject(s) is Some,
        !s.contains('\n'),
    ensures
        match vrc_subject(s) {
            Some((t, p, v)) => {
                &&& is_project_name(p)
                &&& trim(p) == p
                &&& version_token_len(v) == Some(v.len())
                &&& !v.contains('\n')
            },
            None => false,
        },
{
    reveal_strlit("RELEASE:");
    reveal_strlit("UPDATE:");
    reveal_strlit("PATCH:");
    let (t0, k) = vrc_type_prefix(s)->0;
    assert(k <= s.len());
    let rest = s.skip(k as int);
    let d = index_of(rest, '-') as int;
    lemma_index_of(rest, '-');
    let raw = rest.take(d);
    let p = trim(raw);
    crate::text::lemma_trim_piece(raw);
    crate::text::lemma_trim_idempotent(raw);
    let lw = leading_ws(raw);
    assert(!p.contains('-')) by {
        if p.contains('-') {
            let j = choose|j: int| 0 <= j < p.len() && p[j] == '-';
            assert(p[j] == raw[j + lw]);
        }
    }
    assert(!p.contains('\n')) by {
        if p.contains('\n') {
            let j = choose|j: int| 0 <= j < p.len() && p[j] == '\n';
            assert(p[j] == raw[j + lw]);
            assert(j + lw < d);
            assert(raw[j + lw] == rest[j + lw]);
            assert(rest[j + lw] == s[k + j + lw]);
            assert(!s.contains('\n'));
            assert(s[k + j + lw] != '\n');
        }
    }
    let after = rest.skip(d + 1);
    let tail = after.skip(leading_ws(after) as int);
    lemma_version_token_take(tail);
    let n = version_token_len(tail)->0;
    let v = tail.take(n as int);
    crate::text::lemma_leading_ws_props(after);
    assert(!v.contains('\n')) by {
        if v.contains('\n') {
            let j = choose|j: int| 0 <= j < v.len() && v[j] == '\n';
            assert(v[j] == tail[j]);
            assert(tail[j] == after[leading_ws(after) + j]);
            assert(after[leading_ws(after) + j] == rest[d + 1 + leading_ws(after) + j]);
            assert(rest[d + 1 + leading_ws(after) + j] == s[k + d + 1 + leading_ws(after) + j]);
            assert(!s.contains('\n'));
        }
    }
}

/// Law: a message written by `generate_message` passes `validate_message`
/// when its subject fits in 100 bytes, the project holds no `-` or newline
/// and the version is a token `v<digits>.<digits>.<digits>` on one line; the
/// accepted message is the one `parse_message` reads.
pub proof fn law_generated_message_validates(
    t: CommitType,
    project: Seq<char>,
    version: Seq<char>,
    body: Option<Seq<char>>,
)
    requires
        is_project_name(project),
        is_version_token(version),
        vstd::utf8::encode_utf8(t.name() + ": "@ + project + " - "@ + version).len() <= 100,
    ensures
        spec_validate_message(spec_generate_message(t, project, version, body)) == Ok::<
            CommitMessageView,
            Seq<char>,
        >(spec_parse_message(spec_generate_message(t, project, version, body))->0),
{
    law_generate_then_parse(t, project, version, body);
    lemma_subject_reads_back(t, project, version);
    lemma_generated_lines(t, project, version, body);
    reveal_strlit("RELEASE");
    reveal_strlit("UPDATE");
    reveal_strlit("PATCH");
    let m = spec_generate_message(t, project, version, body);
    assert(m.len() > 0) by {
        assert(lines(m).len() > 0);
    }
}

/// A message whose first line is a subject in the convention reads back with
/// the text after that line as its body: for a subject line `s` and a text
/// `b` that starts with a non-empty line, has no `'\r'` and does not end with
/// a newline, the message `s + "\n" + b` has the type, project and version of
/// `s` and the body `b`.
pub proof fn law_body_follows_subject(s: Seq<char>, b: Seq<char>)
    requires
        !s.contains('\n'),
        !s.contains('\r'),
        vrc_subject(s) is Some,
        b.len() > 0,
        b[0] != '\n',
        !b.contains('\r'),
        b.last() != '\n',
    ensures
        ({
            let m = s + seq!['\n'] + b;
            let (t, p, v) = vrc_subject(s)->0;
            spec_parse_message(m) == Some(
                CommitMessageView {
                    commit_type: t,
                    project: p,
                    version: v,
                    body: Some(b),
                    full_message: m,
                    valid: true,
                    error: None,
                },
            )
        }),
{
    let m = s + seq!['\n'] + b;
    assert forall|j: int| 0 <= j < s.len() implies s[j] != '\n' by {
        assert(s.contains(s[j]));
    }
    lemma_lines_split(s, b);
    assert(strip_cr(s) == s) by {
        if s.len() > 0 {
            assert(s.contains(s.last()));
        }
    }
    let ls = lines(m);
    assert(ls.skip(1) =~= lines(b));
    crate::text::lemma_first_newline(b);
    let n = crate::text::first_newline(b) as int;
    assert(n > 0);
    assert(lines(b).len() > 0);
    assert(lines(b)[0].len() > 0) by {
        if n < b.len() {
            assert(b.take(n).len() == n);
            assert(b.take(n).last() == b[n - 1]);
            assert(b.contains(b[n - 1]));
        }
    }
    crate::text::lemma_leading_empty(lines(b), 0);
    assert(skip_empty(lines(b)) =~= lines(b));
    lemma_join_lines_of(b);
}

} // verus!

//! Amending the last commit: the new message keeps a versioned subject and
//! adds the extra text as one more bullet.

use vstd::prelude::*;
use crate::convention::parser::{
    parse_message, spec_parse_message, CommitTypeLocal, cli_type, local_type,
    spec_generate_message,
};
use crate::convention::roundtrip::{law_generate_then_parse, lemma_subject_parts};
use crate::text::{chars_of, string_of, push_str, push_all};

verus! {

/// The message that amending a commit with message `last` by `additional`
/// writes. A versioned message keeps its subject, and `additional` (when not
/// empty) becomes one more bullet of the body; another message gets
/// `additional` and a newline in front of it.
pub open spec fn spec_amend_message(last: Seq<char>, additional: Seq<char>) -> Seq<char> {
    match spec_parse_message(last) {
        Some(x) => {
            let b0 = match x.body {
                Some(b) => b,
                None => Seq::<char>::empty(),
            };
            let b1 = if additional.len() > 0 {
                if b0.len() > 0 {
                    b0 + "\n- "@ + additional
                } else {
                    b0 + "\n\n- "@ + additional
                }
            } else {
                b0
            };
            let suffix = if b1.len() > 0 {
                "\n\n"@ + b1
            } else {
                Seq::<char>::empty()
            };
            x.commit_type.name() + ": "@ + x.project + " - "@ + x.version + suffix
        },
        None => additional + "\n"@ + last,
    }
}

/// Whether there is anything to amend: extra text, or all changes staged.
pub fn has_changes_to_amend(additional: &str, all: bool) -> (r: bool)
    ensures
        r == (additional@.len() > 0 || all),
{
    !additional.is_empty() || all
}

/// Writes the message for amending a commit whose message is `last`.
pub fn amend_message(last: &str, additional: &str) -> (r: String)
    ensures
        r@ == spec_amend_message(last@, additional@),
{
    match parse_message(last) {
        Some(parsed) => {
            let mut body: Vec<char> = match &parsed.body {
                Some(b) => chars_of(b.as_str()),
                None => Vec::new(),
            };
            if !additional.is_empty() {
                if body.len() > 0 {
                    push_str(&mut body, "\n- ");
                } else {
                    push_str(&mut body, "\n\n- ");
                }
                push_str(&mut body, additional);
            }
            let mut out: Vec<char> = Vec::new();
            push_str(&mut out, parsed.commit_type.as_str());
            push_str(&mut out, ": ");
            push_str(&mut out, parsed.project.as_str());
            push_str(&mut out, " - ");
            push_str(&mut out, parsed.version.as_str());
            if body.len() > 0 {
                push_str(&mut out, "\n\n");
                push_all(&mut out, &body);
            }
            string_of(&out)
        },
        None => {
            let mut out: Vec<char> = Vec::new();
            push_str(&mut out, additional);
            push_str(&mut out, "\n");
            push_str(&mut out, last);
            string_of(&out)
        },
    }
}

/// Law: amending a commit in the convention keeps its type, its project and
/// its version ("same version"), whatever text is added; the version must not
/// hold a `'\r'`, which would be taken as part of a line ending.
pub proof fn law_amend_keeps_version(last: Seq<char>, additional: Seq<char>)
    requires
        spec_parse_message(last) is Some,
        !spec_parse_message(last)->0.version.contains('\r'),
    ensures
        spec_parse_message(spec_amend_message(last, additional)) matches Some(y) && {
            let x = spec_parse_message(last)->0;
            &&& y.commit_type == x.commit_type
            &&& y.project == x.project
            &&& y.version == x.version
        },
{
    let x = spec_parse_message(last)->0;
    let ls = crate::text::lines(last);
    crate::text::lemma_lines_have_no_newline(last);
    assert(!ls[0].contains('\n'));
    lemma_subject_parts(ls[0]);
    let t = cli_type(x.commit_type);
    assert(t.name() == x.commit_type.name()) by {
        match x.commit_type {
            CommitTypeLocal::Release => {},
            CommitTypeLocal::Update => {},
            CommitTypeLocal::Patch => {},
        }
    }
    assert(local_type(t) == x.commit_type) by {
        match x.commit_type {
            CommitTypeLocal::Release => {},
            CommitTypeLocal::Update => {},
            CommitTypeLocal::Patch => {},
        }
    }
    let b0 = match x.body {
        Some(b) => b,
        None => Seq::<char>::empty(),
    };
    let b1 = if additional.len() > 0 {
        if b0.len() > 0 {
            b0 + "\n- "@ + additional
        } else {
            b0 + "\n\n- "@ + additional
        }
    } else {
        b0
    };
    assert(spec_amend_message(last, additional) == spec_generate_message(
        t,
        x.project,
        x.version,
        Some(b1),
    ));
    law_generate_then_parse(t, x.project, x.version, Some(b1));
}

} // verus!

//! Turning a free-form message into a versioned commit message.

use vstd::prelude::*;
use crate::cli::CommitType;
use crate::convention::detect::{detect_commit_type, spec_detect_commit_type};
use crate::convention::parser::{
    generate_message, spec_generate_message, spec_parse_message, spec_validate_message, local_type,
};
use crate::convention::roundtrip::{
    law_generate_then_parse, law_generated_message_validates, is_project_name, is_version_token,
    read_body,
};
use crate::text::{chars_of, string_of, push_str, push_all, lines, views, split_lines};

verus! {

/// The type for a message: the detected one, or `PATCH` when the message is
/// empty.
pub fn detect_from_message(message: &str) -> (r: CommitType)
    ensures
        r == match spec_detect_commit_type(message@) {
            Some(t) => t,
            None => CommitType::Patch,
        },
{
    match detect_commit_type(message) {
        Some(t) => t,
        None => CommitType::Patch,
    }
}

/// The error when no project name can be found.
pub open spec fn no_project_name_error() -> Seq<char> {
    "Cannot determine project name"@
}

/// The project name: the one given on the command line, else the one in the
/// configuration, else the name of the repository's directory.
pub fn get_project_name(
    override_name: Option<String>,
    config_name: Option<String>,
    dir_name: Option<String>,
) -> (r: Result<String, String>)
    ensures
        match override_name {
            Some(n) => r matches Ok(x) && x@ == n@,
            None => match config_name {
                Some(n) => r matches Ok(x) && x@ == n@,
                None => match dir_name {
                    Some(n) => r matches Ok(x) && x@ == n@,
                    None => r matches Err(e) && e@ == no_project_name_error(),
                },
            },
        },
{
    if let Some(name) = override_name {
        return Ok(name);
    }
    if let Some(name) = config_name {
        return Ok(name);
    }
    match dir_name {
        Some(name) => Ok(name),
        None => Err("Cannot determine project name".to_string()),
    }
}

/// The word that opens the first bullet for each type.
pub open spec fn change_prefix(t: CommitType) -> Seq<char> {
    match t {
        CommitType::Release => "Breaking"@,
        CommitType::Update => "Added"@,
        CommitType::Patch => "Fixed"@,
    }
}

/// One more bullet `"\n- " + line` for each non-empty line of `ls`.
pub open spec fn extra_bullets(ls: Seq<Seq<char>>) -> Seq<char>
    decreases ls.len(),
{
    if ls.len() == 0 {
        Seq::empty()
    } else {
        extra_bullets(ls.drop_last()) + if ls.last().len() > 0 {
            "\n- "@ + ls.last()
        } else {
            Seq::empty()
        }
    }
}

/// The body written for a message: `- PREFIX: first line`, then one bullet
/// for each further non-empty line.
pub open spec fn vrc_body(t: CommitType, m: Seq<char>) -> Seq<char> {
    let ls = lines(m);
    if ls.len() > 0 {
        "- "@ + change_prefix(t) + ": "@ + ls[0] + extra_bullets(ls.skip(1))
    } else {
        "- "@ + change_prefix(t) + ": "@
    }
}

/// The versioned message for a free-form message.
pub open spec fn spec_generate_vrc_message(
    t: CommitType,
    project: Seq<char>,
    version: Seq<char>,
    m: Seq<char>,
) -> Seq<char> {
    spec_generate_message(t, project, version, Some(vrc_body(t, m)))
}

/// Writes the versioned message for a commit: the subject
/// `TYPE: PROJECT - VERSION`, then the message as a list of bullets, the first
/// one opened by `Breaking`, `Added` or `Fixed` after the type.
pub fn generate_vrc_message(
    commit_type: CommitType,
    project: &str,
    version: &str,
    original_message: &str,
) -> (r: String)
    ensures
        r@ == spec_generate_vrc_message(commit_type, project@, version@, original_message@),
{
    let m = chars_of(original_message);
    let ls = split_lines(&m);
    let ghost vl = views(ls@);
    let mut body: Vec<char> = Vec::new();
    push_str(&mut body, "- ");
    let prefix = match commit_type {
        CommitType::Release => "Breaking",
        CommitType::Update => "Added",
        CommitType::Patch => "Fixed",
    };
    push_str(&mut body, prefix);
    push_str(&mut body, ": ");
    if ls.len() > 0 {
        assert(vl[0] == ls@[0]@);
        push_all(&mut body, &ls[0]);
        let ghost head = body@;
        let mut i: usize = 1;
        assert(vl.subrange(1, 1) =~= Seq::<Seq<char>>::empty());
        while i < ls.len()
            invariant
                1 <= i <= ls@.len(),
                vl == views(ls@),
                body@ == head + extra_bullets(vl.subrange(1, i as int)),
            decreases ls@.len() - i,
        {
            let ghost before = vl.subrange(1, i as int);
            if ls[i].len() > 0 {
                push_str(&mut body, "\n- ");
                push_all(&mut body, &ls[i]);
            }
            let ghost after = vl.subrange(1, i + 1);
            assert(after.drop_last() == before);
            assert(after.last() == ls@[i as int]@);
            i = i + 1;
        }
        assert(vl.subrange(1, i as int) == vl.skip(1));
    }
    let body_str = string_of(&body);
    generate_message(commit_type, project, version, Some(body_str.as_str()))
}

/// Law: the message that the commit command writes is in the convention: it
/// reads back as the chosen type, the trimmed project and the version, with
/// the bullets as its body.
pub proof fn law_commit_message_is_versioned(
    t: CommitType,
    project: Seq<char>,
    version: Seq<char>,
    message: Seq<char>,
)
    requires
        is_project_name(project),
        is_version_token(version),
    ensures
        spec_parse_message(spec_generate_vrc_message(t, project, version, message)) matches Some(
            x,
        ) && x.commit_type == local_type(t) && x.project == crate::text::trim(project)
            && x.version == version && x.body == read_body(vrc_body(t, message)),
{
    reveal_strlit("- ");
    assert(vrc_body(t, message).len() > 0);
    law_generate_then_parse(t, project, version, Some(vrc_body(t, message)));
}

/// Law: the message that the commit command writes passes
/// `validate_message` when its subject fits in 100 bytes.
pub proof fn law_commit_message_validates(
    t: CommitType,
    project: Seq<char>,
    version: Seq<char>,
    message: Seq<char>,
)
    requires
        is_project_name(project),
        is_version_token(version),
        vstd::utf8::encode_utf8(t.name() + ": "@ + project + " - "@ + version).len() <= 100,
    ensures
        spec_validate_message(spec_generate_vrc_message(t, project, version, message)) is Ok,
{
    law_generated_message_validates(t, project, version, Some(vrc_body(t, message)));
}

} // verus!

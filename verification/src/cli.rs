//! The commit types that the command line accepts.

use vstd::prelude::*;
use crate::text::chars_of;

verus! {

/// The three kinds of versioned commit, each bumping one part of the version:
/// `Release` the major, `Update` the minor and `Patch` the patch number.
#[derive(Clone, Copy, Debug, PartialEq, Eq, Structural)]
pub enum CommitType {
    Release,
    Update,
    Patch,
}

/// The ASCII upper-case form of `c`; other characters stay as they are.
pub open spec fn ascii_upper(c: char) -> char {
    if 'a' <= c && c <= 'z' {
        ((c as u32) - 32) as char
    } else {
        c
    }
}

/// Whether `s` and `t` are equal when ASCII letters are compared without case.
pub open spec fn eq_ignore_ascii_case(s: Seq<char>, t: Seq<char>) -> bool {
    &&& s.len() == t.len()
    &&& forall|i: int| 0 <= i < s.len() ==> ascii_upper(#[trigger] s[i]) == ascii_upper(t[i])
}

impl CommitType {
    /// The name of the type as it stands in a commit subject.
    pub open spec fn name(self) -> Seq<char> {
        match self {
            CommitType::Release => "RELEASE"@,
            CommitType::Update => "UPDATE"@,
            CommitType::Patch => "PATCH"@,
        }
    }

    /// The name of the type: `RELEASE`, `UPDATE` or `PATCH`.
    pub fn as_str(&self) -> (r: &'static str)
        ensures
            r@ == self.name(),
    {
        match self {
            CommitType::Release => "RELEASE",
            CommitType::Update => "UPDATE",
            CommitType::Patch => "PATCH",
        }
    }

    /// The name of the type as an owned string.
    pub fn to_string(&self) -> (r: String)
        ensures
            r@ == self.name(),
    {
        self.as_str().to_string()
    }

    /// The type whose name equals `s` up to ASCII case, if any.
    pub fn from_str(s: &str) -> (r: Option<CommitType>)
        ensures
            forall|t: CommitType| (r == Some(t)) <==> eq_ignore_ascii_case(s@, #[trigger] t.name()),
    {
        proof {
            reveal_strlit("RELEASE");
            reveal_strlit("UPDATE");
            reveal_strlit("PATCH");
        }
        let cs = chars_of(s);
        if eq_ignore_case_exec(&cs, &chars_of("RELEASE")) {
            Some(CommitType::Release)
        } else if eq_ignore_case_exec(&cs, &chars_of("UPDATE")) {
            Some(CommitType::Update)
        } else if eq_ignore_case_exec(&cs, &chars_of("PATCH")) {
            Some(CommitType::Patch)
        } else {
            None
        }
    }
}

/// The code of the ASCII upper-case form of `c`.
fn upper_code(c: char) -> (r: u32)
    ensures
        r == ascii_upper(c) as u32,
{
    if 'a' <= c && c <= 'z' {
        (c as u32) - 32
    } else {
        c as u32
    }
}

/// Whether `s` and `t` are equal up to ASCII case.
pub fn eq_ignore_case_exec(s: &Vec<char>, t: &Vec<char>) -> (r: bool)
    ensures
        r == eq_ignore_ascii_case(s@, t@),
{
    if s.len() != t.len() {
        return false;
    }
    let mut i: usize = 0;
    while i < s.len()
        invariant
            s@.len() == t@.len(),
            i <= s@.len(),
            forall|j: int| 0 <= j < i ==> ascii_upper(#[trigger] s@[j]) == ascii_upper(t@[j]),
        decreases s@.len() - i,
    {
        if upper_code(s[i]) != upper_code(t[i]) {
            return false;
        }
        i = i + 1;
    }
    true
}

/// Law: each type's name reads back as that type, whatever the case of its
/// letters, and as no other type.
pub proof fn law_name_reads_back(t: CommitType, u: CommitType)
    ensures
        eq_ignore_ascii_case(t.name(), t.name()),
        t != u ==> !eq_ignore_ascii_case(t.name(), u.name()),
{
    reveal_strlit("RELEASE");
    reveal_strlit("UPDATE");
    reveal_strlit("PATCH");
}

} // verus!

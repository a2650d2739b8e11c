//! Semantic versions `vMAJOR.MINOR.PATCH` and how each commit type bumps them.

use vstd::prelude::*;
use crate::cli::CommitType;
use crate::convention::detect::string_views;
use crate::text::{
    chars_of, string_of, push_str, push_decimal, decimal, digit_char, index_of, find_char,
};

verus! {

/// A semantic version.
#[derive(Clone, Copy, Debug, PartialEq, Eq, Structural)]
pub struct Version {
    pub major: u64,
    pub minor: u64,
    pub patch: u64,
}

/// The versions that each commit type would lead to from `current`.
#[derive(Clone, Copy, Debug, PartialEq, Eq, Structural)]
pub struct VersionSuggestions {
    pub current: Version,
    pub release: Version,
    pub update: Version,
    pub patch: Version,
}

/// The version after a commit of type `t`: `RELEASE` bumps the major number,
/// `UPDATE` the minor and `PATCH` the patch number; the numbers after the
/// bumped one start again at zero.
pub open spec fn spec_bump(v: Version, t: CommitType) -> Version {
    match t {
        CommitType::Release => Version { major: (v.major + 1) as u64, minor: 0, patch: 0 },
        CommitType::Update => Version { major: v.major, minor: (v.minor + 1) as u64, patch: 0 },
        CommitType::Patch => Version { major: v.major, minor: v.minor, patch: (v.patch + 1) as u64 },
    }
}

/// Whether the number that a commit of type `t` bumps is below the largest `u64`.
pub open spec fn can_bump(v: Version, t: CommitType) -> bool {
    match t {
        CommitType::Release => v.major < u64::MAX,
        CommitType::Update => v.minor < u64::MAX,
        CommitType::Patch => v.patch < u64::MAX,
    }
}

/// Semantic-version order: by major, then minor, then patch number.
pub open spec fn version_lt(a: Version, b: Version) -> bool {
    ||| a.major < b.major
    ||| a.major == b.major && a.minor < b.minor
    ||| a.major == b.major && a.minor == b.minor && a.patch < b.patch
}

/// The text `vMAJOR.MINOR.PATCH`.
pub open spec fn version_text(v: Version) -> Seq<char> {
    "v"@ + decimal(v.major as nat) + "."@ + decimal(v.minor as nat) + "."@ + decimal(
        v.patch as nat,
    )
}

/// Whether `c` is one of `0` to `9`.
pub open spec fn is_ascii_digit(c: char) -> bool {
    '0' <= c && c <= '9'
}

/// The value of an ASCII digit.
pub open spec fn digit_value(c: char) -> nat {
    ((c as int) - 48) as nat
}

/// The value of a run of ASCII digits read in base ten.
pub open spec fn digits_value(t: Seq<char>) -> nat
    decreases t.len(),
{
    if t.len() == 0 {
        0
    } else {
        digits_value(t.drop_last()) * 10 + digit_value(t.last())
    }
}

/// Whether `t` is a number that fits a `u64`: one or more ASCII digits.
pub open spec fn is_number(t: Seq<char>) -> bool {
    &&& t.len() > 0
    &&& forall|i: int| 0 <= i < t.len() ==> is_ascii_digit(#[trigger] t[i])
    &&& digits_value(t) <= u64::MAX
}

/// The version that `s` writes, if any: an optional `v`, then three numbers
/// separated by `.`, each one or more ASCII digits and at most `u64::MAX`.
pub open spec fn spec_parse_version(s: Seq<char>) -> Option<Version> {
    let t = if s.len() > 0 && s[0] == 'v' {
        s.drop_first()
    } else {
        s
    };
    let i1 = index_of(t, '.');
    let r1 = t.skip((i1 + 1) as int);
    let i2 = index_of(r1, '.');
    let a = t.take(i1 as int);
    let b = r1.take(i2 as int);
    let c = r1.skip((i2 + 1) as int);
    if i1 < t.len() && i2 < r1.len() && is_number(a) && is_number(b) && is_number(c) {
        Some(
            Version {
                major: digits_value(a) as u64,
                minor: digits_value(b) as u64,
                patch: digits_value(c) as u64,
            },
        )
    } else {
        None
    }
}

impl Version {
    /// The version `major.minor.patch`.
    pub fn new(major: u64, minor: u64, patch: u64) -> (r: Version)
        ensures
            r == (Version { major, minor, patch }),
    {
        Version { major, minor, patch }
    }

    /// The version after a commit of type `t`.
    pub fn bump(&self, t: CommitType) -> (r: Version)
        requires
            can_bump(*self, t),
        ensures
            r == spec_bump(*self, t),
    {
        match t {
            CommitType::Release => Version { major: self.major + 1, minor: 0, patch: 0 },
            CommitType::Update => Version { major: self.major, minor: self.minor + 1, patch: 0 },
            CommitType::Patch => Version {
                major: self.major,
                minor: self.minor,
                patch: self.patch + 1,
            },
        }
    }

    /// The versions that each commit type would lead to.
    pub fn suggestions(&self) -> (r: VersionSuggestions)
        requires
            self.major < u64::MAX,
            self.minor < u64::MAX,
            self.patch < u64::MAX,
        ensures
            r.current == *self,
            r.release == spec_bump(*self, CommitType::Release),
            r.update == spec_bump(*self, CommitType::Update),
            r.patch == spec_bump(*self, CommitType::Patch),
    {
        VersionSuggestions {
            current: *self,
            release: self.bump(CommitType::Release),
            update: self.bump(CommitType::Update),
            patch: self.bump(CommitType::Patch),
        }
    }

    /// The version written as `vMAJOR.MINOR.PATCH`.
    pub fn to_string(&self) -> (r: String)
        ensures
            r@ == version_text(*self),
    {
        let mut out: Vec<char> = Vec::new();
        push_str(&mut out, "v");
        push_decimal(&mut out, self.major as u128);
        push_str(&mut out, ".");
        push_decimal(&mut out, self.minor as u128);
        push_str(&mut out, ".");
        push_decimal(&mut out, self.patch as u128);
        string_of(&out)
    }

    /// Reads a version, with or without its leading `v`.
    pub fn from_str(s: &str) -> (r: Option<Version>)
        ensures
            r == spec_parse_version(s@),
    {
        parse_version(s)
    }
}

/// The value of the ASCII digit `c`.
fn digit_value_exec(c: char) -> (r: u128)
    requires
        is_ascii_digit(c),
    ensures
        r == digit_value(c),
        r < 10,
{
    ((c as u32) - 48) as u128
}

/// The number written by `s[from..to]`, if it is one that fits a `u64`.
fn parse_number(s: &Vec<char>, from: usize, to: usize) -> (r: Option<u64>)
    requires
        from <= to <= s@.len(),
    ensures
        match r {
            Some(n) => is_number(s@.subrange(from as int, to as int)) && n == digits_value(
                s@.subrange(from as int, to as int),
            ),
            None => !is_number(s@.subrange(from as int, to as int)),
        },
{
    if from == to {
        return None;
    }
    let mut val: u128 = 0;
    let mut over = false;
    let mut i = from;
    while i < to
        invariant
            from <= i <= to <= s@.len(),
            forall|j: int| from <= j < i ==> is_ascii_digit(#[trigger] s@[j]),
            over ==> digits_value(s@.subrange(from as int, i as int)) > u64::MAX,
            !over ==> val == digits_value(s@.subrange(from as int, i as int)) && val <= u64::MAX,
        decreases to - i,
    {
        let c = s[i];
        if !('0' <= c && c <= '9') {
            assert(s@.subrange(from as int, to as int)[i - from] == c);
            return None;
        }
        let d = digit_value_exec(c);
        let ghost prefix = s@.subrange(from as int, (i + 1) as int);
        assert(prefix.drop_last() == s@.subrange(from as int, i as int));
        assert(prefix.last() == c);
        if !over {
            let next = val * 10 + d;
            if next > u64::MAX as u128 {
                over = true;
            } else {
                val = next;
            }
        }
        i = i + 1;
    }
    assert(forall|j: int|
        0 <= j < to - from ==> #[trigger] s@.subrange(from as int, to as int)[j] == s@[from + j]);
    if over {
        None
    } else {
        Some(val as u64)
    }
}

/// Reads a version, with or without its leading `v`: three numbers
/// separated by `.`, each of ASCII digits and within `u64`.
pub fn parse_version(s: &str) -> (r: Option<Version>)
    ensures
        r == spec_parse_version(s@),
{
    let cs = chars_of(s);
    let n = cs.len();
    let start: usize = if n > 0 && cs[0] == 'v' {
        1
    } else {
        0
    };
    let ghost t = if s@.len() > 0 && s@[0] == 'v' {
        s@.drop_first()
    } else {
        s@
    };
    assert(t == cs@.skip(start as int));
    let i1 = find_char(&cs, start, '.');
    if i1 >= n {
        return None;
    }
    let i2 = find_char(&cs, i1 + 1, '.');
    let ghost r1 = t.skip((index_of(t, '.') + 1) as int);
    assert(r1 == cs@.skip(i1 + 1));
    if i2 >= n {
        return None;
    }
    assert(t.take(i1 - start) == cs@.subrange(start as int, i1 as int));
    assert(r1.take(i2 - i1 - 1) == cs@.subrange(i1 + 1, i2 as int));
    assert(r1.skip(i2 - i1) == cs@.subrange(i2 + 1, n as int));
    let a = parse_number(&cs, start, i1);
    let b = parse_number(&cs, i1 + 1, i2);
    let c = parse_number(&cs, i2 + 1, n);
    match (a, b, c) {
        (Some(major), Some(minor), Some(patch)) => Some(Version { major, minor, patch }),
        _ => None,
    }
}

/// The digit written for `k < 10` is an ASCII digit of value `k`.
pub proof fn lemma_digit_char(k: nat)
    requires
        k < 10,
    ensures
        is_ascii_digit(digit_char(k)),
        digit_value(digit_char(k)) == k,
{
}

/// The decimal rendering of `n` is a non-empty run of ASCII digits whose
/// value is `n`.
pub proof fn lemma_decimal_digits(n: nat)
    ensures
        decimal(n).len() > 0,
        forall|i: int| 0 <= i < decimal(n).len() ==> is_ascii_digit(#[trigger] decimal(n)[i]),
        digits_value(decimal(n)) == n,
    decreases n,
{
    lemma_digit_char(n % 10);
    if n < 10 {
        let d = decimal(n);
        assert(d.drop_last() == Seq::<char>::empty());
        assert(digits_value(d) == digits_value(d.drop_last()) * 10 + digit_value(d.last()));
        assert(n % 10 == n);
    }
    if n >= 10 {
        lemma_decimal_digits(n / 10);
        let d = decimal(n);
        assert(d.drop_last() == decimal(n / 10));
        assert(d.last() == digit_char(n % 10));
        assert(digits_value(d) == digits_value(d.drop_last()) * 10 + digit_value(d.last()));
        assert((n / 10) * 10 + n % 10 == n) by (nonlinear_arith);
        assert forall|i: int| 0 <= i < d.len() implies is_ascii_digit(#[trigger] d[i]) by {
            if i < d.len() - 1 {
                assert(d[i] == decimal(n / 10)[i]);
            }
        }
    }
}

/// In `a + "." + b`, with no `.` in `a`, the first `.` stands right after `a`.
pub proof fn lemma_index_of_dot(a: Seq<char>, b: Seq<char>)
    requires
        forall|i: int| 0 <= i < a.len() ==> a[i] != '.',
    ensures
        index_of(a + seq!['.'] + b, '.') == a.len(),
    decreases a.len(),
{
    let s = a + seq!['.'] + b;
    if a.len() > 0 {
        assert(s.drop_first() == a.drop_first() + seq!['.'] + b);
        lemma_index_of_dot(a.drop_first(), b);
    }
}

/// Writing a version and reading it back gives the same version.
pub proof fn lemma_version_text_parses(v: Version)
    ensures
        spec_parse_version(version_text(v)) == Some(v),
{
    reveal_strlit("v");
    reveal_strlit(".");
    let a = decimal(v.major as nat);
    let b = decimal(v.minor as nat);
    let c = decimal(v.patch as nat);
    lemma_decimal_digits(v.major as nat);
    lemma_decimal_digits(v.minor as nat);
    lemma_decimal_digits(v.patch as nat);
    let s = version_text(v);
    assert(s == seq!['v'] + (a + seq!['.'] + (b + seq!['.'] + c)));
    let t = a + seq!['.'] + (b + seq!['.'] + c);
    assert(s.drop_first() == t);
    assert forall|i: int| 0 <= i < a.len() implies a[i] != '.' by {
        assert(is_ascii_digit(a[i]));
    }
    assert forall|i: int| 0 <= i < b.len() implies b[i] != '.' by {
        assert(is_ascii_digit(b[i]));
    }
    lemma_index_of_dot(a, b + seq!['.'] + c);
    let r1 = t.skip((a.len() + 1) as int);
    assert(r1 == b + seq!['.'] + c);
    lemma_index_of_dot(b, c);
    assert(t.take(a.len() as int) == a);
    assert(r1.take(b.len() as int) == b);
    assert(r1.skip((b.len() + 1) as int) == c);
}

/// Law: a version written by `to_string` reads back as the same version.
pub proof fn law_version_roundtrip(v: Version)
    ensures
        spec_parse_version(version_text(v)) == Some(v),
{
    lemma_version_text_parses(v);
}

/// Law: every bump gives a strictly greater version.
pub proof fn law_bump_increases(v: Version, t: CommitType)
    requires
        can_bump(v, t),
    ensures
        version_lt(v, spec_bump(v, t)),
{
}

/// Law: the leading `v` is optional; a version reads the same with or without it.
pub proof fn law_optional_v_prefix(x: Seq<char>)
    requires
        x.len() == 0 || x[0] != 'v',
    ensures
        spec_parse_version(seq!['v'] + x) == spec_parse_version(x),
{
    assert((seq!['v'] + x).drop_first() == x);
}

/// The error for a text that is not a version.
pub open spec fn invalid_version_error(s: Seq<char>) -> Seq<char> {
    "Invalid version: "@ + s
}

/// The error for a version whose bumped number is already the largest `u64`.
pub open spec fn version_overflow_error(s: Seq<char>) -> Seq<char> {
    "Version number overflow: "@ + s
}

/// What `bump_version` answers: the bumped version written as `vX.Y.Z`, or
/// an error when `current` is not a version or cannot be bumped.
pub open spec fn spec_bump_version(current: Seq<char>, t: CommitType) -> Result<Seq<char>, Seq<char>> {
    match spec_parse_version(current) {
        None => Err(invalid_version_error(current)),
        Some(v) => if can_bump(v, t) {
            Ok(version_text(spec_bump(v, t)))
        } else {
            Err(version_overflow_error(current))
        },
    }
}

/// The view of a result of strings.
pub open spec fn string_result_view(r: Result<String, String>) -> Result<Seq<char>, Seq<char>> {
    match r {
        Ok(s) => Ok(s@),
        Err(e) => Err(e@),
    }
}

/// Reads `current` as a version and writes the version that a commit of type
/// `t` leads to.
pub fn bump_version(current: &str, t: CommitType) -> (r: Result<String, String>)
    ensures
        string_result_view(r) == spec_bump_version(current@, t),
{
    match parse_version(current) {
        None => {
            let mut e: Vec<char> = Vec::new();
            push_str(&mut e, "Invalid version: ");
            push_str(&mut e, current);
            Err(string_of(&e))
        },
        Some(v) => {
            let ok = match t {
                CommitType::Release => v.major < u64::MAX,
                CommitType::Update => v.minor < u64::MAX,
                CommitType::Patch => v.patch < u64::MAX,
            };
            if ok {
                Ok(v.bump(t).to_string())
            } else {
                let mut e: Vec<char> = Vec::new();
                push_str(&mut e, "Version number overflow: ");
                push_str(&mut e, current);
                Err(string_of(&e))
            }
        },
    }
}

/// The version that a commit of type `t` gets when the repository is at
/// `current`: the bump of `current`, read as `v0.0.0` when it is not a
/// version; `current` itself when its bumped number cannot grow.
pub open spec fn spec_next_version(current: Seq<char>, t: CommitType) -> Seq<char> {
    let v = match spec_parse_version(current) {
        Some(v) => v,
        None => Version { major: 0, minor: 0, patch: 0 },
    };
    if can_bump(v, t) {
        version_text(spec_bump(v, t))
    } else {
        current
    }
}

/// The version that the next commit of type `t` gets.
pub fn determine_next_version(current: &str, t: CommitType) -> (r: String)
    ensures
        r@ == spec_next_version(current@, t),
{
    let v = match parse_version(current) {
        Some(v) => v,
        None => Version::new(0, 0, 0),
    };
    let ok = match t {
        CommitType::Release => v.major < u64::MAX,
        CommitType::Update => v.minor < u64::MAX,
        CommitType::Patch => v.patch < u64::MAX,
    };
    if ok {
        v.bump(t).to_string()
    } else {
        current.to_string()
    }
}

/// Whether `tags[i]` is a version that no other tag in `tags` exceeds.
pub open spec fn is_latest(tags: Seq<Seq<char>>, i: int) -> bool {
    &&& 0 <= i < tags.len()
    &&& spec_parse_version(tags[i]) is Some
    &&& forall|j: int|
        0 <= j < tags.len() && #[trigger] spec_parse_version(tags[j]) is Some ==> !version_lt(
            spec_parse_version(tags[i])->0,
            spec_parse_version(tags[j])->0,
        )
}

/// Strict semantic-version order on two versions.
pub fn version_less(a: &Version, b: &Version) -> (r: bool)
    ensures
        r == version_lt(*a, *b),
{
    a.major < b.major || (a.major == b.major && a.minor < b.minor) || (a.major == b.major
        && a.minor == b.minor && a.patch < b.patch)
}

/// The greatest version among the tags, with the index of the tag that
/// writes it (the first such tag: every tag before it that is a version is a
/// smaller one); `None` when no tag is a version.
pub fn latest_version(tags: &Vec<String>) -> (r: Option<(usize, Version)>)
    ensures
        match r {
            Some((i, v)) => {
                &&& is_latest(string_views(tags@), i as int)
                &&& spec_parse_version(tags@[i as int]@) == Some(v)
                &&& forall|j: int|
                    0 <= j < i && #[trigger] spec_parse_version(tags@[j]@) is Some ==> version_lt(
                        spec_parse_version(tags@[j]@)->0,
                        v,
                    )
            },
            None => forall|j: int| 0 <= j < tags@.len() ==> spec_parse_version(#[trigger] tags@[j]@) is None,
        },
{
    let ghost ts = string_views(tags@);
    let mut best: Option<(usize, Version)> = None;
    let mut k: usize = 0;
    while k < tags.len()
        invariant
            k <= tags@.len(),
            ts == string_views(tags@),
            match best {
                Some((i, v)) => {
                    &&& i < k
                    &&& spec_parse_version(ts[i as int]) == Some(v)
                    &&& forall|j: int|
                        0 <= j < i && #[trigger] spec_parse_version(ts[j]) is Some ==> version_lt(
                            spec_parse_version(ts[j])->0,
                            v,
                        )
                    &&& forall|j: int|
                        0 <= j < k && #[trigger] spec_parse_version(ts[j]) is Some ==> !version_lt(
                            v,
                            spec_parse_version(ts[j])->0,
                        )
                },
                None => forall|j: int| 0 <= j < k ==> spec_parse_version(#[trigger] ts[j]) is None,
            },
        decreases tags@.len() - k,
    {
        assert(ts[k as int] == tags@[k as int]@);
        match parse_version(tags[k].as_str()) {
            Some(v) => {
                let replace = match &best {
                    Some((_, b)) => version_less(b, &v),
                    None => true,
                };
                if replace {
                    best = Some((k, v));
                }
            },
            None => {},
        }
        k = k + 1;
    }
    proof {
        match best {
            Some((i, v)) => {
                assert(ts[i as int] == tags@[i as int]@);
                assert forall|j: int|
                    0 <= j < i && #[trigger] spec_parse_version(tags@[j]@) is Some implies version_lt(
                        spec_parse_version(tags@[j]@)->0,
                        v,
                    ) by {
                    assert(ts[j] == tags@[j]@);
                }
            },
            None => {
                assert forall|j: int| 0 <= j < tags@.len() implies spec_parse_version(
                    #[trigger] tags@[j]@,
                ) is None by {
                    assert(ts[j] == tags@[j]@);
                }
            },
        }
    }
    best
}

} // verus!

//! Character-level text operations shared by the convention code: the
//! `White_Space` class, line splitting as `str::lines` does it, trimming,
//! prefix/suffix/substring tests, UTF-8 length and decimal rendering.
//! Text is handled as `Vec<char>`, whose view is the string's `Seq<char>`.

use vstd::prelude::*;

verus! {

/// The Unicode `White_Space` property: the characters that `char::is_whitespace`,
/// `str::trim` and the `\s` class of a regular expression treat as blank.
pub open spec fn is_white_space(c: char) -> bool {
    ||| ('\t' <= c && c <= '\r')
    ||| c == ' '
    ||| c == '\u{85}'
    ||| c == '\u{a0}'
    ||| c == '\u{1680}'
    ||| ('\u{2000}' <= c && c <= '\u{200a}')
    ||| c == '\u{2028}'
    ||| c == '\u{2029}'
    ||| c == '\u{202f}'
    ||| c == '\u{205f}'
    ||| c == '\u{3000}'
}

/// Executable test for the `White_Space` property.
pub fn is_whitespace(c: char) -> (r: bool)
    ensures
        r == is_white_space(c),
{
    ('\t' <= c && c <= '\r') || c == ' ' || c == '\u{85}' || c == '\u{a0}' || c == '\u{1680}'
        || ('\u{2000}' <= c && c <= '\u{200a}') || c == '\u{2028}' || c == '\u{2029}'
        || c == '\u{202f}' || c == '\u{205f}' || c == '\u{3000}'
}

/// Turns a string slice into the sequence of its characters.
pub fn chars_of(s: &str) -> (v: Vec<char>)
    ensures
        v@ == s@,
{
    let mut v: Vec<char> = Vec::new();
    for c in it: s.chars()
        invariant
            v@ == it.seq().take(it.index()),
            it.seq() == s@,
    {
        v.push(c);
    }
    v
}

/// Builds a `String` from `chars` (std's `FromIterator<&char>` for `String`):
/// the string holds exactly those characters, in that order.
#[verifier::external_body]
pub(crate) fn string_of(chars: &[char]) -> (s: String)
    ensures
        s@ == chars@,
{
    chars.iter().collect()
}

/// Appends all of `src` to `dst`.
pub fn push_all(dst: &mut Vec<char>, src: &[char])
    ensures
        final(dst)@ == old(dst)@ + src@,
{
    let n = src.len();
    for i in 0..n
        invariant
            n == src@.len(),
            dst@ == old(dst)@ + src@.take(i as int),
    {
        dst.push(src[i]);
        assert(src@.take(i + 1) == src@.take(i as int).push(src@[i as int]));
    }
    assert(src@.take(n as int) == src@);
}

/// Appends the characters of a string slice to `dst`.
pub fn push_str(dst: &mut Vec<char>, s: &str)
    ensures
        final(dst)@ == old(dst)@ + s@,
{
    let cs = chars_of(s);
    push_all(dst, &cs);
}

/// Index of the first `c` in `s`, or `s.len()` when there is none.
pub open spec fn index_of(s: Seq<char>, c: char) -> nat
    decreases s.len(),
{
    if s.len() == 0 {
        0
    } else if s[0] == c {
        0
    } else {
        1 + index_of(s.drop_first(), c)
    }
}

/// Index of the first `'\n'` in `s`, or `s.len()` when there is none.
pub open spec fn first_newline(s: Seq<char>) -> nat {
    index_of(s, '\n')
}

/// `s` without one trailing `'\r'`.
pub open spec fn strip_cr(s: Seq<char>) -> Seq<char> {
    if s.len() > 0 && s.last() == '\r' {
        s.drop_last()
    } else {
        s
    }
}

/// The lines of `s` as `str::lines` yields them: split at each `'\n'`, a line
/// ended by `"\r\n"` loses the `'\r'` too, and a final line ending adds no
/// empty line.
pub open spec fn lines(s: Seq<char>) -> Seq<Seq<char>>
    decreases s.len(),
{
    if s.len() == 0 {
        Seq::empty()
    } else {
        let n = first_newline(s) as int;
        if n >= s.len() {
            seq![s]
        } else {
            seq![strip_cr(s.take(n))] + lines(s.skip(n + 1))
        }
    }
}

/// The first line of `s`, if `s` has one (it has one unless it is empty).
pub open spec fn first_line(s: Seq<char>) -> Option<Seq<char>> {
    if lines(s).len() > 0 {
        Some(lines(s)[0])
    } else {
        None
    }
}

/// Facts about `index_of`: it is at most the length, `c` stands there when
/// it is smaller, and `c` stands nowhere before it.
pub proof fn lemma_index_of(s: Seq<char>, c: char)
    ensures
        index_of(s, c) <= s.len(),
        index_of(s, c) < s.len() ==> s[index_of(s, c) as int] == c,
        forall|j: int| 0 <= j < index_of(s, c) ==> s[j] != c,
    decreases s.len(),
{
    if s.len() > 0 && s[0] != c {
        lemma_index_of(s.drop_first(), c);
        assert forall|j: int| 0 <= j < index_of(s, c) implies s[j] != c by {
            if j > 0 {
                assert(s[j] == s.drop_first()[j - 1]);
            }
        }
    }
}

/// Facts about `first_newline`.
pub proof fn lemma_first_newline(s: Seq<char>)
    ensures
        first_newline(s) <= s.len(),
        first_newline(s) < s.len() ==> s[first_newline(s) as int] == '\n',
        forall|j: int| 0 <= j < first_newline(s) ==> s[j] != '\n',
{
    lemma_index_of(s, '\n');
}

/// A newline-free text is its own single line, unless it is empty.
pub proof fn lemma_lines_single(s: Seq<char>)
    requires
        forall|j: int| 0 <= j < s.len() ==> s[j] != '\n',
    ensures
        s.len() > 0 ==> lines(s) == seq![s],
        s.len() == 0 ==> lines(s) == Seq::<Seq<char>>::empty(),
{
    lemma_first_newline(s);
    if s.len() > 0 && first_newline(s) < s.len() {
        assert(s[first_newline(s) as int] == '\n');
    }
}

/// The first line of `a + "\n" + b` is `a` with one trailing `'\r'` removed, and
/// the other lines are those of `b`, when `a` holds no newline.
pub proof fn lemma_lines_split(a: Seq<char>, b: Seq<char>)
    requires
        forall|j: int| 0 <= j < a.len() ==> a[j] != '\n',
    ensures
        lines(a + seq!['\n'] + b) == seq![strip_cr(a)] + lines(b),
{
    let s = a + seq!['\n'] + b;
    lemma_first_newline(s);
    let n = first_newline(s) as int;
    assert(s[a.len() as int] == '\n');
    assert(n == a.len()) by {
        if n < a.len() {
            assert(s[n] == a[n]);
        }
    }
    assert(s.take(n) == a);
    assert(s.skip(n + 1) == b);
}

/// Position of the first `c` at or after `start`, or `s.len()`.
pub fn find_char(s: &Vec<char>, start: usize, c: char) -> (r: usize)
    requires
        start <= s@.len(),
    ensures
        r == start + index_of(s@.skip(start as int), c),
        start <= r <= s@.len(),
        r < s@.len() ==> s@[r as int] == c,
        forall|j: int| start <= j < r ==> s@[j] != c,
{
    let ghost t = s@.skip(start as int);
    proof {
        lemma_index_of(t, c);
    }
    let mut i = start;
    while i < s.len() && s[i] != c
        invariant
            start <= i <= s@.len(),
            t == s@.skip(start as int),
            forall|j: int| start <= j < i ==> s@[j] != c,
            index_of(t, c) <= t.len(),
            index_of(t, c) < t.len() ==> t[index_of(t, c) as int] == c,
            forall|j: int| 0 <= j < index_of(t, c) ==> t[j] != c,
        decreases s@.len() - i,
    {
        i = i + 1;
    }
    proof {
        let n = index_of(t, c) as int;
        if n < i - start {
            assert(t[n] == s@[start + n]);
        }
        if n > i - start {
            assert(t[i - start] == s@[i as int]);
        }
    }
    i
}

/// Position of the first `'\n'` at or after `start`, or `s.len()`.
pub fn find_newline(s: &Vec<char>, start: usize) -> (r: usize)
    requires
        start <= s@.len(),
    ensures
        r == start + first_newline(s@.skip(start as int)),
        start <= r <= s@.len(),
{
    find_char(s, start, '\n')
}

/// A copy of `s[from..to]`.
pub fn slice_chars(s: &Vec<char>, from: usize, to: usize) -> (r: Vec<char>)
    requires
        from <= to <= s@.len(),
    ensures
        r@ == s@.subrange(from as int, to as int),
{
    let mut r: Vec<char> = Vec::new();
    let mut i = from;
    while i < to
        invariant
            from <= i <= to <= s@.len(),
            r@ == s@.subrange(from as int, i as int),
        decreases to - i,
    {
        r.push(s[i]);
        i = i + 1;
        assert(r@ == s@.subrange(from as int, i as int));
    }
    r
}

/// `s` without one trailing `'\r'`.
pub fn strip_cr_exec(s: Vec<char>) -> (r: Vec<char>)
    ensures
        r@ == strip_cr(s@),
{
    let mut s = s;
    if s.len() > 0 && s[s.len() - 1] == '\r' {
        s.pop();
    }
    s
}

/// The texts held by a sequence of character vectors.
pub open spec fn views(v: Seq<Vec<char>>) -> Seq<Seq<char>> {
    Seq::new(v.len(), |i: int| v[i]@)
}

/// Splits `s` into its lines, as `str::lines` does.
pub fn split_lines(s: &Vec<char>) -> (r: Vec<Vec<char>>)
    ensures
        views(r@) == lines(s@),
{
    let mut r: Vec<Vec<char>> = Vec::new();
    let mut start: usize = 0;
    assert(s@.skip(0) == s@);
    assert(views(r@) == Seq::<Seq<char>>::empty());
    while start < s.len()
        invariant
            start <= s@.len(),
            views(r@) + lines(s@.skip(start as int)) == lines(s@),
        decreases s@.len() - start,
    {
        let ghost t = s@.skip(start as int);
        let end = find_newline(s, start);
        let piece = slice_chars(s, start, end);
        let ghost old_r = views(r@);
        if end >= s.len() {
            assert(piece@ == t);
            r.push(piece);
            assert(views(r@) == old_r.push(piece@));
            assert(s@.skip(s@.len() as int) == Seq::<char>::empty());
            start = s.len();
        } else {
            assert(piece@ == t.take(end - start));
            assert(t.skip(end - start + 1) == s@.skip(end + 1));
            let line = strip_cr_exec(piece);
            r.push(line);
            assert(views(r@) == old_r.push(line@));
            start = end + 1;
        }
    }
    assert(s@.skip(start as int) == Seq::<char>::empty());
    r
}


/// Number of `White_Space` characters at the start of `s`.
pub open spec fn leading_ws(s: Seq<char>) -> nat
    decreases s.len(),
{
    if s.len() > 0 && is_white_space(s[0]) {
        1 + leading_ws(s.drop_first())
    } else {
        0
    }
}

/// Number of `White_Space` characters at the end of `s`.
pub open spec fn trailing_ws(s: Seq<char>) -> nat
    decreases s.len(),
{
    if s.len() > 0 && is_white_space(s.last()) {
        1 + trailing_ws(s.drop_last())
    } else {
        0
    }
}

/// `s` without its leading `White_Space`, as `str::trim_start` gives it.
pub open spec fn trim_start(s: Seq<char>) -> Seq<char> {
    s.skip(leading_ws(s) as int)
}

/// `s` without its trailing `White_Space`, as `str::trim_end` gives it.
pub open spec fn trim_end(s: Seq<char>) -> Seq<char> {
    s.take(s.len() - trailing_ws(s))
}

/// `s` without leading and trailing `White_Space`, as `str::trim` gives it.
pub open spec fn trim(s: Seq<char>) -> Seq<char> {
    trim_end(trim_start(s))
}

/// `leading_ws` is the length of the longest blank prefix.
pub proof fn lemma_leading_ws(s: Seq<char>, i: int)
    requires
        0 <= i <= s.len(),
        forall|j: int| 0 <= j < i ==> is_white_space(#[trigger] s[j]),
        i == s.len() || !is_white_space(s[i]),
    ensures
        leading_ws(s) == i,
    decreases i,
{
    if i > 0 {
        let t = s.drop_first();
        assert forall|j: int| 0 <= j < i - 1 implies is_white_space(#[trigger] t[j]) by {
            assert(t[j] == s[j + 1]);
        }
        if i - 1 < t.len() {
            assert(t[i - 1] == s[i]);
        }
        lemma_leading_ws(t, i - 1);
    }
}

/// `trailing_ws` is the length of the longest blank suffix.
pub proof fn lemma_trailing_ws(s: Seq<char>, i: int)
    requires
        0 <= i <= s.len(),
        forall|j: int| s.len() - i <= j < s.len() ==> is_white_space(#[trigger] s[j]),
        i == s.len() || !is_white_space(s[s.len() - i - 1]),
    ensures
        trailing_ws(s) == i,
    decreases i,
{
    if i > 0 {
        let t = s.drop_last();
        assert forall|j: int| t.len() - (i - 1) <= j < t.len() implies is_white_space(
            #[trigger] t[j],
        ) by {
            assert(t[j] == s[j]);
        }
        if i - 1 < t.len() {
            assert(t[t.len() - (i - 1) - 1] == s[s.len() - i - 1]);
        }
        lemma_trailing_ws(t, i - 1);
    }
}

/// `s` without leading and trailing `White_Space`.
pub fn trim_chars(s: &Vec<char>) -> (r: Vec<char>)
    ensures
        r@ == trim(s@),
{
    let n = s.len();
    let mut a: usize = 0;
    while a < n && is_whitespace(s[a])
        invariant
            a <= n == s@.len(),
            forall|j: int| 0 <= j < a ==> is_white_space(#[trigger] s@[j]),
        decreases n - a,
    {
        a = a + 1;
    }
    proof {
        lemma_leading_ws(s@, a as int);
    }
    let ghost t = s@.skip(a as int);
    let mut b: usize = n;
    while b > a && is_whitespace(s[b - 1])
        invariant
            a <= b <= n == s@.len(),
            t == s@.skip(a as int),
            forall|j: int| b <= j < n ==> is_white_space(#[trigger] s@[j]),
        decreases b - a,
    {
        b = b - 1;
    }
    proof {
        assert forall|j: int| t.len() - (n - b) <= j < t.len() implies is_white_space(
            #[trigger] t[j],
        ) by {
            assert(t[j] == s@[j + a]);
        }
        if n - b < t.len() {
            assert(t[t.len() - (n - b) - 1] == s@[b - 1]);
        }
        lemma_trailing_ws(t, n - b);
    }
    slice_chars(s, a, b)
}

/// Whether `p` occurs in `s` as a contiguous piece.
pub open spec fn has_infix(s: Seq<char>, p: Seq<char>) -> bool {
    exists|i: int| 0 <= i && i + p.len() <= s.len() && #[trigger] s.subrange(i, i + p.len()) == p
}

/// Whether `p` occurs in `s` starting at position `i`.
pub fn occurs_at(s: &Vec<char>, p: &Vec<char>, i: usize) -> (r: bool)
    requires
        i <= s@.len(),
    ensures
        r == (i + p@.len() <= s@.len() && s@.subrange(i as int, i + p@.len()) == p@),
{
    let sl = s.len();
    if p.len() > sl - i {
        return false;
    }
    let mut k: usize = 0;
    while k < p.len()
        invariant
            sl == s@.len(),
            i + p@.len() <= s@.len(),
            k <= p@.len(),
            forall|j: int| 0 <= j < k ==> s@[i + j] == p@[j],
        decreases p@.len() - k,
    {
        if s[i + k] != p[k] {
            assert(s@.subrange(i as int, i + p@.len())[k as int] != p@[k as int]);
            return false;
        }
        k = k + 1;
    }
    assert(s@.subrange(i as int, i + p@.len()) =~= p@);
    true
}

/// Whether `s` starts with `p`.
pub fn starts_with(s: &Vec<char>, p: &Vec<char>) -> (r: bool)
    ensures
        r == p@.is_prefix_of(s@),
{
    occurs_at(s, p, 0)
}

/// Whether `s` ends with `p`.
pub fn ends_with(s: &Vec<char>, p: &Vec<char>) -> (r: bool)
    ensures
        r == p@.is_suffix_of(s@),
{
    if p.len() > s.len() {
        return false;
    }
    occurs_at(s, p, s.len() - p.len())
}

/// Whether `p` occurs anywhere in `s`.
pub fn contains_chars(s: &Vec<char>, p: &Vec<char>) -> (r: bool)
    ensures
        r == has_infix(s@, p@),
{
    if p.len() > s.len() {
        return false;
    }
    let last = s.len() - p.len();
    let mut i: usize = 0;
    loop
        invariant_except_break
            i <= last,
            last + p@.len() == s@.len(),
            forall|j: int| 0 <= j < i ==> #[trigger] s@.subrange(j, j + p@.len()) != p@,
        ensures
            forall|j: int| 0 <= j <= last ==> #[trigger] s@.subrange(j, j + p@.len()) != p@,
        decreases last - i,
    {
        if occurs_at(s, p, i) {
            return true;
        }
        if i == last {
            break;
        }
        i = i + 1;
    }
    false
}

/// Whether the character `c` occurs in `s`.
pub fn contains_char(s: &Vec<char>, c: char) -> (r: bool)
    ensures
        r == s@.contains(c),
{
    let mut i: usize = 0;
    while i < s.len()
        invariant
            i <= s@.len(),
            forall|j: int| 0 <= j < i ==> s@[j] != c,
        decreases s@.len() - i,
    {
        if s[i] == c {
            return true;
        }
        i = i + 1;
    }
    false
}

/// The lines joined with a `'\n'` between each two, as `[&str]::join("\n")` does.
pub open spec fn join_lines(ls: Seq<Seq<char>>) -> Seq<char>
    decreases ls.len(),
{
    if ls.len() == 0 {
        Seq::empty()
    } else if ls.len() == 1 {
        ls[0]
    } else {
        join_lines(ls.drop_last()) + seq!['\n'] + ls.last()
    }
}

/// The ASCII digit for `d < 10`.
pub open spec fn digit_char(d: nat) -> char {
    if d == 0 { '0' } else if d == 1 { '1' } else if d == 2 { '2' } else if d == 3 { '3' }
    else if d == 4 { '4' } else if d == 5 { '5' } else if d == 6 { '6' } else if d == 7 { '7' }
    else if d == 8 { '8' } else { '9' }
}

/// The decimal rendering of `n`, without leading zeros, as `Display` writes it.
pub open spec fn decimal(n: nat) -> Seq<char>
    decreases n,
{
    if n < 10 {
        seq![digit_char(n)]
    } else {
        decimal(n / 10) + seq![digit_char(n % 10)]
    }
}

/// The ASCII digit for `d < 10`.
pub fn digit_char_exec(d: u128) -> (c: char)
    requires
        d < 10,
    ensures
        c == digit_char(d as nat),
{
    if d == 0 { '0' } else if d == 1 { '1' } else if d == 2 { '2' } else if d == 3 { '3' }
    else if d == 4 { '4' } else if d == 5 { '5' } else if d == 6 { '6' } else if d == 7 { '7' }
    else if d == 8 { '8' } else { '9' }
}

/// Appends the decimal rendering of `n` to `out`.
pub fn push_decimal(out: &mut Vec<char>, n: u128)
    ensures
        final(out)@ == old(out)@ + decimal(n as nat),
    decreases n,
{
    if n < 10 {
        out.push(digit_char_exec(n));
    } else {
        push_decimal(out, n / 10);
        out.push(digit_char_exec(n % 10));
    }
}

/// Number of empty lines at the start of `ls`.
pub open spec fn leading_empty(ls: Seq<Seq<char>>) -> nat
    decreases ls.len(),
{
    if ls.len() > 0 && ls[0].len() == 0 {
        1 + leading_empty(ls.drop_first())
    } else {
        0
    }
}

/// `ls` without its leading empty lines.
pub open spec fn skip_empty(ls: Seq<Seq<char>>) -> Seq<Seq<char>> {
    ls.skip(leading_empty(ls) as int)
}

/// `leading_empty` counts at most all the lines.
pub proof fn lemma_leading_empty_bound(ls: Seq<Seq<char>>)
    ensures
        leading_empty(ls) <= ls.len(),
    decreases ls.len(),
{
    if ls.len() > 0 && ls[0].len() == 0 {
        lemma_leading_empty_bound(ls.drop_first());
    }
}

/// `leading_empty` is the length of the longest run of empty lines at the start.
pub proof fn lemma_leading_empty(ls: Seq<Seq<char>>, i: int)
    requires
        0 <= i <= ls.len(),
        forall|j: int| 0 <= j < i ==> (#[trigger] ls[j]).len() == 0,
        i == ls.len() || ls[i].len() > 0,
    ensures
        leading_empty(ls) == i,
    decreases i,
{
    if i > 0 {
        let t = ls.drop_first();
        assert forall|j: int| 0 <= j < i - 1 implies (#[trigger] t[j]).len() == 0 by {
            assert(t[j] == ls[j + 1]);
        }
        if i - 1 < t.len() {
            assert(t[i - 1] == ls[i]);
        }
        lemma_leading_empty(t, i - 1);
    }
}

/// Index of the first non-empty line of `ls` at or after `from`, or `ls.len()`.
pub fn skip_empty_lines(ls: &Vec<Vec<char>>, from: usize) -> (r: usize)
    requires
        from <= ls@.len(),
    ensures
        from <= r <= ls@.len(),
        views(ls@).skip(r as int) == skip_empty(views(ls@).skip(from as int)),
{
    let ghost v = views(ls@).skip(from as int);
    let mut i = from;
    while i < ls.len() && ls[i].len() == 0
        invariant
            from <= i <= ls@.len(),
            v == views(ls@).skip(from as int),
            forall|j: int| from <= j < i ==> (#[trigger] ls@[j])@.len() == 0,
        decreases ls@.len() - i,
    {
        i = i + 1;
    }
    proof {
        assert forall|j: int| 0 <= j < i - from implies (#[trigger] v[j]).len() == 0 by {
            assert(v[j] == ls@[j + from]@);
        }
        if i < ls@.len() {
            assert(v[i - from] == ls@[i as int]@);
        }
        lemma_leading_empty(v, i - from);
        assert(views(ls@).skip(i as int) == v.skip(i - from));
    }
    i
}

/// The lines `ls[from..]` joined with `'\n'`.
pub fn join_lines_from(ls: &Vec<Vec<char>>, from: usize) -> (r: Vec<char>)
    requires
        from <= ls@.len(),
    ensures
        r@ == join_lines(views(ls@).skip(from as int)),
{
    let n = ls.len();
    if from == n {
        return Vec::new();
    }
    let mut r: Vec<char> = Vec::new();
    push_all(&mut r, &ls[from]);
    let mut i = from + 1;
    assert(views(ls@).subrange(from as int, i as int) =~= seq![ls@[from as int]@]);
    while i < n
        invariant
            n == ls@.len(),
            from < i <= n,
            r@ == join_lines(views(ls@).subrange(from as int, i as int)),
        decreases n - i,
    {
        let ghost before = views(ls@).subrange(from as int, i as int);
        r.push('\n');
        push_all(&mut r, &ls[i]);
        let ghost after = views(ls@).subrange(from as int, i + 1);
        assert(after.drop_last() == before);
        assert(after.last() == ls@[i as int]@);
        i = i + 1;
    }
    assert(views(ls@).subrange(from as int, n as int) == views(ls@).skip(from as int));
    r
}

/// Number of bytes in the UTF-8 encoding of `c`.
pub fn utf8_width(c: char) -> (r: u128)
    ensures
        r == vstd::utf8::encode_scalar(c as u32).len(),
        1 <= r <= 4,
{
    proof {
        vstd::utf8::char_is_scalar(c);
    }
    let u = c as u32;
    if u <= 0x7f {
        1
    } else if u <= 0x7ff {
        2
    } else if u <= 0xffff {
        3
    } else {
        4
    }
}

/// Number of bytes in the UTF-8 encoding of `s` (what `str::len` reports).
pub fn utf8_len(s: &Vec<char>) -> (r: u128)
    ensures
        r == vstd::utf8::encode_utf8(s@).len(),
{
    let n = s.len();
    let mut i = n;
    let mut acc: u128 = 0;
    assert(s@.skip(i as int) =~= Seq::<char>::empty());
    while i > 0
        invariant
            n == s@.len(),
            n <= usize::MAX,
            i <= s@.len(),
            acc == vstd::utf8::encode_utf8(s@.skip(i as int)).len(),
            acc <= 4 * (s@.len() - i),
        decreases i,
    {
        let ghost t = s@.skip(i - 1);
        assert(t.drop_first() =~= s@.skip(i as int));
        assert(t[0] == s@[i - 1]);
        let w = utf8_width(s[i - 1]);
        acc = acc + w;
        i = i - 1;
    }
    assert(s@.skip(0) =~= s@);
    acc
}

/// Facts about `leading_ws`: it is at most the length, the characters it
/// counts are blank, and the one after them is not.
pub proof fn lemma_leading_ws_props(s: Seq<char>)
    ensures
        leading_ws(s) <= s.len(),
        forall|j: int| 0 <= j < leading_ws(s) ==> is_white_space(#[trigger] s[j]),
        leading_ws(s) < s.len() ==> !is_white_space(s[leading_ws(s) as int]),
    decreases s.len(),
{
    if s.len() > 0 && is_white_space(s[0]) {
        let t = s.drop_first();
        lemma_leading_ws_props(t);
        assert forall|j: int| 0 <= j < leading_ws(s) implies is_white_space(#[trigger] s[j]) by {
            if j > 0 {
                assert(s[j] == t[j - 1]);
            }
        }
        if leading_ws(s) < s.len() {
            assert(s[leading_ws(s) as int] == t[leading_ws(t) as int]);
        }
    }
}

/// Facts about `trailing_ws`: it is at most the length, the characters it
/// counts are blank, and the one before them is not.
pub proof fn lemma_trailing_ws_props(s: Seq<char>)
    ensures
        trailing_ws(s) <= s.len(),
        forall|j: int| s.len() - trailing_ws(s) <= j < s.len() ==> is_white_space(#[trigger] s[j]),
        trailing_ws(s) < s.len() ==> !is_white_space(s[s.len() - trailing_ws(s) - 1]),
    decreases s.len(),
{
    if s.len() > 0 && is_white_space(s.last()) {
        let t = s.drop_last();
        lemma_trailing_ws_props(t);
        assert forall|j: int| s.len() - trailing_ws(s) <= j < s.len() implies is_white_space(
            #[trigger] s[j],
        ) by {
            if j < s.len() - 1 {
                assert(s[j] == t[j]);
            }
        }
        if trailing_ws(s) < s.len() {
            assert(s[s.len() - trailing_ws(s) - 1] == t[t.len() - trailing_ws(t) - 1]);
        }
    }
}

/// A blank on each side changes nothing that `trim` gives.
pub proof fn lemma_trim_padded(p: Seq<char>)
    ensures
        trim(seq![' '] + p + seq![' ']) == trim(p),
{
    let q = seq![' '] + p + seq![' '];
    lemma_leading_ws_props(p);
    let a = leading_ws(p);
    if a == p.len() {
        assert forall|j: int| 0 <= j < q.len() implies is_white_space(#[trigger] q[j]) by {
            if 0 < j < q.len() - 1 {
                assert(q[j] == p[j - 1]);
            }
        }
        lemma_leading_ws(q, q.len() as int);
        assert(trim_start(q) =~= Seq::<char>::empty());
        assert(trim_start(p) =~= Seq::<char>::empty());
        lemma_trailing_ws_props(Seq::<char>::empty());
    } else {
        assert forall|j: int| 0 <= j < a + 1 implies is_white_space(#[trigger] q[j]) by {
            if j > 0 {
                assert(q[j] == p[j - 1]);
            }
        }
        assert(q[(a + 1) as int] == p[a as int]);
        lemma_leading_ws(q, (a + 1) as int);
        let u = p.skip(a as int);
        assert(trim_start(p) == u);
        assert(trim_start(q) =~= u + seq![' ']);
        assert(u[0] == p[a as int]);
        lemma_trailing_ws_props(u);
        let b = trailing_ws(u);
        assert(b < u.len()) by {
            if b == u.len() {
                assert(is_white_space(u[0]));
            }
        }
        let w = u + seq![' '];
        assert forall|j: int| w.len() - (b + 1) <= j < w.len() implies is_white_space(
            #[trigger] w[j],
        ) by {
            if j < w.len() - 1 {
                assert(w[j] == u[j]);
            }
        }
        assert(w[w.len() - (b + 1) - 1] == u[u.len() - b - 1]);
        lemma_trailing_ws(w, (b + 1) as int);
        assert(trim_end(w) =~= trim_end(u));
    }
}

/// Joining lines after a first one puts a `'\n'` between it and the rest.
pub proof fn lemma_join_prepend(x: Seq<char>, ls: Seq<Seq<char>>)
    requires
        ls.len() > 0,
    ensures
        join_lines(seq![x] + ls) == x + seq!['\n'] + join_lines(ls),
    decreases ls.len(),
{
    let s = seq![x] + ls;
    assert(s.last() == ls.last());
    if ls.len() == 1 {
        assert(s.drop_last() =~= seq![x]);
        assert(join_lines(seq![x]) == x);
        assert(join_lines(ls) == ls[0]);
        assert(join_lines(s) == join_lines(s.drop_last()) + seq!['\n'] + s.last());
    } else {
        assert(s.drop_last() =~= seq![x] + ls.drop_last());
        lemma_join_prepend(x, ls.drop_last());
        assert(join_lines(s) == join_lines(s.drop_last()) + seq!['\n'] + s.last());
        assert(join_lines(ls) == join_lines(ls.drop_last()) + seq!['\n'] + ls.last());
        assert(join_lines(s) =~= x + seq!['\n'] + join_lines(ls));
    }
}

/// A text without `'\r'` that does not end with `'\n'` is its lines joined
/// with `'\n'`.
pub proof fn lemma_join_lines_of(b: Seq<char>)
    requires
        b.len() > 0,
        !b.contains('\r'),
        b.last() != '\n',
    ensures
        join_lines(lines(b)) == b,
    decreases b.len(),
{
    lemma_first_newline(b);
    let n = first_newline(b) as int;
    if n < b.len() {
        let x = b.take(n);
        let rest = b.skip(n + 1);
        assert(rest.len() > 0) by {
            if rest.len() == 0 {
                assert(b.last() == b[n]);
            }
        }
        assert(rest.last() == b.last());
        assert(!rest.contains('\r')) by {
            if rest.contains('\r') {
                let j = choose|j: int| 0 <= j < rest.len() && rest[j] == '\r';
                assert(b[n + 1 + j] == '\r');
            }
        }
        assert(strip_cr(x) == x) by {
            if x.len() > 0 {
                assert(x.last() == b[n - 1]);
            }
        }
        lemma_join_lines_of(rest);
        lemma_lines_nonempty_text(rest);
        lemma_join_prepend(x, lines(rest));
        assert(x + seq!['\n'] + rest =~= b);
    }
}

/// A text that is not empty has at least one line.
pub proof fn lemma_lines_nonempty_text(s: Seq<char>)
    requires
        s.len() > 0,
    ensures
        lines(s).len() > 0,
{
}

/// No line holds a `'\n'`.
pub proof fn lemma_lines_have_no_newline(s: Seq<char>)
    ensures
        forall|i: int| 0 <= i < lines(s).len() ==> !(#[trigger] lines(s)[i]).contains('\n'),
    decreases s.len(),
{
    if s.len() > 0 {
        lemma_first_newline(s);
        let n = first_newline(s) as int;
        if n < s.len() {
            lemma_lines_have_no_newline(s.skip(n + 1));
            let x = strip_cr(s.take(n));
            assert(!x.contains('\n')) by {
                if x.contains('\n') {
                    let j = choose|j: int| 0 <= j < x.len() && x[j] == '\n';
                    assert(x[j] == s[j]);
                }
            }
            assert forall|i: int| 0 <= i < lines(s).len() implies !(
            #[trigger] lines(s)[i]).contains('\n') by {
                if i > 0 {
                    assert(lines(s)[i] == lines(s.skip(n + 1))[i - 1]);
                }
            }
        } else {
            assert(!s.contains('\n')) by {
                if s.contains('\n') {
                    let j = choose|j: int| 0 <= j < s.len() && s[j] == '\n';
                }
            }
        }
    }
}

/// Trimming twice is trimming once.
pub proof fn lemma_trim_idempotent(s: Seq<char>)
    ensures
        trim(trim(s)) == trim(s),
{
    let u = trim_start(s);
    lemma_leading_ws_props(s);
    lemma_trailing_ws_props(u);
    let t = trim(s);
    if t.len() > 0 {
        assert(u.len() > 0);
        assert(u[0] == s[leading_ws(s) as int]);
        assert(trailing_ws(u) < u.len()) by {
            if trailing_ws(u) == u.len() {
                assert(is_white_space(u[0]));
            }
        }
        assert(t[0] == u[0]);
        lemma_leading_ws(t, 0);
        assert(t[t.len() - 1] == u[u.len() - trailing_ws(u) - 1]);
        lemma_trailing_ws(t, 0);
        assert(trim_start(t) =~= t);
        assert(trim_end(t) =~= t);
    } else {
        lemma_leading_ws(t, 0);
        lemma_trailing_ws(t, 0);
        assert(trim(t) =~= t);
    }
}

/// `trim` keeps a contiguous piece of its argument.
pub proof fn lemma_trim_piece(s: Seq<char>)
    ensures
        forall|j: int| 0 <= j < trim(s).len() ==> #[trigger] trim(s)[j] == s[j + leading_ws(s)],
        trim(s).len() + leading_ws(s) <= s.len(),
{
    lemma_leading_ws_props(s);
    lemma_trailing_ws_props(trim_start(s));
}

} // verus!

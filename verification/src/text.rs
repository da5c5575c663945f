//! Character-level text operations the library's parsers and formatters are
//! built from, each stated over the character sequence of the string.

use vstd::prelude::*;

verus! {

// ---------------------------------------------------------------------------
// Conversions between strings and character vectors
// ---------------------------------------------------------------------------

/// The characters of `s`, in order.
pub fn chars_of(s: &str) -> (v: Vec<char>)
    ensures
        v@ == s@,
{
    let n = s.unicode_len();
    let mut v: Vec<char> = Vec::with_capacity(n);
    let mut i: usize = 0;
    while i < n
        invariant
            n == s@.len(),
            i <= n,
            v@ == s@.take(i as int),
        decreases n - i,
    {
        v.push(s.get_char(i));
        i = i + 1;
        assert(s@.take(i as int) == s@.take(i - 1) + seq![s@[i - 1]]);
    }
    assert(s@.take(n as int) == s@);
    v
}

/// `<String as FromIterator<&char>>::from_iter`: the string made of the given
/// characters, in order.
#[verifier::external_body]
pub(crate) fn string_from_chars(v: &[char]) -> (s: String)
    ensures
        s@ == v@,
{
    v.iter().collect()
}

/// Appends the characters of `s` to `v`.
pub fn push_str(v: &mut Vec<char>, s: &str)
    ensures
        final(v)@ == old(v)@ + s@,
{
    let n = s.unicode_len();
    let mut i: usize = 0;
    while i < n
        invariant
            n == s@.len(),
            i <= n,
            v@ == old(v)@ + s@.take(i as int),
        decreases n - i,
    {
        v.push(s.get_char(i));
        i = i + 1;
        assert(s@.take(i as int) == s@.take(i - 1) + seq![s@[i - 1]]);
    }
    assert(s@.take(n as int) == s@);
}

/// Appends the characters of `w` to `v`.
pub fn push_chars(v: &mut Vec<char>, w: &[char])
    ensures
        final(v)@ == old(v)@ + w@,
{
    let mut i: usize = 0;
    while i < w.len()
        invariant
            i <= w@.len(),
            v@ == old(v)@ + w@.take(i as int),
        decreases w@.len() - i,
    {
        v.push(w[i]);
        i = i + 1;
        assert(w@.take(i as int) == w@.take(i - 1) + seq![w@[i - 1]]);
    }
    assert(w@.take(w@.len() as int) == w@);
}

/// A copy of `w[from..to]`.
pub fn sub_chars(w: &[char], from: usize, to: usize) -> (r: Vec<char>)
    requires
        from <= to <= w@.len(),
    ensures
        r@ == w@.subrange(from as int, to as int),
{
    let mut r: Vec<char> = Vec::with_capacity(to - from);
    let mut i = from;
    while i < to
        invariant
            from <= i <= to,
            to <= w@.len(),
            r@ == w@.subrange(from as int, i as int),
        decreases to - i,
    {
        r.push(w[i]);
        i = i + 1;
        assert(w@.subrange(from as int, i as int) == w@.subrange(from as int, i - 1) + seq![w@[i - 1]]);
    }
    r
}

/// Whether two character slices are equal.
pub fn chars_eq(a: &[char], b: &[char]) -> (r: bool)
    ensures
        r == (a@ == b@),
{
    if a.len() != b.len() {
        return false;
    }
    let mut i: usize = 0;
    while i < a.len()
        invariant
            a@.len() == b@.len(),
            i <= a@.len(),
            forall|j: int| 0 <= j < i ==> a@[j] == b@[j],
        decreases a@.len() - i,
    {
        if a[i] != b[i] {
            return false;
        }
        i = i + 1;
    }
    assert(a@ =~= b@);
    true
}

/// Whether a character slice spells the string `s`.
pub fn chars_eq_str(a: &[char], s: &str) -> (r: bool)
    ensures
        r == (a@ == s@),
{
    let b = chars_of(s);
    chars_eq(a, b.as_slice())
}

// ---------------------------------------------------------------------------
// Prefixes, suffixes and infixes
// ---------------------------------------------------------------------------

/// `p` is a prefix of `s`.
pub open spec fn starts_with(s: Seq<char>, p: Seq<char>) -> bool {
    p.len() <= s.len() && s.take(p.len() as int) == p
}

/// `p` is a suffix of `s`.
pub open spec fn ends_with(s: Seq<char>, p: Seq<char>) -> bool {
    p.len() <= s.len() && s.skip(s.len() - p.len()) == p
}

/// `p` occurs in `s` at position `i`.
pub open spec fn occurs_at(s: Seq<char>, p: Seq<char>, i: int) -> bool {
    0 <= i && i + p.len() <= s.len() && s.subrange(i, i + p.len()) == p
}

/// `p` occurs somewhere in `s` (the empty sequence occurs in every sequence).
pub open spec fn contains(s: Seq<char>, p: Seq<char>) -> bool {
    exists|i: int| occurs_at(s, p, i)
}

/// Whether `p` occurs in `s` at position `i`.
pub fn occurs_at_exec(s: &[char], p: &[char], i: usize) -> (r: bool)
    ensures
        r == occurs_at(s@, p@, i as int),
{
    let n = s.len();
    if i > n || p.len() > n - i {
        return false;
    }
    let mut k: usize = 0;
    while k < p.len()
        invariant
            n == s@.len(),
            i + p@.len() <= n,
            k <= p@.len(),
            forall|j: int| 0 <= j < k ==> s@[i + j] == p@[j],
        decreases p@.len() - k,
    {
        if s[i + k] != p[k] {
            return false;
        }
        k = k + 1;
    }
    assert(s@.subrange(i as int, i + p@.len()) =~= p@);
    true
}

/// Whether `s` starts with `p`.
pub fn starts_with_exec(s: &[char], p: &[char]) -> (r: bool)
    ensures
        r == starts_with(s@, p@),
{
    let r = occurs_at_exec(s, p, 0);
    assert(s@.subrange(0, p@.len() as int) == s@.take(p@.len() as int));
    r
}

/// Whether `s` ends with `p`.
pub fn ends_with_exec(s: &[char], p: &[char]) -> (r: bool)
    ensures
        r == ends_with(s@, p@),
{
    if p.len() > s.len() {
        return false;
    }
    let r = occurs_at_exec(s, p, s.len() - p.len());
    assert(s@.subrange(s@.len() - p@.len(), s@.len() as int) == s@.skip(s@.len() - p@.len()));
    r
}

/// Whether `p` occurs in `s`.
pub fn contains_exec(s: &[char], p: &[char]) -> (r: bool)
    ensures
        r == contains(s@, p@),
{
    if p.len() > s.len() {
        assert forall|i: int| !occurs_at(s@, p@, i) by {}
        return false;
    }
    let n = s.len();
    let mut i: usize = 0;
    while i <= n - p.len()
        invariant
            n == s@.len(),
            p@.len() <= n,
            i <= n - p@.len() + 1,
            forall|j: int| 0 <= j < i ==> !occurs_at(s@, p@, j),
        decreases n - p@.len() + 1 - i,
    {
        if occurs_at_exec(s, p, i) {
            return true;
        }
        assert(p@.len() > 0) by {
            if p@.len() == 0 {
                assert(s@.subrange(i as int, i as int) =~= p@);
            }
        }
        i = i + 1;
    }
    assert forall|j: int| !occurs_at(s@, p@, j) by {
        if 0 <= j < i {
        }
    }
    false
}

/// Whether the string `s` occurs in `hay`.
pub fn contains_str(hay: &[char], s: &str) -> (r: bool)
    ensures
        r == contains(hay@, s@),
{
    let p = chars_of(s);
    contains_exec(hay, p.as_slice())
}

/// Position of the first occurrence of character `c` in `s` at or after `from`.
pub open spec fn find_char_from(s: Seq<char>, c: char, from: int) -> Option<int>
    decreases s.len() - from,
{
    if from >= s.len() || from < 0 {
        None
    } else if s[from] == c {
        Some(from)
    } else {
        find_char_from(s, c, from + 1)
    }
}

/// Position of the first occurrence of `c` in `s`.
pub open spec fn find_char(s: Seq<char>, c: char) -> Option<int> {
    find_char_from(s, c, 0)
}

pub proof fn lemma_find_char_from_bounds(s: Seq<char>, c: char, from: int)
    ensures
        match find_char_from(s, c, from) {
            Some(k) => from <= k < s.len() && s[k] == c && 0 <= from
                && forall|j: int| from <= j < k ==> s[j] != c,
            None => forall|j: int| from <= j < s.len() && 0 <= from ==> s[j] != c,
        },
    decreases s.len() - from,
{
    if from >= s.len() || from < 0 {
    } else if s[from] == c {
    } else {
        lemma_find_char_from_bounds(s, c, from + 1);
    }
}

/// First position of `c` in `s` at or after `from`.
pub fn find_char_from_exec(s: &[char], c: char, from: usize) -> (r: Option<usize>)
    ensures
        match r {
            Some(k) => find_char_from(s@, c, from as int) == Some(k as int),
            None => find_char_from(s@, c, from as int) is None,
        },
{
    proof {
        lemma_find_char_from_bounds(s@, c, from as int);
    }
    let mut i = from;
    while i < s.len()
        invariant
            from <= i,
            find_char_from(s@, c, from as int) == find_char_from(s@, c, i as int),
        decreases s@.len() - i,
    {
        if s[i] == c {
            return Some(i);
        }
        i = i + 1;
    }
    None
}

/// Whether `c` occurs in `s`.
pub fn has_char(s: &[char], c: char) -> (r: bool)
    ensures
        r == s@.contains(c),
{
    let mut i: usize = 0;
    while i < s.len()
        invariant
            i <= s@.len(),
            forall|j: int| 0 <= j < i ==> s@[j] != c,
        decreases s@.len() - i,
    {
        if s[i] == c {
            assert(s@[i as int] == c);
            return true;
        }
        i = i + 1;
    }
    false
}

// ---------------------------------------------------------------------------
// Character classes
// ---------------------------------------------------------------------------

/// `char::is_whitespace`: the Unicode White_Space property, which holds of
/// U+0009..U+000D, U+0020, U+0085, U+00A0, U+1680, U+2000..U+200A, U+2028,
/// U+2029, U+202F, U+205F and U+3000.
pub open spec fn is_whitespace(c: char) -> bool {
    let u = c as u32;
    (9 <= u <= 13) || u == 32 || u == 0x85 || u == 0xA0 || u == 0x1680 || (0x2000 <= u <= 0x200A)
        || u == 0x2028 || u == 0x2029 || u == 0x202F || u == 0x205F || u == 0x3000
}

/// Whether `c` is Unicode white space.
pub fn is_whitespace_exec(c: char) -> (r: bool)
    ensures
        r == is_whitespace(c),
{
    let u = c as u32;
    (9 <= u && u <= 13) || u == 32 || u == 0x85 || u == 0xA0 || u == 0x1680 || (0x2000 <= u && u
        <= 0x200A) || u == 0x2028 || u == 0x2029 || u == 0x202F || u == 0x205F || u == 0x3000
}

/// `char::is_ascii_alphanumeric`: 0-9, A-Z or a-z.
pub open spec fn is_ascii_alphanumeric(c: char) -> bool {
    let u = c as u32;
    (48 <= u <= 57) || (65 <= u <= 90) || (97 <= u <= 122)
}

/// Whether `c` is an ASCII letter or digit.
pub fn is_ascii_alphanumeric_exec(c: char) -> (r: bool)
    ensures
        r == is_ascii_alphanumeric(c),
{
    let u = c as u32;
    (48 <= u && u <= 57) || (65 <= u && u <= 90) || (97 <= u && u <= 122)
}

/// What `char::is_alphanumeric` says of a character (Unicode Alphabetic or
/// Numeric).
pub uninterp spec fn unicode_alphanumeric(c: char) -> bool;

/// `char::is_alphanumeric`: whether `c` is Unicode alphabetic or numeric; its
/// result is named, not spelled out.
#[verifier::external_body]
pub(crate) fn is_alphanumeric_exec(c: char) -> (r: bool)
    ensures
        r == unicode_alphanumeric(c),
{
    c.is_alphanumeric()
}

/// What `str::to_lowercase` gives for a string (full Unicode lower-case
/// mapping, which may change the length).
pub uninterp spec fn lowercase(s: Seq<char>) -> Seq<char>;

/// `str::to_lowercase`; its result is named, not spelled out.
#[verifier::external_body]
pub(crate) fn to_lowercase_exec(s: &str) -> (r: Vec<char>)
    ensures
        r@ == lowercase(s@),
{
    s.to_lowercase().chars().collect()
}

// ---------------------------------------------------------------------------
// Trimming
// ---------------------------------------------------------------------------

/// `s` without its leading characters that satisfy `p`.
pub open spec fn drop_leading(s: Seq<char>, p: spec_fn(char) -> bool) -> Seq<char>
    decreases s.len(),
{
    if s.len() > 0 && p(s[0]) {
        drop_leading(s.drop_first(), p)
    } else {
        s
    }
}

/// `s` without its trailing characters that satisfy `p`.
pub open spec fn drop_trailing(s: Seq<char>, p: spec_fn(char) -> bool) -> Seq<char>
    decreases s.len(),
{
    if s.len() > 0 && p(s.last()) {
        drop_trailing(s.drop_last(), p)
    } else {
        s
    }
}

/// `s` without its leading and trailing characters that satisfy `p`.
pub open spec fn trim_by(s: Seq<char>, p: spec_fn(char) -> bool) -> Seq<char> {
    drop_trailing(drop_leading(s, p), p)
}

/// `str::trim`: without leading and trailing white space.
pub open spec fn trim(s: Seq<char>) -> Seq<char> {
    trim_by(s, |c: char| is_whitespace(c))
}

/// Membership in a set of characters given as a sequence.
pub open spec fn in_set(set: Seq<char>) -> spec_fn(char) -> bool {
    |c: char| set.contains(c)
}

/// The character equal to `c`.
pub open spec fn is_char(c: char) -> spec_fn(char) -> bool {
    |d: char| d == c
}

proof fn lemma_drop_leading_skip(s: Seq<char>, p: spec_fn(char) -> bool, i: int)
    requires
        0 <= i <= s.len(),
        forall|j: int| 0 <= j < i ==> p(s[j]),
    ensures
        drop_leading(s, p) == drop_leading(s.skip(i), p),
    decreases i,
{
    if i > 0 {
        assert(s.skip(1) == s.drop_first());
        lemma_drop_leading_skip(s.drop_first(), p, i - 1);
        assert(s.drop_first().skip(i - 1) == s.skip(i));
    } else {
        assert(s.skip(0) == s);
    }
}

proof fn lemma_drop_trailing_take(s: Seq<char>, p: spec_fn(char) -> bool, k: int)
    requires
        0 <= k <= s.len(),
        forall|j: int| k <= j < s.len() ==> p(s[j]),
    ensures
        drop_trailing(s, p) == drop_trailing(s.take(k), p),
    decreases s.len() - k,
{
    if k < s.len() {
        assert(s.drop_last() == s.take(s.len() - 1));
        lemma_drop_trailing_take(s.drop_last(), p, k);
        assert(s.drop_last().take(k) == s.take(k));
    } else {
        assert(s.take(k) == s);
    }
}

/// Index range `[start, end)` of `s` that remains after trimming with `is_ws`
/// when `ws` says whether characters are white space (`true`) or members of
/// `set` (`false`).
fn trim_bounds(s: &[char], ws: bool, set: &[char]) -> (r: (usize, usize))
    ensures
        r.0 <= r.1 <= s@.len(),
        ws ==> s@.subrange(r.0 as int, r.1 as int) == trim(s@),
        !ws ==> s@.subrange(r.0 as int, r.1 as int) == trim_by(s@, in_set(set@)),
{
    let ghost p: spec_fn(char) -> bool = if ws { |c: char| is_whitespace(c) } else { in_set(set@) };
    let mut i: usize = 0;
    while i < s.len()
        invariant
            i <= s@.len(),
            p == (if ws { |c: char| is_whitespace(c) } else { in_set(set@) }),
            forall|j: int| 0 <= j < i ==> p(s@[j]),
        ensures
            i <= s@.len(),
            forall|j: int| 0 <= j < i ==> p(s@[j]),
            i < s@.len() ==> !p(s@[i as int]),
        decreases s@.len() - i,
    {
        let hit = if ws { is_whitespace_exec(s[i]) } else { has_char(set, s[i]) };
        if !hit {
            break;
        }
        i = i + 1;
    }
    proof {
        lemma_drop_leading_skip(s@, p, i as int);
        assert(i < s@.len() ==> !p(s@[i as int]));
        assert(drop_leading(s@.skip(i as int), p) == s@.skip(i as int));
    }
    let ghost rest = s@.skip(i as int);
    let mut j: usize = s.len();
    while j > i
        invariant
            i <= j <= s@.len(),
            rest == s@.skip(i as int),
            p == (if ws { |c: char| is_whitespace(c) } else { in_set(set@) }),
            forall|k: int| j <= k < s@.len() ==> p(s@[k]),
        ensures
            i <= j <= s@.len(),
            forall|k: int| j <= k < s@.len() ==> p(s@[k]),
            j > i ==> !p(s@[j - 1]),
        decreases j - i,
    {
        let hit = if ws { is_whitespace_exec(s[j - 1]) } else { has_char(set, s[j - 1]) };
        if !hit {
            break;
        }
        j = j - 1;
    }
    proof {
        lemma_drop_trailing_take(rest, p, j - i);
        let t = rest.take(j - i);
        assert(t == s@.subrange(i as int, j as int));
        if t.len() > 0 {
            assert(t.last() == s@[j - 1]);
        }
        assert(drop_trailing(t, p) == t);
        if ws {
            assert(trim(s@) == trim_by(s@, p));
        }
    }
    (i, j)
}

/// `s` without its leading characters that are in `set`
/// (`str::trim_start_matches` with a character).
pub fn drop_leading_set_exec(s: &[char], set: &[char]) -> (r: Vec<char>)
    ensures
        r@ == drop_leading(s@, in_set(set@)),
{
    let ghost p = in_set(set@);
    let mut i: usize = 0;
    while i < s.len()
        invariant
            i <= s@.len(),
            p == in_set(set@),
            forall|j: int| 0 <= j < i ==> p(s@[j]),
        ensures
            i <= s@.len(),
            forall|j: int| 0 <= j < i ==> p(s@[j]),
            i < s@.len() ==> !p(s@[i as int]),
        decreases s@.len() - i,
    {
        if !has_char(set, s[i]) {
            break;
        }
        i = i + 1;
    }
    proof {
        lemma_drop_leading_skip(s@, p, i as int);
        assert(drop_leading(s@.skip(i as int), p) == s@.skip(i as int));
        assert(s@.subrange(i as int, s@.len() as int) == s@.skip(i as int));
    }
    sub_chars(s, i, s.len())
}

/// `str::trim_end`: without trailing white space.
pub open spec fn trim_end(s: Seq<char>) -> Seq<char> {
    drop_trailing(s, |c: char| is_whitespace(c))
}

/// `str::trim_end` on characters.
pub fn trim_end_exec(s: &[char]) -> (r: Vec<char>)
    ensures
        r@ == trim_end(s@),
{
    let ghost p: spec_fn(char) -> bool = |c: char| is_whitespace(c);
    let mut j: usize = s.len();
    while j > 0
        invariant
            j <= s@.len(),
            p == (|c: char| is_whitespace(c)),
            forall|k: int| j <= k < s@.len() ==> p(s@[k]),
        ensures
            j <= s@.len(),
            forall|k: int| j <= k < s@.len() ==> p(s@[k]),
            j > 0 ==> !p(s@[j - 1]),
        decreases j,
    {
        if !is_whitespace_exec(s[j - 1]) {
            break;
        }
        j = j - 1;
    }
    proof {
        lemma_drop_trailing_take(s@, p, j as int);
        let t = s@.take(j as int);
        if t.len() > 0 {
            assert(t.last() == s@[j - 1]);
        }
        assert(drop_trailing(t, p) == t);
        assert(s@.subrange(0, j as int) == t);
    }
    sub_chars(s, 0, j)
}

/// `str::trim` on characters.
pub fn trim_exec(s: &[char]) -> (r: Vec<char>)
    ensures
        r@ == trim(s@),
{
    let empty: Vec<char> = Vec::new();
    let (a, b) = trim_bounds(s, true, empty.as_slice());
    sub_chars(s, a, b)
}

/// Trimming every character of `set` from both ends (`str::trim_matches` with a
/// character or a set of characters).
pub fn trim_set_exec(s: &[char], set: &[char]) -> (r: Vec<char>)
    ensures
        r@ == trim_by(s@, in_set(set@)),
{
    let (a, b) = trim_bounds(s, false, set);
    sub_chars(s, a, b)
}


// ---------------------------------------------------------------------------
// Lines, words and joining
// ---------------------------------------------------------------------------

/// A line without its line ending: a trailing carriage return is dropped only
/// when a line feed followed it.
pub open spec fn strip_cr(line: Seq<char>) -> Seq<char> {
    if line.len() > 0 && line.last() == '\r' {
        line.drop_last()
    } else {
        line
    }
}

/// `str::lines`: the lines of `s`, split at `\n` (a `\r` before the `\n` is
/// dropped too); a final line ending is optional and the empty string has no
/// lines.
pub open spec fn lines(s: Seq<char>) -> Seq<Seq<char>>
    decreases s.len(),
{
    if s.len() == 0 {
        Seq::empty()
    } else {
        proof {
            lemma_find_char_from_bounds(s, '\n', 0);
        }
        match find_char(s, '\n') {
            None => seq![s],
            Some(k) => seq![strip_cr(s.take(k))] + lines(s.skip(k + 1)),
        }
    }
}

/// `str::split_whitespace`: the maximal runs of non-white-space characters.
pub open spec fn words(s: Seq<char>) -> Seq<Seq<char>>
    decreases s.len(),
{
    if s.len() == 0 {
        Seq::empty()
    } else if is_whitespace(s[0]) {
        words(s.drop_first())
    } else {
        proof {
            lemma_word_end_bounds(s, 0);
            if word_end(s, 0) == 0 {
                assert(is_whitespace(s[0]));
            }
        }
        let k = word_end(s, 0);
        seq![s.take(k)] + words(s.skip(k))
    }
}

/// Position of the first white-space character at or after `i` (or the length).
pub open spec fn word_end(s: Seq<char>, i: int) -> int
    decreases s.len() - i,
{
    if i >= s.len() || i < 0 {
        s.len() as int
    } else if is_whitespace(s[i]) {
        i
    } else {
        word_end(s, i + 1)
    }
}

/// The character sequences of a sequence of character vectors.
pub open spec fn seqs_of(v: Seq<Vec<char>>) -> Seq<Seq<char>> {
    v.map_values(|x: Vec<char>| x@)
}

/// The pieces joined with `sep` between consecutive pieces.
pub open spec fn join(pieces: Seq<Seq<char>>, sep: Seq<char>) -> Seq<char>
    decreases pieces.len(),
{
    if pieces.len() == 0 {
        Seq::empty()
    } else if pieces.len() == 1 {
        pieces[0]
    } else {
        join(pieces.drop_last(), sep) + sep + pieces.last()
    }
}

pub proof fn lemma_word_end_bounds(s: Seq<char>, i: int)
    requires
        0 <= i <= s.len(),
    ensures
        i <= word_end(s, i) <= s.len(),
        forall|j: int| i <= j < word_end(s, i) ==> !is_whitespace(s[j]),
        word_end(s, i) < s.len() ==> is_whitespace(s[word_end(s, i)]),
    decreases s.len() - i,
{
    if i < s.len() && !is_whitespace(s[i]) {
        lemma_word_end_bounds(s, i + 1);
    }
}

/// The lines of `s` (see `lines`).
pub fn lines_exec(s: &[char]) -> (r: Vec<Vec<char>>)
    ensures
        seqs_of(r@) == lines(s@),
{
    let mut r: Vec<Vec<char>> = Vec::new();
    assert(seqs_of(r@) =~= Seq::<Seq<char>>::empty());
    assert(Seq::<Seq<char>>::empty() + lines(s@.skip(0)) == lines(s@)) by {
        assert(s@.skip(0) == s@);
    }
    let mut start: usize = 0;
    let n = s.len();
    while start < n
        invariant
            n == s@.len(),
            start <= n,
            seqs_of(r@) + lines(s@.skip(start as int)) == lines(s@),
        decreases n - start,
    {
        let ghost rest = s@.skip(start as int);
        proof {
            lemma_find_char_from_bounds(s@, '\n', start as int);
            lemma_find_char_from_bounds(rest, '\n', 0);
            lemma_find_char_shift(s@, '\n', start as int);
        }
        match find_char_from_exec(s, '\n', start) {
            None => {
                let line = sub_chars(s, start, n);
                assert(line@ == rest);
                let ghost old_r = seqs_of(r@);
                r.push(line);
                assert(seqs_of(r@) =~= old_r.push(rest));
                assert(s@.skip(n as int) == Seq::<char>::empty());
                assert(lines(rest) == seq![rest]);
                start = n;
            },
            Some(k) => {
                let end = if k > start && s[k - 1] == '\r' { k - 1 } else { k };
                let line = sub_chars(s, start, end);
                assert(rest.take(k - start) == s@.subrange(start as int, k as int));
                assert(line@ == strip_cr(rest.take(k - start)));
                let ghost old_r = seqs_of(r@);
                r.push(line);
                assert(seqs_of(r@) =~= old_r.push(line@));
                assert(rest.skip(k - start + 1) == s@.skip(k + 1));
                start = k + 1;
            },
        }
    }
    assert(s@.skip(n as int) == Seq::<char>::empty());
    assert(seqs_of(r@) + Seq::<Seq<char>>::empty() == seqs_of(r@));
    r
}

proof fn lemma_find_char_shift(s: Seq<char>, c: char, from: int)
    requires
        0 <= from <= s.len(),
    ensures
        match find_char_from(s, c, from) {
            Some(k) => find_char(s.skip(from), c) == Some(k - from),
            None => find_char(s.skip(from), c) is None,
        },
    decreases s.len() - from,
{
    lemma_find_char_from_skip(s, c, from, 0);
}

proof fn lemma_find_char_from_skip(s: Seq<char>, c: char, from: int, j: int)
    requires
        0 <= from <= s.len(),
        0 <= j <= s.len() - from,
    ensures
        match find_char_from(s, c, from + j) {
            Some(k) => find_char_from(s.skip(from), c, j) == Some(k - from),
            None => find_char_from(s.skip(from), c, j) is None,
        },
    decreases s.len() - from - j,
{
    if from + j < s.len() {
        assert(s.skip(from)[j] == s[from + j]);
        lemma_find_char_from_skip(s, c, from, j + 1);
    }
}

/// The white-space separated words of `s` (see `words`).
pub fn words_exec(s: &[char]) -> (r: Vec<Vec<char>>)
    ensures
        seqs_of(r@) == words(s@),
{
    let mut r: Vec<Vec<char>> = Vec::new();
    assert(seqs_of(r@) =~= Seq::<Seq<char>>::empty());
    assert(Seq::<Seq<char>>::empty() + words(s@.skip(0)) == words(s@)) by {
        assert(s@.skip(0) == s@);
    }
    let n = s.len();
    let mut i: usize = 0;
    while i < n
        invariant
            n == s@.len(),
            i <= n,
            seqs_of(r@) + words(s@.skip(i as int)) == words(s@),
        decreases n - i,
    {
        let ghost rest = s@.skip(i as int);
        if is_whitespace_exec(s[i]) {
            assert(rest[0] == s@[i as int]);
            assert(rest.drop_first() == s@.skip(i + 1));
            i = i + 1;
        } else {
            let mut j = i;
            while j < n && !is_whitespace_exec(s[j])
                invariant
                    n == s@.len(),
                    i <= j <= n,
                    forall|t: int| i <= t < j ==> !is_whitespace(s@[t]),
                decreases n - j,
            {
                j = j + 1;
            }
            proof {
                lemma_word_end_bounds(rest, 0);
                lemma_word_end_eq(rest, 0, (j - i) as int);
            }
            let w = sub_chars(s, i, j);
            assert(w@ == rest.take(j - i));
            let ghost old_r = seqs_of(r@);
            r.push(w);
            assert(seqs_of(r@) =~= old_r.push(w@));
            assert(rest.skip(j - i) == s@.skip(j as int));
            i = j;
        }
    }
    assert(s@.skip(n as int) == Seq::<char>::empty());
    assert(seqs_of(r@) + Seq::<Seq<char>>::empty() == seqs_of(r@));
    r
}

proof fn lemma_word_end_eq(s: Seq<char>, i: int, e: int)
    requires
        0 <= i <= e <= s.len(),
        forall|t: int| i <= t < e ==> !is_whitespace(s[t]),
        e < s.len() ==> is_whitespace(s[e]),
    ensures
        word_end(s, i) == e,
    decreases e - i,
{
    if i < e {
        lemma_word_end_eq(s, i + 1, e);
    }
}

/// The pieces joined with `sep` (see `join`).
pub fn join_exec(pieces: &Vec<Vec<char>>, sep: &[char]) -> (r: Vec<char>)
    ensures
        r@ == join(seqs_of(pieces@), sep@),
{
    let mut r: Vec<char> = Vec::new();
    let mut i: usize = 0;
    while i < pieces.len()
        invariant
            i <= pieces@.len(),
            r@ == join(seqs_of(pieces@).take(i as int), sep@),
        decreases pieces@.len() - i,
    {
        let ghost pv = seqs_of(pieces@);
        proof {
            assert(pv.take(i + 1).drop_last() == pv.take(i as int));
            assert(pv.take(i + 1).last() == pieces@[i as int]@);
        }
        if i > 0 {
            push_chars(&mut r, sep);
        }
        push_chars(&mut r, pieces[i].as_slice());
        proof {
            if i == 0 {
                assert(pv.take(1)[0] == pieces@[0]@);
            }
        }
        i = i + 1;
    }
    assert(seqs_of(pieces@).take(pieces@.len() as int) == seqs_of(pieces@));
    r
}

// ---------------------------------------------------------------------------
// Decimal numerals
// ---------------------------------------------------------------------------

/// The decimal digit character for `d` (0 to 9).
pub open spec fn digit_char(d: int) -> char {
    ((48 + d) as u8) as char
}

/// Decimal numeral of a natural number, without leading zeros.
pub open spec fn decimal_nat(n: nat) -> Seq<char>
    decreases n,
{
    if n < 10 {
        seq![digit_char(n as int)]
    } else {
        decimal_nat(n / 10) + seq![digit_char((n % 10) as int)]
    }
}

/// Decimal numeral of an integer, with a leading `-` when negative.
pub open spec fn decimal(n: int) -> Seq<char> {
    if n < 0 {
        seq!['-'] + decimal_nat((-n) as nat)
    } else {
        decimal_nat(n as nat)
    }
}

/// The decimal numeral of `n` (as `u64`'s `Display` writes it).
pub fn decimal_u64(n: u64) -> (r: Vec<char>)
    ensures
        r@ == decimal_nat(n as nat),
    decreases n,
{
    if n < 10 {
        let mut r: Vec<char> = Vec::new();
        r.push(((48 + n) as u8) as char);
        r
    } else {
        let mut r = decimal_u64(n / 10);
        r.push(((48 + n % 10) as u8) as char);
        r
    }
}

/// The decimal numeral of `n` (as `i64`'s `Display` writes it).
pub fn decimal_i64(n: i64) -> (r: Vec<char>)
    ensures
        r@ == decimal(n as int),
{
    if n < 0 {
        let m: u64 = if n == i64::MIN { 9223372036854775808u64 } else { (-n) as u64 };
        let mut r: Vec<char> = Vec::new();
        r.push('-');
        let d = decimal_u64(m);
        push_chars(&mut r, d.as_slice());
        r
    } else {
        decimal_u64(n as u64)
    }
}

/// Append the decimal numeral of `n`.
pub fn push_decimal(v: &mut Vec<char>, n: u64)
    ensures
        final(v)@ == old(v)@ + decimal_nat(n as nat),
{
    let d = decimal_u64(n);
    push_chars(v, d.as_slice());
}

/// The upper-case hexadecimal digit for `d` (0 to 15).
pub open spec fn hex_digit(d: int) -> char {
    if d < 10 {
        ((48 + d) as u8) as char
    } else {
        ((55 + d) as u8) as char
    }
}

/// The last `width` upper-case hexadecimal digits of `n`, zero-padded.
pub open spec fn hex_fixed(n: nat, width: nat) -> Seq<char>
    decreases width,
{
    if width == 0 {
        Seq::empty()
    } else {
        hex_fixed(n / 16, (width - 1) as nat) + seq![hex_digit((n % 16) as int)]
    }
}

/// The last `width` upper-case hexadecimal digits of `n` (see `hex_fixed`).
pub fn hex_fixed_exec(n: u64, width: u8) -> (r: Vec<char>)
    ensures
        r@ == hex_fixed(n as nat, width as nat),
    decreases width,
{
    if width == 0 {
        Vec::new()
    } else {
        let mut r = hex_fixed_exec(n / 16, width - 1);
        let d = n % 16;
        let c = if d < 10 {
            ((48 + d) as u8) as char
        } else {
            ((55 + d) as u8) as char
        };
        r.push(c);
        r
    }
}

} // verus!

//! Compression of logcat output for tool responses: dates, times and thread
//! numbers are stripped, runs of identical lines are counted, and the text is
//! cut from the front to a byte budget, keeping the most recent lines.

use vstd::prelude::*;
use vstd::utf8::{char_is_scalar, encode_scalar, encode_utf8};
use crate::text::{
    chars_eq, chars_of, decimal_nat, decimal_u64, find_char_from, find_char_from_exec, has_char,
    join, join_exec, lemma_find_char_from_bounds, lines, lines_exec, push_chars, push_str, seqs_of,
    string_from_chars, sub_chars,
};

verus! {

/// Bytes of compressed log the capture tool returns at most.
pub const LOGCAT_MAX_CHARS: usize = 8000;

/// Marker put before a log cut from the front.
pub const TRUNCATED_MARKER: &'static str = "... (truncated)\n";

// ---------------------------------------------------------------------------
// Byte lengths
// ---------------------------------------------------------------------------

/// Length of the UTF-8 encoding of a character.
pub open spec fn char_width(c: char) -> nat {
    encode_scalar(c as u32).len()
}

/// Length of the UTF-8 encoding of a text (what `str::len` counts).
pub open spec fn byte_len(s: Seq<char>) -> nat {
    encode_utf8(s).len()
}

proof fn lemma_encode_concat(a: Seq<char>, b: Seq<char>)
    ensures
        encode_utf8(a + b) == encode_utf8(a) + encode_utf8(b),
    decreases a.len(),
{
    if a.len() == 0 {
        assert(a + b =~= b);
        assert(encode_utf8(a) =~= Seq::<u8>::empty());
        assert(encode_utf8(a + b) =~= encode_utf8(a) + encode_utf8(b));
    } else {
        lemma_encode_concat(a.drop_first(), b);
        assert((a + b).drop_first() =~= a.drop_first() + b);
        assert((a + b)[0] == a[0]);
        assert(encode_utf8(a + b) =~= encode_utf8(a) + encode_utf8(b));
    }
}

proof fn lemma_width_bounds(c: char)
    ensures
        1 <= char_width(c) <= 4,
{
    char_is_scalar(c);
}

proof fn lemma_byte_len_push(s: Seq<char>, c: char)
    ensures
        byte_len(s.push(c)) == byte_len(s) + char_width(c),
{
    lemma_encode_concat(s, seq![c]);
    assert(s.push(c) =~= s + seq![c]);
    assert(seq![c].drop_first() =~= Seq::<char>::empty());
    assert(encode_utf8(seq![c]) =~= encode_scalar(c as u32) + encode_utf8(Seq::<char>::empty()));
}

proof fn lemma_byte_len_at_least_len(s: Seq<char>)
    ensures
        byte_len(s) >= s.len(),
    decreases s.len(),
{
    if s.len() > 0 {
        lemma_byte_len_at_least_len(s.drop_last());
        lemma_byte_len_push(s.drop_last(), s.last());
        lemma_width_bounds(s.last());
        assert(s.drop_last().push(s.last()) =~= s);
    }
}

/// Longer prefixes have strictly more bytes.
proof fn lemma_prefix_bytes_increase(s: Seq<char>, i: int, j: int)
    requires
        0 <= i <= j <= s.len(),
    ensures
        byte_len(s.take(i)) + (j - i) <= byte_len(s.take(j)),
        byte_len(s.take(j)) <= byte_len(s),
{
    lemma_encode_concat(s.take(i), s.subrange(i, j));
    assert(s.take(j) =~= s.take(i) + s.subrange(i, j));
    lemma_byte_len_at_least_len(s.subrange(i, j));
    lemma_encode_concat(s.take(j), s.skip(j));
    assert(s =~= s.take(j) + s.skip(j));
}

proof fn lemma_prefix_take_step(s: Seq<char>, i: int)
    requires
        0 <= i < s.len(),
    ensures
        byte_len(s.take(i + 1)) == byte_len(s.take(i)) + char_width(s[i]),
{
    assert(s.take(i + 1) =~= s.take(i).push(s[i]));
    lemma_byte_len_push(s.take(i), s[i]);
}

/// The UTF-8 length of a character.
fn utf8_width(c: char) -> (w: usize)
    ensures
        w == char_width(c),
        1 <= w <= 4,
{
    proof {
        char_is_scalar(c);
    }
    let u = c as u32;
    if u <= 0x7F {
        1
    } else if u <= 0x7FF {
        2
    } else if u <= 0xFFFF {
        3
    } else {
        4
    }
}

/// Whether the first `k` characters of `s` take exactly `target` bytes.
fn prefix_has_bytes(s: &[char], k: usize, target: usize) -> (r: bool)
    requires
        k <= s@.len(),
        target <= 64,
    ensures
        r == (byte_len(s@.take(k as int)) == target),
{
    let mut acc: usize = 0;
    let mut i: usize = 0;
    while i < k
        invariant
            i <= k <= s@.len(),
            target <= 64,
            acc <= target,
            acc == byte_len(s@.take(i as int)),
        decreases k - i,
    {
        proof {
            lemma_prefix_take_step(s@, i as int);
        }
        let w = utf8_width(s[i]);
        if acc + w > target {
            proof {
                lemma_prefix_bytes_increase(s@, i + 1, k as int);
            }
            return false;
        }
        acc = acc + w;
        i = i + 1;
    }
    acc == target
}

// ---------------------------------------------------------------------------
// Stripping the date, time and thread numbers
// ---------------------------------------------------------------------------

/// The first position at or after `i` that is not a space (the end of the
/// line when none is).
pub open spec fn skip_spaces(line: Seq<char>, i: int) -> int
    decreases line.len() - i,
{
    if i >= line.len() || line[i] != ' ' {
        i
    } else {
        skip_spaces(line, i + 1)
    }
}

/// The first position at or after `i` that is a space (the end of the line
/// when none is): where the field starting at `i` ends.
pub open spec fn field_end(line: Seq<char>, i: int) -> int
    decreases line.len() - i,
{
    if i >= line.len() || line[i] == ' ' {
        i
    } else {
        field_end(line, i + 1)
    }
}

/// Where each of the first five space-separated fields of a line starts and
/// ends, fields being separated by runs of spaces: `(starts, ends)`.
pub open spec fn field_bounds(line: Seq<char>) -> (Seq<int>, Seq<int>) {
    let e0 = field_end(line, 0);
    let s1 = skip_spaces(line, e0);
    let e1 = field_end(line, s1);
    let s2 = skip_spaces(line, e1);
    let e2 = field_end(line, s2);
    let s3 = skip_spaces(line, e2);
    let e3 = field_end(line, s3);
    let s4 = skip_spaces(line, e3);
    let e4 = field_end(line, s4);
    (seq![0, s1, s2, s3, s4], seq![e0, e1, e2, e3, e4])
}

/// A line without its `MM-DD HH:MM:SS.mmm  PID  TID ` prefix: when the line
/// has five fields (date, time, process, thread, level) separated by runs of
/// spaces and followed by a space, the first of five bytes and the second
/// holding a colon, the line from the level on; otherwise the line as it is.
pub open spec fn strip_timestamp(line: Seq<char>) -> Seq<char> {
    let (st, en) = field_bounds(line);
    if en[4] < line.len() && byte_len(line.take(en[0])) == 5 && line.subrange(st[1], en[1]).contains(':') {
        line.skip(st[4])
    } else {
        line
    }
}

fn skip_spaces_exec(line: &[char], i: usize) -> (r: usize)
    requires
        i <= line@.len(),
    ensures
        r == skip_spaces(line@, i as int),
        i <= r <= line@.len(),
{
    let mut j = i;
    while j < line.len() && line[j] == ' '
        invariant
            i <= j <= line@.len(),
            skip_spaces(line@, j as int) == skip_spaces(line@, i as int),
        decreases line@.len() - j,
    {
        j = j + 1;
    }
    j
}

fn field_end_exec(line: &[char], i: usize) -> (r: usize)
    requires
        i <= line@.len(),
    ensures
        r == field_end(line@, i as int),
        i <= r <= line@.len(),
{
    let mut j = i;
    while j < line.len() && line[j] != ' '
        invariant
            i <= j <= line@.len(),
            field_end(line@, j as int) == field_end(line@, i as int),
        decreases line@.len() - j,
    {
        j = j + 1;
    }
    j
}

/// A log line without its date, time and thread numbers (see
/// `strip_timestamp`).
pub fn strip_timestamp_exec(line: &[char]) -> (r: Vec<char>)
    ensures
        r@ == strip_timestamp(line@),
{
    let e0 = field_end_exec(line, 0);
    let s1 = skip_spaces_exec(line, e0);
    let e1 = field_end_exec(line, s1);
    let s2 = skip_spaces_exec(line, e1);
    let e2 = field_end_exec(line, s2);
    let s3 = skip_spaces_exec(line, e2);
    let e3 = field_end_exec(line, s3);
    let s4 = skip_spaces_exec(line, e3);
    let e4 = field_end_exec(line, s4);
    let n = line.len();
    if e4 < n && prefix_has_bytes(line, e0, 5) {
        let field = sub_chars(line, s1, e1);
        if has_char(field.as_slice(), ':') {
            return sub_chars(line, s4, n);
        }
    }
    sub_chars(line, 0, n)
}

// ---------------------------------------------------------------------------
// Counting runs of identical lines
// ---------------------------------------------------------------------------

/// Length of the run of lines equal to the first.
pub open spec fn run_len(ls: Seq<Seq<char>>) -> nat
    decreases ls.len(),
{
    if ls.len() <= 1 {
        ls.len()
    } else if ls[1] == ls[0] {
        1 + run_len(ls.drop_first())
    } else {
        1
    }
}

/// A run of a non-empty sequence has at least one line and at most all.
pub proof fn lemma_run_len_bounds(ls: Seq<Seq<char>>)
    ensures
        ls.len() > 0 ==> 1 <= run_len(ls) <= ls.len(),
    decreases ls.len(),
{
    if ls.len() > 1 && ls[1] == ls[0] {
        lemma_run_len_bounds(ls.drop_first());
    }
}

proof fn lemma_run_len_exact(s: Seq<Seq<char>>, m: int)
    requires
        1 <= m <= s.len(),
        forall|t: int| 0 <= t < m ==> #[trigger] s[t] == s[0],
        m == s.len() || s[m] != s[0],
    ensures
        run_len(s) == m,
    decreases m,
{
    if m > 1 {
        let d = s.drop_first();
        assert(d[0] == s[1]);
        assert forall|t: int| 0 <= t < m - 1 implies #[trigger] d[t] == d[0] by {
            assert(d[t] == s[t + 1]);
        }
        if m - 1 < d.len() {
            assert(d[m - 1] == s[m]);
        }
        lemma_run_len_exact(d, m - 1);
    }
}

/// A line with the number of times it was repeated, when more than once.
pub open spec fn with_count(line: Seq<char>, n: nat) -> Seq<char> {
    if n > 1 {
        line + " (x"@ + decimal_nat(n) + seq![')']
    } else {
        line
    }
}

/// Each run of identical lines as one line, with its count when above one.
pub open spec fn dedup_runs(ls: Seq<Seq<char>>) -> Seq<Seq<char>>
    decreases ls.len(),
{
    if ls.len() == 0 {
        Seq::empty()
    } else {
        proof {
            lemma_run_len_bounds(ls);
        }
        let n = run_len(ls);
        seq![with_count(ls[0], n)] + dedup_runs(ls.skip(n as int))
    }
}

/// Count the runs of identical lines (see `dedup_runs`).
pub fn dedup_runs_exec(ls: &Vec<Vec<char>>) -> (r: Vec<Vec<char>>)
    ensures
        seqs_of(r@) == dedup_runs(seqs_of(ls@)),
{
    let ghost lv = seqs_of(ls@);
    let n = ls.len();
    let mut out: Vec<Vec<char>> = Vec::new();
    let mut i: usize = 0;
    assert(lv.skip(0) == lv);
    assert(seqs_of(out@) =~= Seq::<Seq<char>>::empty());
    while i < n
        invariant
            n == ls@.len(),
            lv == seqs_of(ls@),
            i <= n,
            seqs_of(out@) + dedup_runs(lv.skip(i as int)) == dedup_runs(lv),
        decreases n - i,
    {
        let mut j: usize = i + 1;
        while j < n && chars_eq(ls[j].as_slice(), ls[i].as_slice())
            invariant
                n == ls@.len(),
                lv == seqs_of(ls@),
                i < j <= n,
                forall|t: int| i <= t < j ==> #[trigger] lv[t] == lv[i as int],
            decreases n - j,
        {
            j = j + 1;
        }
        let ghost rest = lv.skip(i as int);
        proof {
            assert forall|t: int| 0 <= t < j - i implies #[trigger] rest[t] == rest[0] by {
                assert(rest[t] == lv[i + t]);
            }
            if j < n {
                assert(rest[j - i] == lv[j as int]);
            }
            lemma_run_len_exact(rest, j - i);
            assert(rest.skip(j - i) == lv.skip(j as int));
        }
        let count = j - i;
        let mut line = sub_chars(ls[i].as_slice(), 0, ls[i].len());
        assert(line@ == lv[i as int]);
        if count > 1 {
            push_str(&mut line, " (x");
            let d = decimal_u64(count as u64);
            push_chars(&mut line, d.as_slice());
            line.push(')');
        }
        assert(line@ == with_count(rest[0], count as nat));
        let ghost before = seqs_of(out@);
        out.push(line);
        proof {
            assert(seqs_of(out@) =~= before.push(line@));
            assert(dedup_runs(rest) == seq![with_count(rest[0], count as nat)] + dedup_runs(
                lv.skip(j as int),
            ));
            assert(seqs_of(out@) + dedup_runs(lv.skip(j as int)) =~= before + dedup_runs(rest));
        }
        i = j;
    }
    proof {
        assert(lv.skip(n as int) =~= Seq::<Seq<char>>::empty());
        assert(seqs_of(out@) + Seq::<Seq<char>>::empty() =~= seqs_of(out@));
    }
    out
}

// ---------------------------------------------------------------------------
// Cutting to a byte budget
// ---------------------------------------------------------------------------

/// `k` is where a text is cut to keep its last bytes: the shortest prefix
/// holding at least `need` bytes ends there.
pub open spec fn is_cut_point(s: Seq<char>, need: int, k: int) -> bool {
    &&& 0 <= k <= s.len()
    &&& byte_len(s.take(k)) >= need
    &&& (k == 0 || byte_len(s.take(k - 1)) < need)
}

/// The text cut to `max` bytes from the front: unchanged when it fits;
/// otherwise the marker, then the text from the line after the cut point (or
/// from the cut point, when no line feed follows it). The cut point is the
/// first character boundary at or after the text's length less `max`.
pub open spec fn keep_tail_spec(s: Seq<char>, max: nat) -> Seq<char> {
    if byte_len(s) <= max {
        s
    } else {
        let k = choose|k: int| #[trigger] is_cut_point(s, byte_len(s) - max, k);
        TRUNCATED_MARKER@ + match find_char_from(s, '\n', k) {
            Some(j) => s.skip(j + 1),
            None => s.skip(k),
        }
    }
}

/// Every byte count up to a text's length has a cut point.
proof fn lemma_cut_point_exists(s: Seq<char>, need: int)
    requires
        0 <= need <= byte_len(s),
    ensures
        exists|k: int| #[trigger] is_cut_point(s, need, k),
    decreases s.len(),
{
    if s.len() == 0 {
        assert(s.take(0) =~= s);
        assert(is_cut_point(s, need, 0));
    } else {
        let t = s.drop_last();
        lemma_byte_len_push(t, s.last());
        assert(t.push(s.last()) =~= s);
        if need <= byte_len(t) {
            lemma_cut_point_exists(t, need);
            let k = choose|k: int| #[trigger] is_cut_point(t, need, k);
            assert(s.take(k) =~= t.take(k));
            if k > 0 {
                assert(s.take(k - 1) =~= t.take(k - 1));
            }
            assert(is_cut_point(s, need, k));
        } else {
            let k = s.len() as int;
            assert(s.take(k) =~= s);
            assert(s.take(k - 1) =~= t);
            assert(is_cut_point(s, need, k));
        }
    }
}

/// Only one point is a cut point.
proof fn lemma_cut_point_unique(s: Seq<char>, need: int, i: int, k: int)
    requires
        is_cut_point(s, need, i),
        is_cut_point(s, need, k),
    ensures
        i == k,
{
    if k < i {
        lemma_prefix_bytes_increase(s, k, i - 1);
    } else if k > i {
        lemma_prefix_bytes_increase(s, i, k - 1);
    }
}

/// Cut a text of `total_bytes` bytes to `max` bytes (see `keep_tail_spec`).
fn keep_tail(s: &[char], total_bytes: usize, max: usize) -> (r: Vec<char>)
    requires
        total_bytes == byte_len(s@),
    ensures
        r@ == keep_tail_spec(s@, max as nat),
{
    if total_bytes <= max {
        return sub_chars(s, 0, s.len());
    }
    let start = total_bytes - max;
    let mut acc: usize = 0;
    let mut i: usize = 0;
    while i < s.len() && acc < start
        invariant
            i <= s@.len(),
            total_bytes == byte_len(s@),
            start <= total_bytes,
            acc == byte_len(s@.take(i as int)),
            i > 0 ==> byte_len(s@.take(i - 1)) < start,
        decreases s@.len() - i,
    {
        proof {
            lemma_prefix_take_step(s@, i as int);
            lemma_prefix_bytes_increase(s@, i + 1, s@.len() as int);
        }
        let w = utf8_width(s[i]);
        acc = acc + w;
        i = i + 1;
    }
    proof {
        assert(s@.take(s@.len() as int) =~= s@);
        assert(is_cut_point(s@, start as int, i as int));
        assert forall|k: int| #[trigger] is_cut_point(s@, byte_len(s@) - max, k) implies k == i by {
            lemma_cut_point_unique(s@, start as int, i as int, k);
        }
        lemma_find_char_from_bounds(s@, '\n', i as int);
    }
    let mut out: Vec<char> = Vec::new();
    push_str(&mut out, TRUNCATED_MARKER);
    let from = match find_char_from_exec(s, '\n', i) {
        Some(j) => j + 1,
        None => i,
    };
    let tail = sub_chars(s, from, s.len());
    push_chars(&mut out, tail.as_slice());
    out
}

// ---------------------------------------------------------------------------
// The whole compression
// ---------------------------------------------------------------------------

/// The lines of a log without their date, time and thread numbers.
pub open spec fn stripped_lines(raw: Seq<char>) -> Seq<Seq<char>> {
    lines(raw).map_values(|l: Seq<char>| strip_timestamp(l))
}

/// The compressed log before cutting: stripped lines with their runs counted,
/// joined by line feeds.
pub open spec fn joined_spec(raw: Seq<char>) -> Seq<char> {
    join(dedup_runs(stripped_lines(raw)), "\n"@)
}

fn stripped_lines_exec(raw: &str) -> (r: Vec<Vec<char>>)
    ensures
        seqs_of(r@) == stripped_lines(raw@),
{
    let cs = chars_of(raw);
    let ls = lines_exec(cs.as_slice());
    let ghost lv = seqs_of(ls@);
    let mut r: Vec<Vec<char>> = Vec::new();
    let mut i: usize = 0;
    while i < ls.len()
        invariant
            i <= ls@.len(),
            lv == seqs_of(ls@),
            lv == lines(raw@),
            seqs_of(r@) == lv.take(i as int).map_values(|l: Seq<char>| strip_timestamp(l)),
        decreases ls@.len() - i,
    {
        let s = strip_timestamp_exec(ls[i].as_slice());
        let ghost before = seqs_of(r@);
        r.push(s);
        proof {
            assert(seqs_of(r@) =~= before.push(s@));
            assert(lv.take(i + 1).map_values(|l: Seq<char>| strip_timestamp(l)) =~= lv.take(
                i as int,
            ).map_values(|l: Seq<char>| strip_timestamp(l)).push(strip_timestamp(lv[i as int])));
        }
        i = i + 1;
    }
    assert(lv.take(ls@.len() as int) == lv);
    r
}

/// Compress a log for a tool response: strip the date, time and thread
/// numbers of each line, count runs of identical lines, join the lines, and
/// keep at most `max_chars` bytes from the end, marking a cut; also gives the
/// byte length of the raw log.
pub fn compress_logcat(raw: &str, max_chars: usize) -> (r: (String, usize))
    ensures
        r.0@ == keep_tail_spec(joined_spec(raw@), max_chars as nat),
        r.1 == byte_len(raw@),
{
    let original_len = raw.as_bytes().len();
    let stripped = stripped_lines_exec(raw);
    let deduped = dedup_runs_exec(&stripped);
    let sep = chars_of("\n");
    let joined = join_exec(&deduped, sep.as_slice());
    let joined_string = string_from_chars(joined.as_slice());
    let total = joined_string.as_str().as_bytes().len();
    let kept = keep_tail(joined.as_slice(), total, max_chars);
    (string_from_chars(kept.as_slice()), original_len)
}

/// A text cut to a budget keeps at most the budget's bytes of it, taken from
/// its end, behind the marker: the result is the marker followed by a suffix
/// of the text no longer than `max` bytes (or the text itself, when it fits).
pub proof fn lemma_keep_tail_budget(s: Seq<char>, max: nat)
    ensures
        byte_len(s) <= max ==> keep_tail_spec(s, max) == s,
        byte_len(s) > max ==> exists|from: int|
            0 <= from <= s.len() && keep_tail_spec(s, max) == TRUNCATED_MARKER@ + s.skip(from)
                && byte_len(s.skip(from)) <= max,
{
    if byte_len(s) > max {
        lemma_cut_point_exists(s, byte_len(s) - max);
        let k = choose|k: int| #[trigger] is_cut_point(s, byte_len(s) - max, k);
        lemma_find_char_from_bounds(s, '\n', k);
        let from = match find_char_from(s, '\n', k) {
            Some(j) => j + 1,
            None => k,
        };
        lemma_encode_concat(s.take(from), s.skip(from));
        assert(s =~= s.take(from) + s.skip(from));
        lemma_prefix_bytes_increase(s, k, from);
        assert(keep_tail_spec(s, max) == TRUNCATED_MARKER@ + s.skip(from));
    }
}

} // verus!

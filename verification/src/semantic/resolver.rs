//! Element resolver: resolves selectors to UI elements with scored matching.
//!
//! Matches are ranked in this order: element ID (100), resource ID suffix
//! (97), exact text (95, compared as written when `exact_match` is set, else
//! after lower-casing), partial text (85), content description (80), class
//! name (75), fuzzy text (70 or 65, edit distance 1 or 2 after lower-casing).
//! Matches are filtered by visibility and enabled state, ordered by score
//! (stable), and each element is kept once, at its best score.

use vstd::prelude::*;
use crate::protocol::pb::{Selector, UiElement};
use crate::text::{
    chars_eq, chars_of, contains, contains_exec, decimal_nat, ends_with, ends_with_exec, lowercase, push_decimal,
    push_str, string_from_chars, to_lowercase_exec,
};

verus! {

// ---------------------------------------------------------------------------
// Edit distance
// ---------------------------------------------------------------------------

/// Levenshtein distance: the fewest single-character insertions, deletions
/// and substitutions that turn `a` into `b`.
pub open spec fn levenshtein(a: Seq<char>, b: Seq<char>) -> nat
    decreases a.len() + b.len(),
{
    if a.len() == 0 {
        b.len()
    } else if b.len() == 0 {
        a.len()
    } else {
        let del = levenshtein(a.drop_last(), b) + 1;
        let ins = levenshtein(a, b.drop_last()) + 1;
        let sub = levenshtein(a.drop_last(), b.drop_last()) + (if a.last() == b.last() { 0nat } else { 1nat });
        let m = if del <= ins { del } else { ins };
        if m <= sub { m } else { sub }
    }
}

/// The distance never exceeds the longer length.
pub proof fn lemma_levenshtein_bound(a: Seq<char>, b: Seq<char>)
    ensures
        levenshtein(a, b) <= (if a.len() >= b.len() { a.len() } else { b.len() }),
    decreases a.len() + b.len(),
{
    if a.len() > 0 && b.len() > 0 {
        lemma_levenshtein_bound(a.drop_last(), b.drop_last());
    }
}

/// A string is at distance zero from itself.
pub proof fn lemma_levenshtein_self(a: Seq<char>)
    ensures
        levenshtein(a, a) == 0,
    decreases a.len(),
{
    if a.len() > 0 {
        lemma_levenshtein_self(a.drop_last());
    }
}

/// Distance from the empty string is the other string's length.
pub proof fn lemma_levenshtein_empty(b: Seq<char>)
    ensures
        levenshtein(Seq::empty(), b) == b.len(),
        levenshtein(b, Seq::empty()) == b.len(),
{
}

/// `levenshtein(a, b)` on character slices, by dynamic programming over
/// prefixes.
fn levenshtein_chars(a: &[char], b: &[char]) -> (d: usize)
    ensures
        d == levenshtein(a@, b@),
{
    let len1 = a.len();
    let len2 = b.len();
    if len1 == 0 {
        assert(a@.len() == 0);
        return len2;
    }
    if len2 == 0 {
        return len1;
    }
    // prev[k] = levenshtein(a[..i], b[..k]); row 0 first.
    let mut prev: Vec<usize> = Vec::new();
    prev.push(0);
    proof {
        assert(a@.take(0) == Seq::<char>::empty());
        assert(b@.take(0) == Seq::<char>::empty());
    }
    let mut j: usize = 0;
    while j < len2
        invariant
            len2 == b@.len(),
            j <= len2,
            prev@.len() == j + 1,
            forall|k: int| 0 <= k <= j ==> prev@[k] == levenshtein(a@.take(0), b@.take(k)),
        decreases len2 - j,
    {
        proof {
            lemma_levenshtein_empty(b@.take(j + 1));
            assert(a@.take(0) == Seq::<char>::empty());
        }
        prev.push(j + 1);
        j = j + 1;
    }
    let mut i: usize = 0;
    while i < len1
        invariant
            len1 == a@.len(),
            len2 == b@.len(),
            i <= len1,
            prev@.len() == len2 + 1,
            forall|k: int| 0 <= k <= len2 ==> prev@[k] == levenshtein(a@.take(i as int), b@.take(k)),
        decreases len1 - i,
    {
        let mut cur: Vec<usize> = Vec::new();
        proof {
            lemma_levenshtein_empty(a@.take(i + 1));
            assert(b@.take(0) == Seq::<char>::empty());
        }
        cur.push(i + 1);
        let mut j: usize = 0;
        while j < len2
            invariant
                len1 == a@.len(),
                len2 == b@.len(),
                i < len1,
                j <= len2,
                prev@.len() == len2 + 1,
                cur@.len() == j + 1,
                forall|k: int| 0 <= k <= len2 ==> prev@[k] == levenshtein(a@.take(i as int), b@.take(k)),
                forall|k: int| 0 <= k <= j ==> cur@[k] == levenshtein(a@.take(i + 1), b@.take(k)),
            decreases len2 - j,
        {
            let ghost ai = a@.take(i + 1);
            let ghost bj = b@.take(j + 1);
            proof {
                assert(ai.drop_last() == a@.take(i as int));
                assert(bj.drop_last() == b@.take(j as int));
                assert(ai.last() == a@[i as int]);
                assert(bj.last() == b@[j as int]);
                lemma_levenshtein_bound(a@.take(i as int), b@.take(j as int));
            }
            let cost: usize = if a[i] == b[j] { 0 } else { 1 };
            let diag = prev[j] + cost;
            let up = if prev[j + 1] < usize::MAX { prev[j + 1] + 1 } else { usize::MAX };
            let left = if cur[j] < usize::MAX { cur[j] + 1 } else { usize::MAX };
            let m = if up <= left { up } else { left };
            let v = if m <= diag { m } else { diag };
            cur.push(v);
            j = j + 1;
        }
        prev = cur;
        i = i + 1;
    }
    assert(a@.take(len1 as int) == a@);
    assert(b@.take(len2 as int) == b@);
    prev[len2]
}

// ---------------------------------------------------------------------------
// Field matchers
// ---------------------------------------------------------------------------

/// Resource ID suffix match: equal, or ending with `/` followed by the
/// selector's ID. An empty resource ID never matches.
pub open spec fn match_resource_id_spec(resource_id: Seq<char>, selector_id: Seq<char>) -> bool {
    resource_id.len() > 0 && (resource_id == selector_id || ends_with(resource_id, seq!['/'] + selector_id))
}

/// Class name suffix match: equal, or ending with `.` followed by the
/// selector's class. An empty class name never matches.
pub open spec fn match_class_name_spec(class_name: Seq<char>, selector_class: Seq<char>) -> bool {
    class_name.len() > 0 && (class_name == selector_class || ends_with(class_name, seq!['.'] + selector_class))
}

/// Content description match: the lower-cased selector text occurs in the
/// lower-cased description. An empty description never matches.
pub open spec fn match_content_desc_spec(content_desc: Seq<char>, selector_desc: Seq<char>) -> bool {
    content_desc.len() > 0 && contains(lowercase(content_desc), lowercase(selector_desc))
}

/// Score of a case-insensitive comparison, given both lower-cased texts:
/// 95 when equal, 85 when the selector text occurs in the element text,
/// otherwise 75 - 5 * distance when the edit distance is below 3.
pub open spec fn score_lowercased_spec(text_lower: Seq<char>, selector_lower: Seq<char>) -> Option<u32> {
    if text_lower == selector_lower {
        Some(95)
    } else if contains(text_lower, selector_lower) {
        Some(85)
    } else {
        let d = levenshtein(text_lower, selector_lower);
        if d < 3 {
            Some((75 - d * 5) as u32)
        } else {
            None
        }
    }
}

/// Text match with scoring. Empty element text never matches; an exact match
/// compares the texts as they are (score 95); otherwise both are lower-cased and
/// scored by `score_lowercased_spec`.
pub open spec fn match_text_spec(text: Seq<char>, selector_text: Seq<char>, exact_match: bool) -> Option<u32> {
    if text.len() == 0 {
        None
    } else if exact_match {
        if text == selector_text {
            Some(95)
        } else {
            None
        }
    } else {
        score_lowercased_spec(lowercase(text), lowercase(selector_text))
    }
}

impl ElementResolver {

/// Edit distance between two strings, counted in characters.
pub fn levenshtein_distance(s1: &str, s2: &str) -> (d: usize)
    ensures
        d == levenshtein(s1@, s2@),
{
    let a = chars_of(s1);
    let b = chars_of(s2);
    levenshtein_chars(a.as_slice(), b.as_slice())
}

}

/// Score of lower-cased texts (see `score_lowercased_spec`).
pub fn score_lowercased(text_lower: &[char], selector_lower: &[char]) -> (r: Option<u32>)
    ensures
        r == score_lowercased_spec(text_lower@, selector_lower@),
{
    if chars_eq(text_lower, selector_lower) {
        Some(95)
    } else if contains_exec(text_lower, selector_lower) {
        Some(85)
    } else {
        let d = levenshtein_chars(text_lower, selector_lower);
        if d < 3 {
            Some(75 - (d as u32) * 5)
        } else {
            None
        }
    }
}

/// Whether `s` ends with `c` followed by `tail`.
fn ends_with_sep(s: &[char], c: char, tail: &[char]) -> (r: bool)
    ensures
        r == ends_with(s@, seq![c] + tail@),
{
    let mut pat: Vec<char> = Vec::with_capacity(1);
    pat.push(c);
    let mut i: usize = 0;
    while i < tail.len()
        invariant
            i <= tail@.len(),
            pat@ == seq![c] + tail@.take(i as int),
        decreases tail@.len() - i,
    {
        pat.push(tail[i]);
        i = i + 1;
        assert(tail@.take(i as int) == tail@.take(i - 1) + seq![tail@[i - 1]]);
    }
    assert(tail@.take(tail@.len() as int) == tail@);
    ends_with_exec(s, pat.as_slice())
}

impl ElementResolver {

/// Whether the element's resource ID matches the selector's (see
/// `match_resource_id_spec`).
pub fn match_resource_id(&self, resource_id: &str, selector_id: &str) -> (r: bool)
    ensures
        r == match_resource_id_spec(resource_id@, selector_id@),
{
    let rid = chars_of(resource_id);
    let sid = chars_of(selector_id);
    if rid.len() == 0 {
        return false;
    }
    chars_eq(rid.as_slice(), sid.as_slice()) || ends_with_sep(rid.as_slice(), '/', sid.as_slice())
}

/// Whether the element's class name matches the selector's (see
/// `match_class_name_spec`).
pub fn match_class_name(&self, class_name: &str, selector_class: &str) -> (r: bool)
    ensures
        r == match_class_name_spec(class_name@, selector_class@),
{
    let cn = chars_of(class_name);
    let sc = chars_of(selector_class);
    if cn.len() == 0 {
        return false;
    }
    chars_eq(cn.as_slice(), sc.as_slice()) || ends_with_sep(cn.as_slice(), '.', sc.as_slice())
}

/// Whether the element's content description matches (see
/// `match_content_desc_spec`).
pub fn match_content_desc(&self, content_desc: &str, selector_desc: &str) -> (r: bool)
    ensures
        r == match_content_desc_spec(content_desc@, selector_desc@),
{
    if content_desc.unicode_len() == 0 {
        return false;
    }
    let a = to_lowercase_exec(content_desc);
    let b = to_lowercase_exec(selector_desc);
    contains_exec(a.as_slice(), b.as_slice())
}

/// Score of the element text against the selector text (see `match_text_spec`).
pub fn match_text(&self, text: &str, selector_text: &str, exact_match: bool) -> (r: Option<u32>)
    ensures
        r == match_text_spec(text@, selector_text@, exact_match),
{
    let t = chars_of(text);
    if t.len() == 0 {
        return None;
    }
    if exact_match {
        let s = chars_of(selector_text);
        if chars_eq(t.as_slice(), s.as_slice()) {
            Some(95)
        } else {
            None
        }
    } else {
        let text_lower = to_lowercase_exec(text);
        let selector_lower = to_lowercase_exec(selector_text);
        score_lowercased(text_lower.as_slice(), selector_lower.as_slice())
    }
}

}


// ---------------------------------------------------------------------------
// Resolution
// ---------------------------------------------------------------------------

/// A candidate match: its score and the element.
pub type Scored = (u32, UiElement);

/// Position of the first element whose ID is `id`.
pub open spec fn first_with_id(es: Seq<UiElement>, id: Seq<char>) -> Option<int>
    decreases es.len(),
{
    if es.len() == 0 {
        None
    } else {
        match first_with_id(es.drop_last(), id) {
            Some(k) => Some(k),
            None => if es.last().element_id@ == id {
                Some(es.len() - 1)
            } else {
                None
            },
        }
    }
}

/// One matching strategy: the score it gives an element, if it matches.
pub open spec fn strategy_score(which: int, sel: Selector, e: UiElement) -> Option<u32> {
    if which == 1 {
        if match_resource_id_spec(e.resource_id@, sel.resource_id@) { Some(97u32) } else { None }
    } else if which == 2 {
        match_text_spec(e.text@, sel.text@, sel.exact_match)
    } else if which == 3 {
        if match_content_desc_spec(e.content_description@, sel.content_desc@) { Some(80u32) } else { None }
    } else {
        if match_class_name_spec(e.class_name@, sel.class_name@) { Some(75u32) } else { None }
    }
}

/// The matches of strategy `which` over `es`, in element order.
pub open spec fn strategy_matches(which: int, sel: Selector, es: Seq<UiElement>) -> Seq<Scored>
    decreases es.len(),
{
    if es.len() == 0 {
        Seq::empty()
    } else {
        let before = strategy_matches(which, sel, es.drop_last());
        match strategy_score(which, sel, es.last()) {
            Some(sc) => before.push((sc, es.last())),
            None => before,
        }
    }
}

/// Whether strategy `which` is active: its selector field is non-empty.
pub open spec fn strategy_active(which: int, sel: Selector) -> bool {
    if which == 1 {
        sel.resource_id@.len() > 0
    } else if which == 2 {
        sel.text@.len() > 0
    } else if which == 3 {
        sel.content_desc@.len() > 0
    } else {
        sel.class_name@.len() > 0
    }
}

/// Matches of an active strategy, none of an inactive one.
pub open spec fn active_matches(which: int, sel: Selector, es: Seq<UiElement>) -> Seq<Scored> {
    if strategy_active(which, sel) {
        strategy_matches(which, sel, es)
    } else {
        Seq::empty()
    }
}

/// Element-ID match: the first element with that ID, scored 100.
pub open spec fn id_matches(sel: Selector, es: Seq<UiElement>) -> Seq<Scored> {
    if sel.element_id@.len() == 0 {
        Seq::empty()
    } else {
        match first_with_id(es, sel.element_id@) {
            Some(k) => seq![(100u32, es[k])],
            None => Seq::empty(),
        }
    }
}

/// All candidates, strategy after strategy: element ID, resource ID, text,
/// content description, class name.
pub open spec fn all_candidates(sel: Selector, es: Seq<UiElement>) -> Seq<Scored> {
    id_matches(sel, es) + active_matches(1, sel, es) + active_matches(2, sel, es) + active_matches(
        3,
        sel,
        es,
    ) + active_matches(4, sel, es)
}

/// Candidates whose element passes the visibility and enabled filters.
pub open spec fn passing(sel: Selector, s: Seq<Scored>) -> Seq<Scored>
    decreases s.len(),
{
    if s.len() == 0 {
        Seq::empty()
    } else {
        let before = passing(sel, s.drop_last());
        let e = s.last().1;
        if (!sel.visible_only || e.visible) && (!sel.enabled_only || e.enabled) {
            before.push(s.last())
        } else {
            before
        }
    }
}

/// Number of leading entries of `s` scored at least `score`.
pub open spec fn leading_at_least(s: Seq<Scored>, score: u32) -> nat
    decreases s.len(),
{
    if s.len() == 0 {
        0
    } else if s[0].0 >= score {
        1 + leading_at_least(s.drop_first(), score)
    } else {
        0
    }
}

/// Insert `x` into a list ordered by descending score, after every entry
/// scored at least as high.
pub open spec fn insert_by_score(s: Seq<Scored>, x: Scored) -> Seq<Scored> {
    let k = leading_at_least(s, x.0) as int;
    s.take(k).push(x) + s.skip(k)
}

/// Stable sort by descending score.
pub open spec fn sort_by_score(s: Seq<Scored>) -> Seq<Scored>
    decreases s.len(),
{
    if s.len() == 0 {
        Seq::empty()
    } else {
        insert_by_score(sort_by_score(s.drop_last()), s.last())
    }
}

/// Whether some entry of `s` is for the element with ID `id`.
pub open spec fn has_id(s: Seq<Scored>, id: Seq<char>) -> bool {
    exists|i: int| 0 <= i < s.len() && #[trigger] s[i].1.element_id@ == id
}

/// Keep the first entry of each element ID, in order; on a list sorted by
/// score that is each element at its best score.
pub open spec fn dedup_ids(s: Seq<Scored>) -> Seq<Scored>
    decreases s.len(),
{
    if s.len() == 0 {
        Seq::empty()
    } else {
        let d = dedup_ids(s.drop_last());
        if has_id(s.drop_last(), s.last().1.element_id@) {
            d
        } else {
            d.push(s.last())
        }
    }
}

/// The elements of scored entries.
pub open spec fn elements_of(s: Seq<Scored>) -> Seq<UiElement> {
    s.map_values(|x: Scored| x.1)
}

/// Ranked matches: filtered, sorted by score, each element once.
pub open spec fn ranked_matches(sel: Selector, es: Seq<UiElement>) -> Seq<UiElement> {
    elements_of(dedup_ids(sort_by_score(passing(sel, all_candidates(sel, es)))))
}

/// Why no element was returned.
#[derive(Debug, Clone, Copy, PartialEq, Eq, Structural)]
pub enum ResolveError {
    /// No element matches the selector.
    NoMatch,
    /// The selector asks for match `index` but only `matches` exist.
    IndexOutOfRange { index: usize, matches: usize },
}

/// The text of a resolution error.
pub open spec fn resolve_error_message(e: ResolveError) -> Seq<char> {
    match e {
        ResolveError::NoMatch => "No elements found matching selector"@,
        ResolveError::IndexOutOfRange { index, matches } => "Index "@ + decimal_nat(index as nat)
            + " out of range (only "@ + decimal_nat(matches as nat) + " matches)"@,
    }
}

impl ResolveError {
    /// The error's text (see `resolve_error_message`).
    pub fn message(&self) -> (r: String)
        ensures
            r@ == resolve_error_message(*self),
    {
        let mut m: Vec<char> = Vec::new();
        match self {
            ResolveError::NoMatch => {
                push_str(&mut m, "No elements found matching selector");
            },
            ResolveError::IndexOutOfRange { index, matches } => {
                push_str(&mut m, "Index ");
                push_decimal(&mut m, *index as u64);
                push_str(&mut m, " out of range (only ");
                push_decimal(&mut m, *matches as u64);
                push_str(&mut m, " matches)");
            },
        }
        string_from_chars(m.as_slice())
    }
}

/// What `resolve` gives: no match is an error; a non-negative index picks that
/// match (an error when out of range); otherwise the best match, or all of
/// them when `find_all` is set.
pub open spec fn resolve_spec(sel: Selector, es: Seq<UiElement>, find_all: bool) -> Result<Seq<UiElement>, ResolveError> {
    let ranked = ranked_matches(sel, es);
    if ranked.len() == 0 {
        Err(ResolveError::NoMatch)
    } else if sel.index >= 0 {
        if sel.index >= ranked.len() {
            Err(ResolveError::IndexOutOfRange { index: sel.index as usize, matches: ranked.len() as usize })
        } else {
            Ok(seq![ranked[sel.index as int]])
        }
    } else if !find_all {
        Ok(seq![ranked[0]])
    } else {
        Ok(ranked)
    }
}

/// Whether point (x, y) lies within the element's bounds (edges included).
pub open spec fn contains_point(e: UiElement, x: i32, y: i32) -> bool {
    match e.bounds {
        Some(b) => x >= b.left && x <= b.right && y >= b.top && y <= b.bottom,
        None => false,
    }
}

/// The first element of greatest depth among those containing the point.
pub open spec fn deepest_at(es: Seq<UiElement>, x: i32, y: i32) -> Option<UiElement>
    decreases es.len(),
{
    if es.len() == 0 {
        None
    } else {
        let before = deepest_at(es.drop_last(), x, y);
        let e = es.last();
        if !contains_point(e, x, y) {
            before
        } else {
            match before {
                None => Some(e),
                Some(d) => if e.depth > d.depth {
                    Some(e)
                } else {
                    Some(d)
                },
            }
        }
    }
}

/// Element resolver over a captured UI tree.
pub struct ElementResolver {
    elements: Vec<UiElement>,
}

impl View for ElementResolver {
    type V = Seq<UiElement>;

    /// The elements of the tree, in order.
    closed spec fn view(&self) -> Seq<UiElement> {
        self.elements@
    }
}

/// Whether an entry before position `i` is for the same element as entry `i`.
fn seen_before(s: &Vec<Scored>, i: usize) -> (r: bool)
    requires
        i < s@.len(),
    ensures
        r == has_id(s@.take(i as int), s@[i as int].1.element_id@),
{
    let id = chars_of(s[i].1.element_id.as_str());
    let mut j: usize = 0;
    while j < i
        invariant
            i < s@.len(),
            j <= i,
            id@ == s@[i as int].1.element_id@,
            forall|k: int| 0 <= k < j ==> #[trigger] s@[k].1.element_id@ != id@,
        decreases i - j,
    {
        let other = chars_of(s[j].1.element_id.as_str());
        if chars_eq(other.as_slice(), id.as_slice()) {
            assert(s@.take(i as int)[j as int].1.element_id@ == id@);
            return true;
        }
        j = j + 1;
    }
    assert forall|k: int| 0 <= k < s@.take(i as int).len() implies #[trigger] s@.take(i as int)[k].1.element_id@ != id@ by {
        assert(s@.take(i as int)[k] == s@[k]);
    }
    false
}

/// Insert `x` into `v`, which is ordered by descending score, after every entry
/// scored at least as high.
fn insert_scored(v: &mut Vec<Scored>, x: Scored)
    ensures
        final(v)@ == insert_by_score(old(v)@, x),
{
    let ghost s = v@;
    let mut k: usize = 0;
    while k < v.len() && v[k].0 >= x.0
        invariant
            v@ == s,
            k <= s.len(),
            forall|j: int| 0 <= j < k ==> s[j].0 >= x.0,
        decreases s.len() - k,
    {
        k = k + 1;
    }
    proof {
        lemma_leading_at_least(s, x.0, k as int);
    }
    v.insert(k, x);
    assert(v@ =~= s.take(k as int).push(x) + s.skip(k as int));
}

proof fn lemma_leading_at_least(s: Seq<Scored>, score: u32, k: int)
    requires
        0 <= k <= s.len(),
        forall|j: int| 0 <= j < k ==> s[j].0 >= score,
        k < s.len() ==> s[k].0 < score,
    ensures
        leading_at_least(s, score) == k,
    decreases k,
{
    if k > 0 {
        lemma_leading_at_least(s.drop_first(), score, k - 1);
    }
}

impl ElementResolver {
    /// Create a resolver over a UI tree.
    pub fn new(elements: Vec<UiElement>) -> (r: ElementResolver)
        ensures
            r@ == elements@,
    {
        ElementResolver { elements }
    }

    /// The first element whose ID is `element_id`.
    pub fn find_by_element_id(&self, element_id: &str) -> (r: Option<&UiElement>)
        ensures
            match first_with_id(self@, element_id@) {
                Some(k) => r == Some(&self@[k]),
                None => r is None,
            },
    {
        let id = chars_of(element_id);
        let mut i: usize = 0;
        while i < self.elements.len()
            invariant
                i <= self@.len(),
                id@ == element_id@,
                first_with_id(self@.take(i as int), id@) is None,
            decreases self@.len() - i,
        {
            let eid = chars_of(self.elements[i].element_id.as_str());
            proof {
                assert(self@.take(i + 1).drop_last() == self@.take(i as int));
            }
            if chars_eq(eid.as_slice(), id.as_slice()) {
                proof {
                    lemma_first_with_id_prefix(self@, id@, i + 1);
                }
                return Some(&self.elements[i]);
            }
            i = i + 1;
        }
        proof {
            assert(self@.take(self@.len() as int) == self@);
        }
        None
    }

    /// Collect the matches of strategy `which` (1 resource ID, 2 text,
    /// 3 content description, 4 class name).
    fn collect_strategy(&self, which: u8, sel: &Selector, out: &mut Vec<Scored>)
        requires
            1 <= which <= 4,
        ensures
            final(out)@ == old(out)@ + strategy_matches(which as int, *sel, self@),
    {
        let mut i: usize = 0;
        while i < self.elements.len()
            invariant
                1 <= which <= 4,
                i <= self@.len(),
                out@ == old(out)@ + strategy_matches(which as int, *sel, self@.take(i as int)),
            decreases self@.len() - i,
        {
            let e = &self.elements[i];
            let score: Option<u32> = if which == 1 {
                if self.match_resource_id(e.resource_id.as_str(), sel.resource_id.as_str()) {
                    Some(97)
                } else {
                    None
                }
            } else if which == 2 {
                self.match_text(e.text.as_str(), sel.text.as_str(), sel.exact_match)
            } else if which == 3 {
                if self.match_content_desc(e.content_description.as_str(), sel.content_desc.as_str()) {
                    Some(80)
                } else {
                    None
                }
            } else {
                if self.match_class_name(e.class_name.as_str(), sel.class_name.as_str()) {
                    Some(75)
                } else {
                    None
                }
            };
            proof {
                assert(self@.take(i + 1).drop_last() == self@.take(i as int));
                assert(self@.take(i + 1).last() == self@[i as int]);
            }
            match score {
                Some(sc) => {
                    out.push((sc, e.clone()));
                },
                None => {},
            }
            i = i + 1;
        }
        proof {
            assert(self@.take(self@.len() as int) == self@);
        }
    }

    /// Resolve a selector to matching elements, best match first.
    pub fn resolve(&self, selector: &Selector, find_all: bool) -> (r: Result<Vec<UiElement>, ResolveError>)
        ensures
            match resolve_spec(*selector, self@, find_all) {
                Ok(s) => r matches Ok(v) && v@ == s,
                Err(e) => r == Err::<Vec<UiElement>, ResolveError>(e),
            },
            r matches Ok(v) ==> distinct_ids(v@),
    {
        proof {
            lemma_ranked_distinct(*selector, self@);
        }
        let mut matches: Vec<Scored> = Vec::new();
        // Strategy 1: element ID.
        if selector.element_id.as_str().unicode_len() > 0 {
            match self.find_by_element_id(selector.element_id.as_str()) {
                Some(element) => {
                    matches.push((100, element.clone()));
                },
                None => {},
            }
        }
        assert(matches@ == id_matches(*selector, self@));
        // Strategies 2 to 5.
        let mut which: u8 = 1;
        while which <= 4
            invariant
                1 <= which <= 5,
                matches@ == id_matches(*selector, self@) + (if which > 1 { active_matches(1, *selector, self@) } else { Seq::empty() })
                    + (if which > 2 { active_matches(2, *selector, self@) } else { Seq::empty() })
                    + (if which > 3 { active_matches(3, *selector, self@) } else { Seq::empty() })
                    + (if which > 4 { active_matches(4, *selector, self@) } else { Seq::empty() }),
            decreases 5 - which,
        {
            let field: &str = if which == 1 {
                selector.resource_id.as_str()
            } else if which == 2 {
                selector.text.as_str()
            } else if which == 3 {
                selector.content_desc.as_str()
            } else {
                selector.class_name.as_str()
            };
            let ghost before = matches@;
            if field.unicode_len() > 0 {
                self.collect_strategy(which, selector, &mut matches);
            }
            assert(matches@ == before + active_matches(which as int, *selector, self@));
            which = which + 1;
        }
        assert(matches@ =~= all_candidates(*selector, self@));
        // Visibility and enabled filters.
        let mut kept: Vec<Scored> = Vec::new();
        let mut i: usize = 0;
        while i < matches.len()
            invariant
                i <= matches@.len(),
                kept@ == passing(*selector, matches@.take(i as int)),
            decreases matches@.len() - i,
        {
            proof {
                assert(matches@.take(i + 1).drop_last() == matches@.take(i as int));
                assert(matches@.take(i + 1).last() == matches@[i as int]);
            }
            let e = &matches[i].1;
            if (!selector.visible_only || e.visible) && (!selector.enabled_only || e.enabled) {
                kept.push((matches[i].0, e.clone()));
            }
            i = i + 1;
        }
        proof {
            assert(matches@.take(matches@.len() as int) == matches@);
        }
        // Stable sort by descending score.
        let mut sorted: Vec<Scored> = Vec::new();
        let mut i: usize = 0;
        while i < kept.len()
            invariant
                i <= kept@.len(),
                sorted@ == sort_by_score(kept@.take(i as int)),
            decreases kept@.len() - i,
        {
            proof {
                assert(kept@.take(i + 1).drop_last() == kept@.take(i as int));
                assert(kept@.take(i + 1).last() == kept@[i as int]);
            }
            insert_scored(&mut sorted, (kept[i].0, kept[i].1.clone()));
            i = i + 1;
        }
        proof {
            assert(kept@.take(kept@.len() as int) == kept@);
        }
        // Keep each element once, at its first (best) entry.
        let mut unique: Vec<Scored> = Vec::new();
        let mut i: usize = 0;
        while i < sorted.len()
            invariant
                i <= sorted@.len(),
                unique@ == dedup_ids(sorted@.take(i as int)),
            decreases sorted@.len() - i,
        {
            proof {
                assert(sorted@.take(i + 1).drop_last() == sorted@.take(i as int));
                assert(sorted@.take(i + 1).last() == sorted@[i as int]);
            }
            let same = seen_before(&sorted, i);
            if !same {
                unique.push((sorted[i].0, sorted[i].1.clone()));
            }
            i = i + 1;
        }
        proof {
            assert(sorted@.take(sorted@.len() as int) == sorted@);
        }
        // The elements.
        let mut result: Vec<UiElement> = Vec::new();
        let mut i: usize = 0;
        while i < unique.len()
            invariant
                i <= unique@.len(),
                result@ == elements_of(unique@.take(i as int)),
            decreases unique@.len() - i,
        {
            result.push(unique[i].1.clone());
            i = i + 1;
            assert(elements_of(unique@.take(i as int)) =~= elements_of(unique@.take(i - 1)).push(unique@[i - 1].1));
        }
        proof {
            assert(unique@.take(unique@.len() as int) == unique@);
        }
        assert(result@ == ranked_matches(*selector, self@));
        if result.len() == 0 {
            return Err(ResolveError::NoMatch);
        }
        if selector.index >= 0 {
            let index = selector.index as usize;
            if index >= result.len() {
                return Err(ResolveError::IndexOutOfRange { index, matches: result.len() });
            }
            let picked = result[index].clone();
            let mut one: Vec<UiElement> = Vec::new();
            one.push(picked);
            assert(one@ =~= seq![result@[index as int]]);
            Ok(one)
        } else if !find_all {
            let picked = result[0].clone();
            let mut one: Vec<UiElement> = Vec::new();
            one.push(picked);
            assert(one@ =~= seq![result@[0]]);
            Ok(one)
        } else {
            Ok(result)
        }
    }

    /// The most specific element at a point: among elements whose bounds
    /// contain it, the first one of greatest depth.
    pub fn element_at_point(&self, x: i32, y: i32) -> (r: Option<UiElement>)
        ensures
            r == deepest_at(self@, x, y),
    {
        let mut best: Option<UiElement> = None;
        let mut i: usize = 0;
        while i < self.elements.len()
            invariant
                i <= self@.len(),
                best == deepest_at(self@.take(i as int), x, y),
            decreases self@.len() - i,
        {
            proof {
                assert(self@.take(i + 1).drop_last() == self@.take(i as int));
                assert(self@.take(i + 1).last() == self@[i as int]);
            }
            let e = &self.elements[i];
            let inside = match e.bounds {
                Some(b) => x >= b.left && x <= b.right && y >= b.top && y <= b.bottom,
                None => false,
            };
            if inside {
                let replace = match &best {
                    None => true,
                    Some(d) => e.depth > d.depth,
                };
                if replace {
                    best = Some(e.clone());
                }
            }
            i = i + 1;
        }
        proof {
            assert(self@.take(self@.len() as int) == self@);
        }
        best
    }
}

proof fn lemma_first_with_id_prefix(es: Seq<UiElement>, id: Seq<char>, n: int)
    requires
        0 < n <= es.len(),
        first_with_id(es.take(n - 1), id) is None,
        es[n - 1].element_id@ == id,
    ensures
        first_with_id(es, id) == Some(n - 1),
    decreases es.len() - n,
{
    assert(es.take(n).drop_last() == es.take(n - 1));
    if n < es.len() {
        lemma_first_with_id_extend(es, id, n, n - 1);
    } else {
        assert(es.take(n) == es);
    }
}

proof fn lemma_first_with_id_extend(es: Seq<UiElement>, id: Seq<char>, n: int, k: int)
    requires
        0 < n <= es.len(),
        first_with_id(es.take(n), id) == Some(k),
    ensures
        first_with_id(es, id) == Some(k),
    decreases es.len() - n,
{
    if n < es.len() {
        assert(es.take(n + 1).drop_last() == es.take(n));
        lemma_first_with_id_extend(es, id, n + 1, k);
    } else {
        assert(es.take(n) == es);
    }
}


// ---------------------------------------------------------------------------
// Laws of the ranking
// ---------------------------------------------------------------------------

/// Entries ordered by descending score.
pub open spec fn sorted_by_score(s: Seq<Scored>) -> bool {
    forall|i: int, j: int| 0 <= i < j < s.len() ==> #[trigger] s[i].0 >= #[trigger] s[j].0
}

proof fn lemma_leading_props(s: Seq<Scored>, score: u32)
    ensures
        leading_at_least(s, score) <= s.len(),
        forall|j: int| 0 <= j < leading_at_least(s, score) ==> #[trigger] s[j].0 >= score,
        leading_at_least(s, score) < s.len() ==> s[leading_at_least(s, score) as int].0 < score,
    decreases s.len(),
{
    if s.len() > 0 && s[0].0 >= score {
        lemma_leading_props(s.drop_first(), score);
        assert forall|j: int| 0 <= j < leading_at_least(s, score) implies #[trigger] s[j].0 >= score by {
            if j > 0 {
                assert(s[j] == s.drop_first()[j - 1]);
            }
        }
    }
}

proof fn lemma_insert_sorted(t: Seq<Scored>, x: Scored)
    requires
        sorted_by_score(t),
    ensures
        sorted_by_score(insert_by_score(t, x)),
        insert_by_score(t, x).to_multiset() == t.to_multiset().insert(x),
        insert_by_score(t, x).len() == t.len() + 1,
{
    broadcast use vstd::seq_lib::group_to_multiset_ensures;

    lemma_leading_props(t, x.0);
    let k = leading_at_least(t, x.0) as int;
    let r = insert_by_score(t, x);
    assert(r.len() == t.len() + 1);
    assert forall|i: int, j: int| 0 <= i < j < r.len() implies #[trigger] r[i].0 >= #[trigger] r[j].0 by {
        if i < k {
            assert(r[i] == t[i]);
            if j < k {
                assert(r[j] == t[j]);
            } else if j == k {
                assert(r[j] == x);
            } else {
                assert(r[j] == t[j - 1]);
            }
        } else if i == k {
            assert(r[i] == x);
            assert(r[j] == t[j - 1]);
            assert(t[k].0 < x.0);
            if j - 1 > k {
                assert(t[k].0 >= t[j - 1].0);
            }
        } else {
            assert(r[i] == t[i - 1]);
            assert(r[j] == t[j - 1]);
        }
    }
    vstd::seq_lib::lemma_multiset_commutative(t.take(k).push(x), t.skip(k));
    vstd::seq_lib::lemma_multiset_commutative(t.take(k), t.skip(k));
    assert(t.take(k) + t.skip(k) =~= t);
    assert(r.to_multiset() =~= t.to_multiset().insert(x));
}

/// Sorting by score orders the candidates by descending score and keeps every
/// candidate, each as often as it came.
pub proof fn lemma_sort_by_score_sorted(s: Seq<Scored>)
    ensures
        sorted_by_score(sort_by_score(s)),
        sort_by_score(s).to_multiset() == s.to_multiset(),
        sort_by_score(s).len() == s.len(),
    decreases s.len(),
{
    broadcast use vstd::seq_lib::group_to_multiset_ensures;

    if s.len() == 0 {
        assert(sort_by_score(s) =~= s);
    } else {
        lemma_sort_by_score_sorted(s.drop_last());
        lemma_insert_sorted(sort_by_score(s.drop_last()), s.last());
        assert(s.drop_last().push(s.last()) =~= s);
    }
}

proof fn lemma_sort_keeps_strict_head(s: Seq<Scored>)
    requires
        s.len() > 0,
        forall|i: int| 0 < i < s.len() ==> #[trigger] s[i].0 < s[0].0,
    ensures
        sort_by_score(s).len() > 0,
        sort_by_score(s)[0] == s[0],
    decreases s.len(),
{
    if s.len() == 1 {
        assert(sort_by_score(s.drop_last()) =~= Seq::<Scored>::empty());
        assert(leading_at_least(Seq::<Scored>::empty(), s[0].0) == 0);
    } else {
        let d = s.drop_last();
        assert forall|i: int| 0 < i < d.len() implies #[trigger] d[i].0 < d[0].0 by {
            assert(d[i] == s[i]);
        }
        lemma_sort_keeps_strict_head(d);
        let t = sort_by_score(d);
        assert(t[0].0 >= s.last().0);
        assert(leading_at_least(t, s.last().0) >= 1);
        lemma_leading_props(t, s.last().0);
    }
}

proof fn lemma_strategy_score_below_100(which: int, sel: Selector, e: UiElement)
    ensures
        strategy_score(which, sel, e) matches Some(sc) ==> sc < 100,
{
}

proof fn lemma_strategy_matches_below_100(which: int, sel: Selector, es: Seq<UiElement>)
    ensures
        forall|i: int| 0 <= i < strategy_matches(which, sel, es).len() ==> #[trigger] strategy_matches(which, sel, es)[i].0 < 100,
    decreases es.len(),
{
    if es.len() > 0 {
        lemma_strategy_matches_below_100(which, sel, es.drop_last());
        lemma_strategy_score_below_100(which, sel, es.last());
        let before = strategy_matches(which, sel, es.drop_last());
        let sm = strategy_matches(which, sel, es);
        assert forall|i: int| 0 <= i < sm.len() implies #[trigger] sm[i].0 < 100 by {
            if i < before.len() {
                assert(sm[i] == before[i]);
            }
        }
    }
}

proof fn lemma_passing_head(sel: Selector, s: Seq<Scored>)
    requires
        s.len() > 0,
        (!sel.visible_only || s[0].1.visible) && (!sel.enabled_only || s[0].1.enabled),
    ensures
        passing(sel, s).len() > 0,
        passing(sel, s)[0] == s[0],
        forall|i: int| 0 <= i < passing(sel, s).len() ==> exists|j: int| 0 <= j < s.len() && #[trigger] passing(sel, s)[i] == s[j] && (i > 0 ==> j > 0),
    decreases s.len(),
{
    if s.len() == 1 {
        assert(passing(sel, s.drop_last()) =~= Seq::<Scored>::empty());
        assert forall|i: int| 0 <= i < passing(sel, s).len() implies exists|j: int| 0 <= j < s.len() && #[trigger] passing(sel, s)[i] == s[j] && (i > 0 ==> j > 0) by {
            assert(passing(sel, s)[i] == s[0]);
        }
    } else {
        let d = s.drop_last();
        lemma_passing_head(sel, d);
        let p = passing(sel, s);
        let pd = passing(sel, d);
        assert forall|i: int| 0 <= i < p.len() implies exists|j: int| 0 <= j < s.len() && #[trigger] p[i] == s[j] && (i > 0 ==> j > 0) by {
            if i < pd.len() {
                assert(p[i] == pd[i]);
                let j = choose|j: int| 0 <= j < d.len() && #[trigger] pd[i] == d[j] && (i > 0 ==> j > 0);
                assert(p[i] == s[j]);
            } else {
                assert(p[i] == s.last());
                assert(p[i] == s[s.len() - 1]);
            }
        }
    }
}

proof fn lemma_dedup_head(s: Seq<Scored>)
    requires
        s.len() > 0,
    ensures
        dedup_ids(s).len() > 0,
        dedup_ids(s)[0] == s[0],
    decreases s.len(),
{
    if s.len() == 1 {
        assert(dedup_ids(s.drop_last()) =~= Seq::<Scored>::empty());
    } else {
        lemma_dedup_head(s.drop_last());
    }
}

/// Elements whose IDs are pairwise different.
pub open spec fn distinct_ids(v: Seq<UiElement>) -> bool {
    forall|i: int, j: int| 0 <= i < j < v.len() ==> #[trigger] v[i].element_id@ != #[trigger] v[j].element_id@
}

proof fn lemma_dedup_props(s: Seq<Scored>)
    ensures
        forall|i: int| 0 <= i < dedup_ids(s).len() ==> exists|j: int| 0 <= j < s.len() && #[trigger] dedup_ids(s)[i] == s[j],
        forall|i: int, j: int| 0 <= i < j < dedup_ids(s).len() ==> #[trigger] dedup_ids(s)[i].1.element_id@
            != #[trigger] dedup_ids(s)[j].1.element_id@,
    decreases s.len(),
{
    if s.len() > 0 {
        let sd = s.drop_last();
        lemma_dedup_props(sd);
        let d = dedup_ids(sd);
        let r = dedup_ids(s);
        assert forall|i: int| 0 <= i < r.len() implies exists|j: int| 0 <= j < s.len() && #[trigger] r[i] == s[j] by {
            if i < d.len() {
                assert(r[i] == d[i]);
                let j = choose|j: int| 0 <= j < sd.len() && #[trigger] d[i] == sd[j];
                assert(r[i] == s[j]);
            } else {
                assert(r[i] == s[s.len() - 1]);
            }
        }
        if !has_id(sd, s.last().1.element_id@) {
            assert forall|i: int, j: int| 0 <= i < j < r.len() implies #[trigger] r[i].1.element_id@
                != #[trigger] r[j].1.element_id@ by {
                if j < d.len() {
                    assert(r[i] == d[i] && r[j] == d[j]);
                } else {
                    assert(r[i] == d[i]);
                    assert(r[j] == s.last());
                    let k = choose|k: int| 0 <= k < sd.len() && #[trigger] d[i] == sd[k];
                    if r[i].1.element_id@ == r[j].1.element_id@ {
                        assert(sd[k].1.element_id@ == s.last().1.element_id@);
                        assert(has_id(sd, s.last().1.element_id@));
                    }
                }
            }
        }
    }
}

/// No element appears twice among the ranked matches.
pub proof fn lemma_ranked_distinct(sel: Selector, es: Seq<UiElement>)
    ensures
        distinct_ids(ranked_matches(sel, es)),
{
    let d = dedup_ids(sort_by_score(passing(sel, all_candidates(sel, es))));
    lemma_dedup_props(sort_by_score(passing(sel, all_candidates(sel, es))));
    let v = ranked_matches(sel, es);
    assert forall|i: int, j: int| 0 <= i < j < v.len() implies #[trigger] v[i].element_id@ != #[trigger] v[j].element_id@ by {
        assert(v[i] == d[i].1 && v[j] == d[j].1);
    }
}

/// Only equal strings are at distance zero.
pub proof fn lemma_levenshtein_zero(a: Seq<char>, b: Seq<char>)
    ensures
        levenshtein(a, b) == 0 ==> a == b,
    decreases a.len() + b.len(),
{
    if a.len() > 0 && b.len() > 0 && levenshtein(a, b) == 0 {
        lemma_levenshtein_zero(a.drop_last(), b.drop_last());
        assert(a =~= a.drop_last().push(a.last()));
        assert(b =~= b.drop_last().push(b.last()));
    }
}

/// The scores follow the matching priority: element ID (100), resource ID
/// (97), exact text (95), partial text (85), content description (80), class
/// name (75), fuzzy text (70 or 65); exact and partial text are told apart as
/// stated.
pub proof fn lemma_score_priority(sel: Selector, e: UiElement, t: Seq<char>, st: Seq<char>, exact: bool)
    ensures
        strategy_score(1, sel, e) matches Some(sc) ==> sc == 97,
        strategy_score(3, sel, e) matches Some(sc) ==> sc == 80,
        strategy_score(4, sel, e) matches Some(sc) ==> sc == 75,
        strategy_score(2, sel, e) == match_text_spec(e.text@, sel.text@, sel.exact_match),
        match_text_spec(t, st, exact) matches Some(sc) ==> (sc == 95 || sc == 85 || sc == 70 || sc == 65),
        (match_text_spec(t, st, exact) == Some(95u32)) == (t.len() > 0 && if exact {
            t == st
        } else {
            lowercase(t) == lowercase(st)
        }),
        (match_text_spec(t, st, exact) == Some(85u32)) == (t.len() > 0 && !exact && lowercase(t) != lowercase(st)
            && contains(lowercase(t), lowercase(st))),
{
    lemma_levenshtein_zero(lowercase(t), lowercase(st));
}

/// Two selectors that agree on everything the resolver reads but the index.
pub open spec fn same_but_index(a: Selector, b: Selector) -> bool {
    &&& a.text@ == b.text@
    &&& a.resource_id@ == b.resource_id@
    &&& a.content_desc@ == b.content_desc@
    &&& a.class_name@ == b.class_name@
    &&& a.element_id@ == b.element_id@
    &&& a.exact_match == b.exact_match
    &&& a.visible_only == b.visible_only
    &&& a.enabled_only == b.enabled_only
}

proof fn lemma_strategy_ignores_index(which: int, a: Selector, b: Selector, es: Seq<UiElement>)
    requires
        same_but_index(a, b),
    ensures
        strategy_matches(which, a, es) == strategy_matches(which, b, es),
    decreases es.len(),
{
    if es.len() > 0 {
        lemma_strategy_ignores_index(which, a, b, es.drop_last());
    }
}

proof fn lemma_passing_ignores_index(a: Selector, b: Selector, s: Seq<Scored>)
    requires
        same_but_index(a, b),
    ensures
        passing(a, s) == passing(b, s),
    decreases s.len(),
{
    if s.len() > 0 {
        lemma_passing_ignores_index(a, b, s.drop_last());
    }
}

proof fn lemma_ranked_ignores_index(a: Selector, b: Selector, es: Seq<UiElement>)
    requires
        same_but_index(a, b),
    ensures
        ranked_matches(a, es) == ranked_matches(b, es),
{
    lemma_strategy_ignores_index(1, a, b, es);
    lemma_strategy_ignores_index(2, a, b, es);
    lemma_strategy_ignores_index(3, a, b, es);
    lemma_strategy_ignores_index(4, a, b, es);
    assert(all_candidates(a, es) == all_candidates(b, es));
    lemma_passing_ignores_index(a, b, all_candidates(a, es));
}

/// Asking for match `i` gives entry `i` of the full ranked list, or says how
/// many matches there are when `i` is past its end; when nothing matches,
/// both fail alike.
pub proof fn lemma_index_picks_from_ranking(sel: Selector, all: Selector, es: Seq<UiElement>, find_all: bool)
    requires
        same_but_index(sel, all),
        sel.index >= 0,
        all.index < 0,
    ensures
        match resolve_spec(all, es, true) {
            Ok(v) => if sel.index < v.len() {
                resolve_spec(sel, es, find_all) == Ok::<Seq<UiElement>, ResolveError>(seq![v[sel.index as int]])
            } else {
                resolve_spec(sel, es, find_all) == Err::<Seq<UiElement>, ResolveError>(
                    ResolveError::IndexOutOfRange { index: sel.index as usize, matches: v.len() as usize },
                )
            },
            Err(e) => resolve_spec(sel, es, find_all) == Err::<Seq<UiElement>, ResolveError>(e),
        },
{
    lemma_ranked_ignores_index(sel, all, es);
}

/// A description matches a selector's text exactly when it is not empty and
/// the lower-cased text occurs somewhere in the lower-cased description (at
/// its start, in the middle or at the end); a matching description scores 80.
pub proof fn lemma_content_desc_anywhere(sel: Selector, e: UiElement, d: Seq<char>, t: Seq<char>)
    ensures
        match_content_desc_spec(d, t) == (d.len() > 0 && exists|i: int|
            0 <= i && i + lowercase(t).len() <= lowercase(d).len() && #[trigger] lowercase(d).subrange(
                i,
                i + lowercase(t).len(),
            ) == lowercase(t)),
        strategy_score(3, sel, e) == (if e.content_description@.len() > 0 && exists|i: int|
            0 <= i && i + lowercase(sel.content_desc@).len() <= lowercase(e.content_description@).len()
                && #[trigger] lowercase(e.content_description@).subrange(i, i + lowercase(sel.content_desc@).len())
                == lowercase(sel.content_desc@) {
            Some(80u32)
        } else {
            None
        }),
{
    lemma_contains_anywhere(d, t);
    lemma_contains_anywhere(e.content_description@, sel.content_desc@);
}

proof fn lemma_contains_anywhere(d: Seq<char>, t: Seq<char>)
    ensures
        contains(lowercase(d), lowercase(t)) == (exists|i: int|
            0 <= i && i + lowercase(t).len() <= lowercase(d).len() && #[trigger] lowercase(d).subrange(
                i,
                i + lowercase(t).len(),
            ) == lowercase(t)),
{
    let ld = lowercase(d);
    let lt = lowercase(t);
    if contains(ld, lt) {
        let i = choose|i: int| crate::text::occurs_at(ld, lt, i);
        assert(ld.subrange(i, i + lt.len()) == lt);
    }
    if exists|i: int| 0 <= i && i + lt.len() <= ld.len() && #[trigger] ld.subrange(i, i + lt.len()) == lt {
        let i = choose|i: int| 0 <= i && i + lt.len() <= ld.len() && #[trigger] ld.subrange(i, i + lt.len()) == lt;
        assert(crate::text::occurs_at(ld, lt, i));
    }
}

/// A selector with an element ID finds the first element with that ID first,
/// whatever else matches, when that element passes the visibility and
/// enabled filters and no particular match is asked for.
pub proof fn lemma_element_id_wins(sel: Selector, es: Seq<UiElement>, k: int)
    requires
        sel.element_id@.len() > 0,
        first_with_id(es, sel.element_id@) == Some(k),
        (!sel.visible_only || es[k].visible) && (!sel.enabled_only || es[k].enabled),
        sel.index < 0,
    ensures
        resolve_spec(sel, es, false) == Ok::<Seq<UiElement>, ResolveError>(seq![es[k]]),
{
    let c = all_candidates(sel, es);
    let rest = active_matches(1, sel, es) + active_matches(2, sel, es) + active_matches(3, sel, es)
        + active_matches(4, sel, es);
    assert(c =~= seq![(100u32, es[k])] + rest);
    lemma_strategy_matches_below_100(1, sel, es);
    lemma_strategy_matches_below_100(2, sel, es);
    lemma_strategy_matches_below_100(3, sel, es);
    lemma_strategy_matches_below_100(4, sel, es);
    assert forall|i: int| 0 < i < c.len() implies #[trigger] c[i].0 < 100 by {
        assert(c[i] == rest[i - 1]);
        let a1 = active_matches(1, sel, es);
        let a2 = active_matches(2, sel, es);
        let a3 = active_matches(3, sel, es);
        let a4 = active_matches(4, sel, es);
        let m = i - 1;
        if m < a1.len() {
            assert(rest[m] == a1[m]);
        } else if m < a1.len() + a2.len() {
            assert(rest[m] == a2[m - a1.len()]);
        } else if m < a1.len() + a2.len() + a3.len() {
            assert(rest[m] == a3[m - a1.len() - a2.len()]);
        } else {
            assert(rest[m] == a4[m - a1.len() - a2.len() - a3.len()]);
        }
    }
    assert(c[0] == (100u32, es[k]));
    lemma_passing_head(sel, c);
    let p = passing(sel, c);
    assert forall|i: int| 0 < i < p.len() implies #[trigger] p[i].0 < p[0].0 by {
        let j = choose|j: int| 0 <= j < c.len() && #[trigger] p[i] == c[j] && (i > 0 ==> j > 0);
        assert(c[j].0 < 100);
    }
    lemma_sort_keeps_strict_head(p);
    lemma_dedup_head(sort_by_score(p));
    let ranked = ranked_matches(sel, es);
    assert(ranked[0] == es[k]);
}

} // verus!

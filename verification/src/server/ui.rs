//! What the observation tools make of a UI tree: which elements they show,
//! the compact table of the tree, the summary of one element, the elements of
//! a screen context with their centres, and the accessibility audit.

use vstd::prelude::*;
use crate::protocol::pb::{Bounds, UiElement};
use crate::text::{
    chars_eq_str, decimal, decimal_i64, decimal_nat, decimal_u64, push_chars, push_str,
    string_from_chars, trim_end, trim_end_exec,
};

verus! {

// ---------------------------------------------------------------------------
// Which elements are shown
// ---------------------------------------------------------------------------

/// How the UI tree tool filters elements.
#[derive(Debug, Clone, Copy, PartialEq, Eq, Structural)]
pub enum FilterMode {
    /// Every element.
    All,
    /// Elements with text or a content description.
    Text,
    /// Elements one can act on, or with text or a content description.
    Interactive,
}

/// The filter name the tool reports: the one asked for, else `interactive`
/// when filtering is on and `all` when it is off.
pub open spec fn filter_name_spec(param: Option<Seq<char>>, filter_elements: bool) -> Seq<char> {
    match param {
        Some(p) => p,
        None => if filter_elements {
            "interactive"@
        } else {
            "all"@
        },
    }
}

/// The filter name the tool reports (see `filter_name_spec`).
pub fn filter_name(param: Option<&str>, filter_elements: bool) -> (r: String)
    ensures
        r@ == filter_name_spec(
            match param {
                Some(p) => Some(p@),
                None => None,
            },
            filter_elements,
        ),
{
    match param {
        Some(p) => p.to_owned(),
        None => if filter_elements {
            "interactive".to_owned()
        } else {
            "all".to_owned()
        },
    }
}

/// The mode of a filter name: `all`, `text`, and interactive for any other.
pub open spec fn filter_mode_spec(name: Seq<char>) -> FilterMode {
    if name == "all"@ {
        FilterMode::All
    } else if name == "text"@ {
        FilterMode::Text
    } else {
        FilterMode::Interactive
    }
}

/// The mode of a filter name (see `filter_mode_spec`).
pub fn filter_mode(name: &str) -> (r: FilterMode)
    ensures
        r == filter_mode_spec(name@),
{
    let n = crate::text::chars_of(name);
    if chars_eq_str(n.as_slice(), "all") {
        FilterMode::All
    } else if chars_eq_str(n.as_slice(), "text") {
        FilterMode::Text
    } else {
        FilterMode::Interactive
    }
}

/// Whether an element passes a filter.
pub open spec fn passes_filter(mode: FilterMode, e: UiElement) -> bool {
    match mode {
        FilterMode::All => true,
        FilterMode::Text => e.text@.len() > 0 || e.content_description@.len() > 0,
        FilterMode::Interactive => e.clickable || e.focusable || e.scrollable || e.checkable
            || e.text@.len() > 0 || e.content_description@.len() > 0,
    }
}

/// The elements that pass a filter, in order.
pub open spec fn shown_spec(es: Seq<UiElement>, mode: FilterMode) -> Seq<UiElement>
    decreases es.len(),
{
    if es.len() == 0 {
        Seq::empty()
    } else {
        let rest = shown_spec(es.drop_last(), mode);
        if passes_filter(mode, es.last()) {
            rest.push(es.last())
        } else {
            rest
        }
    }
}

fn passes_filter_exec(mode: FilterMode, e: &UiElement) -> (r: bool)
    ensures
        r == passes_filter(mode, *e),
{
    match mode {
        FilterMode::All => true,
        FilterMode::Text => e.text.as_str().unicode_len() > 0 || e.content_description.as_str().unicode_len() > 0,
        FilterMode::Interactive => e.clickable || e.focusable || e.scrollable || e.checkable
            || e.text.as_str().unicode_len() > 0 || e.content_description.as_str().unicode_len() > 0,
    }
}

/// The elements of a tree that pass a filter, in order.
pub fn filter_elements(elements: &Vec<UiElement>, mode: FilterMode) -> (r: Vec<UiElement>)
    ensures
        r@ == shown_spec(elements@, mode),
{
    let mut r: Vec<UiElement> = Vec::new();
    let mut i: usize = 0;
    while i < elements.len()
        invariant
            i <= elements@.len(),
            r@ == shown_spec(elements@.take(i as int), mode),
        decreases elements@.len() - i,
    {
        proof {
            assert(elements@.take(i + 1).drop_last() == elements@.take(i as int));
            assert(elements@.take(i + 1).last() == elements@[i as int]);
        }
        if passes_filter_exec(mode, &elements[i]) {
            r.push(elements[i].clone());
        }
        i = i + 1;
    }
    assert(elements@.take(elements@.len() as int) == elements@);
    r
}

// ---------------------------------------------------------------------------
// The compact table
// ---------------------------------------------------------------------------

/// Header line of the compact table.
pub const TABLE_HEADER: &'static str = "IDX | resource_id | text | desc | flags | bounds\n";

/// `[left,top,right,bottom]`.
pub open spec fn bounds_text_spec(b: Bounds) -> Seq<char> {
    seq!['['] + decimal(b.left as int) + seq![','] + decimal(b.top as int) + seq![','] + decimal(
        b.right as int,
    ) + seq![','] + decimal(b.bottom as int) + seq![']']
}

/// The bounds of an element as `[left,top,right,bottom]`.
pub fn bounds_text(b: Bounds) -> (r: Vec<char>)
    ensures
        r@ == bounds_text_spec(b),
{
    let mut r: Vec<char> = Vec::new();
    r.push('[');
    let d = decimal_i64(b.left as i64);
    push_chars(&mut r, d.as_slice());
    r.push(',');
    let d = decimal_i64(b.top as i64);
    push_chars(&mut r, d.as_slice());
    r.push(',');
    let d = decimal_i64(b.right as i64);
    push_chars(&mut r, d.as_slice());
    r.push(',');
    let d = decimal_i64(b.bottom as i64);
    push_chars(&mut r, d.as_slice());
    r.push(']');
    r
}

/// The flag letters of an element: `c` clickable, `f` focusable, `s`
/// scrollable, `k` checkable.
pub open spec fn flags_spec(e: UiElement) -> Seq<char> {
    (if e.clickable { seq!['c'] } else { Seq::empty() }) + (if e.focusable {
        seq!['f']
    } else {
        Seq::empty()
    }) + (if e.scrollable { seq!['s'] } else { Seq::empty() }) + (if e.checkable {
        seq!['k']
    } else {
        Seq::empty()
    })
}

/// One row of the compact table:
/// `idx | resource_id | text | desc | flags | bounds` and a line feed.
pub open spec fn compact_row_spec(idx: nat, e: UiElement) -> Seq<char> {
    decimal_nat(idx) + " | "@ + e.resource_id@ + " | "@ + e.text@ + " | "@ + e.content_description@
        + " | "@ + flags_spec(e) + " | "@ + match e.bounds {
        Some(b) => bounds_text_spec(b),
        None => Seq::empty(),
    } + seq!['\n']
}

/// The rows of the first elements, numbered from 0.
pub open spec fn compact_rows_spec(es: Seq<UiElement>) -> Seq<char>
    decreases es.len(),
{
    if es.len() == 0 {
        Seq::empty()
    } else {
        compact_rows_spec(es.drop_last()) + compact_row_spec((es.len() - 1) as nat, es.last())
    }
}

/// The compact table of elements: the header and a row per element, without
/// the trailing white space.
pub open spec fn compact_table_spec(es: Seq<UiElement>) -> Seq<char> {
    trim_end(TABLE_HEADER@ + compact_rows_spec(es))
}

/// The start of a row: index, resource ID, text and content description,
/// each followed by a separator.
pub open spec fn row_head_spec(idx: nat, e: UiElement) -> Seq<char> {
    decimal_nat(idx) + " | "@ + e.resource_id@ + " | "@ + e.text@ + " | "@ + e.content_description@
        + " | "@
}

/// The bounds column of a row.
pub open spec fn bounds_column(e: UiElement) -> Seq<char> {
    match e.bounds {
        Some(b) => bounds_text_spec(b),
        None => Seq::empty(),
    }
}

proof fn lemma_row_parts(idx: nat, e: UiElement)
    ensures
        compact_row_spec(idx, e) == row_head_spec(idx, e) + flags_spec(e) + " | "@ + bounds_column(
            e,
        ) + seq!['\n'],
{
}

fn row_head(idx: usize, e: &UiElement) -> (r: Vec<char>)
    ensures
        r@ == row_head_spec(idx as nat, *e),
{
    let mut r = decimal_u64(idx as u64);
    push_str(&mut r, " | ");
    push_str(&mut r, e.resource_id.as_str());
    push_str(&mut r, " | ");
    push_str(&mut r, e.text.as_str());
    push_str(&mut r, " | ");
    push_str(&mut r, e.content_description.as_str());
    push_str(&mut r, " | ");
    r
}

fn flags_text(e: &UiElement) -> (r: Vec<char>)
    ensures
        r@ == flags_spec(*e),
{
    let mut r: Vec<char> = Vec::new();
    if e.clickable {
        r.push('c');
    }
    let ghost a = r@;
    if e.focusable {
        r.push('f');
    }
    let ghost b = r@;
    if e.scrollable {
        r.push('s');
    }
    let ghost c = r@;
    if e.checkable {
        r.push('k');
    }
    assert(a =~= (if e.clickable { seq!['c'] } else { Seq::empty() }));
    r
}

fn push_row(out: &mut Vec<char>, idx: usize, e: &UiElement)
    ensures
        final(out)@ == old(out)@ + compact_row_spec(idx as nat, *e),
{
    let head = row_head(idx, e);
    let flags = flags_text(e);
    let mut tail: Vec<char> = Vec::new();
    push_str(&mut tail, " | ");
    match e.bounds {
        Some(b) => {
            let t = bounds_text(b);
            push_chars(&mut tail, t.as_slice());
        },
        None => {},
    }
    tail.push('\n');
    assert(tail@ =~= " | "@ + bounds_column(*e) + seq!['\n']);
    let ghost o = out@;
    push_chars(out, head.as_slice());
    push_chars(out, flags.as_slice());
    push_chars(out, tail.as_slice());
    proof {
        lemma_row_parts(idx as nat, *e);
        assert(out@ =~= o + (row_head_spec(idx as nat, *e) + flags_spec(*e) + " | "@ + bounds_column(*e) + seq!['\n']));
    }
}

/// The compact table of the elements (see `compact_table_spec`).
pub fn compact_table(elements: &Vec<UiElement>) -> (r: String)
    ensures
        r@ == compact_table_spec(elements@),
{
    let mut out: Vec<char> = Vec::new();
    push_str(&mut out, TABLE_HEADER);
    let mut i: usize = 0;
    while i < elements.len()
        invariant
            i <= elements@.len(),
            out@ == TABLE_HEADER@ + compact_rows_spec(elements@.take(i as int)),
        decreases elements@.len() - i,
    {
        proof {
            assert(elements@.take(i + 1).drop_last() == elements@.take(i as int));
            assert(elements@.take(i + 1).last() == elements@[i as int]);
        }
        push_row(&mut out, i, &elements[i]);
        i = i + 1;
    }
    assert(elements@.take(elements@.len() as int) == elements@);
    let t = trim_end_exec(out.as_slice());
    string_from_chars(t.as_slice())
}

// ---------------------------------------------------------------------------
// Summary of one element
// ---------------------------------------------------------------------------

/// What a tool reports of an element: its ID, and only the fields that say
/// something (non-empty strings, set flags, a class other than a generic
/// layout class, a semantic type other than empty or `0`).
#[derive(Debug)]
pub struct ElementSummary {
    pub id: String,
    pub resource_id: Option<String>,
    pub class_name: Option<String>,
    pub text: Option<String>,
    pub desc: Option<String>,
    pub bounds: Option<Bounds>,
    pub clickable: bool,
    pub focusable: bool,
    pub checkable: bool,
    pub scrollable: bool,
    pub semantic_type: Option<String>,
}

/// Class names of plain layout containers, which summaries leave out.
pub open spec fn generic_class(c: Seq<char>) -> bool {
    c == "android.view.View"@ || c == "android.view.ViewGroup"@ || c
        == "android.widget.FrameLayout"@ || c == "android.widget.LinearLayout"@ || c
        == "android.widget.RelativeLayout"@
}

/// A string when it is not empty.
pub open spec fn non_empty(s: Seq<char>) -> Option<Seq<char>> {
    if s.len() > 0 {
        Some(s)
    } else {
        None
    }
}

/// The characters of an optional string.
pub open spec fn opt_string_view(o: Option<String>) -> Option<Seq<char>> {
    match o {
        Some(s) => Some(s@),
        None => None,
    }
}

/// The summary of `e` that `s` must be.
pub open spec fn is_summary_of(s: ElementSummary, e: UiElement) -> bool {
    &&& s.id@ == e.element_id@
    &&& opt_string_view(s.resource_id) == non_empty(e.resource_id@)
    &&& opt_string_view(s.class_name) == (if e.class_name@.len() > 0 && !generic_class(
        e.class_name@,
    ) {
        Some(e.class_name@)
    } else {
        None
    })
    &&& opt_string_view(s.text) == non_empty(e.text@)
    &&& opt_string_view(s.desc) == non_empty(e.content_description@)
    &&& s.bounds == e.bounds
    &&& s.clickable == e.clickable
    &&& s.focusable == e.focusable
    &&& s.checkable == e.checkable
    &&& s.scrollable == e.scrollable
    &&& opt_string_view(s.semantic_type) == (if e.semantic_type@.len() > 0 && e.semantic_type@
        != "0"@ {
        Some(e.semantic_type@)
    } else {
        None
    })
}

fn non_empty_clone(s: &String) -> (r: Option<String>)
    ensures
        opt_string_view(r) == non_empty(s@),
{
    if s.as_str().unicode_len() > 0 {
        Some(s.clone())
    } else {
        None
    }
}

/// The summary of an element that the tools report.
pub fn format_element(e: &UiElement) -> (s: ElementSummary)
    ensures
        is_summary_of(s, *e),
{
    let cn = crate::text::chars_of(e.class_name.as_str());
    let c = cn.as_slice();
    let generic = chars_eq_str(c, "android.view.View") || chars_eq_str(c, "android.view.ViewGroup")
        || chars_eq_str(c, "android.widget.FrameLayout") || chars_eq_str(
        c,
        "android.widget.LinearLayout",
    ) || chars_eq_str(c, "android.widget.RelativeLayout");
    let class_name = if cn.len() > 0 && !generic {
        Some(e.class_name.clone())
    } else {
        None
    };
    let st = crate::text::chars_of(e.semantic_type.as_str());
    let semantic_type = if st.len() > 0 && !chars_eq_str(st.as_slice(), "0") {
        Some(e.semantic_type.clone())
    } else {
        None
    };
    ElementSummary {
        id: e.element_id.clone(),
        resource_id: non_empty_clone(&e.resource_id),
        class_name,
        text: non_empty_clone(&e.text),
        desc: non_empty_clone(&e.content_description),
        bounds: e.bounds,
        clickable: e.clickable,
        focusable: e.focusable,
        checkable: e.checkable,
        scrollable: e.scrollable,
        semantic_type,
    }
}

// ---------------------------------------------------------------------------
// Screen context
// ---------------------------------------------------------------------------

/// Whether the screen context keeps an element: every element when all are
/// asked for, else those one can act on or with text.
pub open spec fn in_context(include_all: bool, e: UiElement) -> bool {
    include_all || e.clickable || e.focusable || e.checkable || e.scrollable || e.text@.len() > 0
}

/// Integer halving that rounds toward zero, as Rust's `/ 2` does.
pub open spec fn half(n: int) -> int {
    if n >= 0 {
        n / 2
    } else {
        -((-n) / 2)
    }
}

/// The coordinate sums of the centre fit in `i32`.
pub open spec fn center_fits(b: Bounds) -> bool {
    i32::MIN <= b.left + b.right <= i32::MAX && i32::MIN <= b.top + b.bottom <= i32::MAX
}

/// Centre of bounds.
pub open spec fn center_spec(b: Bounds) -> (i32, i32) {
    (half(b.left + b.right) as i32, half(b.top + b.bottom) as i32)
}

/// An element of the screen context: its summary and, when it has bounds, its
/// centre.
#[derive(Debug)]
pub struct ContextElement {
    pub summary: ElementSummary,
    pub center: Option<(i32, i32)>,
}

/// The context elements made of the elements kept.
pub open spec fn context_spec(es: Seq<UiElement>, include_all: bool, out: Seq<ContextElement>) -> bool
    decreases es.len(),
{
    if es.len() == 0 {
        out.len() == 0
    } else if in_context(include_all, es.last()) {
        out.len() > 0 && context_spec(es.drop_last(), include_all, out.drop_last())
            && is_summary_of(out.last().summary, es.last()) && out.last().center == match es.last().bounds {
            Some(b) => Some(center_spec(b)),
            None => None,
        }
    } else {
        context_spec(es.drop_last(), include_all, out)
    }
}

/// Every element with bounds has a centre that fits in `i32`.
pub open spec fn centers_fit_spec(es: Seq<UiElement>) -> bool {
    forall|i: int| 0 <= i < es.len() ==> match #[trigger] es[i].bounds {
        Some(b) => center_fits(b),
        None => true,
    }
}

fn half_i64(n: i64) -> (r: i64)
    requires
        n > i64::MIN,
    ensures
        r == half(n as int),
{
    if n >= 0 {
        n / 2
    } else {
        -((-n) / 2)
    }
}

/// The centre of bounds (see `center_spec`).
pub fn element_center(b: Bounds) -> (r: (i32, i32))
    requires
        center_fits(b),
    ensures
        r == center_spec(b),
{
    let x = half_i64(b.left as i64 + b.right as i64);
    let y = half_i64(b.top as i64 + b.bottom as i64);
    (x as i32, y as i32)
}

/// Whether every element's centre can be computed (see `centers_fit_spec`).
pub fn centers_fit(elements: &Vec<UiElement>) -> (r: bool)
    ensures
        r == centers_fit_spec(elements@),
{
    let mut i: usize = 0;
    while i < elements.len()
        invariant
            i <= elements@.len(),
            forall|j: int| 0 <= j < i ==> match #[trigger] elements@[j].bounds {
                Some(b) => center_fits(b),
                None => true,
            },
        decreases elements@.len() - i,
    {
        match elements[i].bounds {
            Some(b) => {
                let sx = b.left as i64 + b.right as i64;
                let sy = b.top as i64 + b.bottom as i64;
                if sx < i32::MIN as i64 || sx > i32::MAX as i64 || sy < i32::MIN as i64 || sy
                    > i32::MAX as i64 {
                    return false;
                }
            },
            None => {},
        }
        i = i + 1;
    }
    true
}

/// The elements of the screen context: those kept (see `in_context`), each
/// with its summary and centre.
pub fn screen_context_elements(elements: &Vec<UiElement>, include_all: bool) -> (r: Vec<ContextElement>)
    requires
        centers_fit_spec(elements@),
    ensures
        context_spec(elements@, include_all, r@),
{
    let mut r: Vec<ContextElement> = Vec::new();
    let mut i: usize = 0;
    while i < elements.len()
        invariant
            i <= elements@.len(),
            centers_fit_spec(elements@),
            context_spec(elements@.take(i as int), include_all, r@),
        decreases elements@.len() - i,
    {
        let e = &elements[i];
        proof {
            assert(elements@.take(i + 1).drop_last() == elements@.take(i as int));
            assert(elements@.take(i + 1).last() == elements@[i as int]);
        }
        if include_all || e.clickable || e.focusable || e.checkable || e.scrollable
            || e.text.as_str().unicode_len() > 0 {
            let center = match e.bounds {
                Some(b) => {
                    assert(match elements@[i as int].bounds {
                        Some(b) => center_fits(b),
                        None => true,
                    });
                    Some(element_center(b))
                },
                None => None,
            };
            let ghost before = r@;
            r.push(ContextElement { summary: format_element(e), center });
            assert(r@.drop_last() == before);
        }
        i = i + 1;
    }
    assert(elements@.take(elements@.len() as int) == elements@);
    r
}

// ---------------------------------------------------------------------------
// Accessibility audit
// ---------------------------------------------------------------------------

/// Smallest touch target, in pixels, in each direction (48dp at mdpi).
pub const MIN_TOUCH_TARGET: i32 = 96;

/// Kinds of accessibility problems.
#[derive(Debug, Clone, Copy, PartialEq, Eq, Structural)]
pub enum ViolationKind {
    /// A clickable element with neither text nor a content description.
    MissingLabel,
    /// A clickable element narrower or lower than the smallest touch target.
    SmallTouchTarget,
    /// A clickable element that cannot take focus.
    NotKeyboardAccessible,
}

/// A problem found in the element at `index`, with the element's size.
#[derive(Debug, Clone, Copy, PartialEq, Eq, Structural)]
pub struct Violation {
    pub kind: ViolationKind,
    pub index: usize,
    pub width: i32,
    pub height: i32,
}

/// The result of an audit.
#[derive(Debug)]
pub struct AuditReport {
    /// Number of elements in the tree.
    pub total_elements: usize,
    /// Number of clickable elements.
    pub interactive_elements: usize,
    /// The problems found, element by element in tree order, and for each
    /// element in the order label, size, focus.
    pub violations: Vec<Violation>,
}

/// Width and height of every clickable element with bounds fit in `i32`.
pub open spec fn audit_fits_spec(es: Seq<UiElement>) -> bool {
    forall|i: int| 0 <= i < es.len() ==> (#[trigger] es[i].clickable ==> match es[i].bounds {
        Some(b) => i32::MIN <= b.right - b.left <= i32::MAX && i32::MIN <= b.bottom - b.top
            <= i32::MAX,
        None => true,
    })
}

/// The problems of the element at index `i`.
pub open spec fn element_violations(e: UiElement, i: int) -> Seq<Violation> {
    if !e.clickable {
        Seq::empty()
    } else {
        match e.bounds {
            None => Seq::empty(),
            Some(b) => {
                let w = (b.right - b.left) as i32;
                let h = (b.bottom - b.top) as i32;
                let v = |k: ViolationKind| Violation { kind: k, index: i as usize, width: w, height: h };
                (if e.text@.len() == 0 && e.content_description@.len() == 0 {
                    seq![v(ViolationKind::MissingLabel)]
                } else {
                    Seq::empty()
                }) + (if w < MIN_TOUCH_TARGET || h < MIN_TOUCH_TARGET {
                    seq![v(ViolationKind::SmallTouchTarget)]
                } else {
                    Seq::empty()
                }) + (if !e.focusable {
                    seq![v(ViolationKind::NotKeyboardAccessible)]
                } else {
                    Seq::empty()
                })
            },
        }
    }
}

/// The problems of the first elements, in order.
pub open spec fn audit_spec(es: Seq<UiElement>) -> Seq<Violation>
    decreases es.len(),
{
    if es.len() == 0 {
        Seq::empty()
    } else {
        audit_spec(es.drop_last()) + element_violations(es.last(), es.len() - 1)
    }
}

/// Number of clickable elements.
pub open spec fn clickable_count(es: Seq<UiElement>) -> nat
    decreases es.len(),
{
    if es.len() == 0 {
        0
    } else {
        clickable_count(es.drop_last()) + if es.last().clickable {
            1nat
        } else {
            0nat
        }
    }
}

proof fn lemma_clickable_count_bound(es: Seq<UiElement>)
    ensures
        clickable_count(es) <= es.len(),
    decreases es.len(),
{
    if es.len() > 0 {
        lemma_clickable_count_bound(es.drop_last());
    }
}

proof fn lemma_audit_indices(es: Seq<UiElement>)
    ensures
        forall|j: int| 0 <= j < audit_spec(es).len() ==> (#[trigger] audit_spec(es)[j]).index < es.len(),
    decreases es.len(),
{
    if es.len() > 0 {
        let d = es.drop_last();
        lemma_audit_indices(d);
        let a = audit_spec(d);
        let ev = element_violations(es.last(), es.len() - 1);
        assert forall|j: int| 0 <= j < audit_spec(es).len() implies (#[trigger] audit_spec(es)[j]).index < es.len() by {
            if j < a.len() {
                assert(audit_spec(es)[j] == a[j]);
            } else {
                assert(audit_spec(es)[j] == ev[j - a.len()]);
            }
        }
    }
}

proof fn lemma_element_violations(e: UiElement, i: int)
    requires
        0 <= i <= usize::MAX,
        e.clickable ==> match e.bounds {
            Some(b) => i32::MIN <= b.right - b.left <= i32::MAX && i32::MIN <= b.bottom - b.top <= i32::MAX,
            None => true,
        },
    ensures
        forall|x: int| 0 <= x < element_violations(e, i).len() ==> (#[trigger] element_violations(e, i)[x]).index
            == i,
        e.clickable && e.bounds is Some ==> ((exists|x: int| 0 <= x < element_violations(e, i).len()
            && (#[trigger] element_violations(e, i)[x]).kind == ViolationKind::SmallTouchTarget) == (
        e.bounds->0.right - e.bounds->0.left < 96 || e.bounds->0.bottom - e.bounds->0.top < 96)),
{
    let ev = element_violations(e, i);
    if e.clickable && e.bounds is Some {
        let b = e.bounds->0;
        let w = (b.right - b.left) as i32;
        let h = (b.bottom - b.top) as i32;
        assert(w == b.right - b.left && h == b.bottom - b.top);
        let v = |k: ViolationKind| Violation { kind: k, index: i as usize, width: w, height: h };
        let p1: Seq<Violation> = if e.text@.len() == 0 && e.content_description@.len() == 0 {
            seq![v(ViolationKind::MissingLabel)]
        } else {
            Seq::empty()
        };
        let p2: Seq<Violation> = if w < MIN_TOUCH_TARGET || h < MIN_TOUCH_TARGET {
            seq![v(ViolationKind::SmallTouchTarget)]
        } else {
            Seq::empty()
        };
        let p3: Seq<Violation> = if !e.focusable {
            seq![v(ViolationKind::NotKeyboardAccessible)]
        } else {
            Seq::empty()
        };
        assert(ev == p1 + p2 + p3);
        assert forall|x: int| 0 <= x < ev.len() implies (#[trigger] ev[x]).index == i by {
            if x < p1.len() {
                assert(ev[x] == p1[x]);
            } else if x < p1.len() + p2.len() {
                assert(ev[x] == p2[x - p1.len()]);
            } else {
                assert(ev[x] == p3[x - p1.len() - p2.len()]);
            }
        }
        if exists|x: int| 0 <= x < ev.len() && (#[trigger] ev[x]).kind == ViolationKind::SmallTouchTarget {
            let x = choose|x: int| 0 <= x < ev.len() && (#[trigger] ev[x]).kind == ViolationKind::SmallTouchTarget;
            if x < p1.len() {
                assert(ev[x] == p1[x]);
            } else if x < p1.len() + p2.len() {
                assert(ev[x] == p2[x - p1.len()]);
            } else {
                assert(ev[x] == p3[x - p1.len() - p2.len()]);
            }
        }
        if w < MIN_TOUCH_TARGET || h < MIN_TOUCH_TARGET {
            assert(ev[p1.len() as int] == p2[0]);
        }
    } else {
        assert(ev.len() == 0);
    }
}

/// A clickable element with bounds is reported as a small touch target
/// exactly when its width or its height (either one) is below 96 pixels.
pub proof fn lemma_small_target_reported(es: Seq<UiElement>, i: int)
    requires
        audit_fits_spec(es),
        es.len() <= usize::MAX,
        0 <= i < es.len(),
        es[i].clickable,
        es[i].bounds is Some,
    ensures
        (exists|j: int| 0 <= j < audit_spec(es).len() && (#[trigger] audit_spec(es)[j]).kind
            == ViolationKind::SmallTouchTarget && audit_spec(es)[j].index == i) == (es[i].bounds->0.right
            - es[i].bounds->0.left < 96 || es[i].bounds->0.bottom - es[i].bounds->0.top < 96),
    decreases es.len(),
{
    let d = es.drop_last();
    let a = audit_spec(d);
    let last = es.len() - 1;
    let ev = element_violations(es.last(), last);
    let r = audit_spec(es);
    assert(r == a + ev);
    assert(es[last] == es.last());
    assert(es[last].clickable ==> match es[last].bounds {
        Some(b) => i32::MIN <= b.right - b.left <= i32::MAX && i32::MIN <= b.bottom - b.top <= i32::MAX,
        None => true,
    });
    lemma_element_violations(es.last(), last);
    assert(es[i].clickable ==> match es[i].bounds {
        Some(b) => i32::MIN <= b.right - b.left <= i32::MAX && i32::MIN <= b.bottom - b.top <= i32::MAX,
        None => true,
    });
    let small_r = exists|j: int| 0 <= j < r.len() && (#[trigger] r[j]).kind == ViolationKind::SmallTouchTarget
        && r[j].index == i;
    let small_a = exists|j: int| 0 <= j < a.len() && (#[trigger] a[j]).kind == ViolationKind::SmallTouchTarget
        && a[j].index == i;
    let small_e = exists|x: int| 0 <= x < ev.len() && (#[trigger] ev[x]).kind == ViolationKind::SmallTouchTarget;
    if small_r {
        let j = choose|j: int| 0 <= j < r.len() && (#[trigger] r[j]).kind == ViolationKind::SmallTouchTarget
            && r[j].index == i;
        if j < a.len() {
            assert(r[j] == a[j]);
            assert(small_a);
        } else {
            assert(r[j] == ev[j - a.len()]);
            assert(small_e);
            assert(ev[j - a.len()].index == last);
        }
    }
    if small_a {
        let j = choose|j: int| 0 <= j < a.len() && (#[trigger] a[j]).kind == ViolationKind::SmallTouchTarget
            && a[j].index == i;
        assert(r[j] == a[j]);
    }
    if i < last {
        assert(audit_fits_spec(d)) by {
            assert forall|k: int| 0 <= k < d.len() && #[trigger] d[k].clickable implies match d[k].bounds {
                Some(b) => i32::MIN <= b.right - b.left <= i32::MAX && i32::MIN <= b.bottom - b.top <= i32::MAX,
                None => true,
            } by {
                assert(d[k] == es[k]);
                assert(es[k].clickable ==> match es[k].bounds {
                    Some(b) => i32::MIN <= b.right - b.left <= i32::MAX && i32::MIN <= b.bottom - b.top <= i32::MAX,
                    None => true,
                });
            }
        }
        lemma_small_target_reported(d, i);
        assert(d[i] == es[i]);
        if small_e {
            let x = choose|x: int| 0 <= x < ev.len() && (#[trigger] ev[x]).kind == ViolationKind::SmallTouchTarget;
            assert(ev[x].index == last);
        }
        assert(small_r == small_a);
    } else {
        lemma_audit_indices(d);
        if small_a {
            let j = choose|j: int| 0 <= j < a.len() && (#[trigger] a[j]).kind == ViolationKind::SmallTouchTarget
                && a[j].index == i;
            assert(a[j].index < d.len());
        }
        if small_e {
            let x = choose|x: int| 0 <= x < ev.len() && (#[trigger] ev[x]).kind == ViolationKind::SmallTouchTarget;
            assert(ev[x].index == last);
            assert(r[a.len() + x] == ev[x]);
        }
        assert(small_r == small_e);
    }
}

/// Whether the sizes of the clickable elements can be computed (see
/// `audit_fits_spec`).
pub fn audit_fits(elements: &Vec<UiElement>) -> (r: bool)
    ensures
        r == audit_fits_spec(elements@),
{
    let mut i: usize = 0;
    while i < elements.len()
        invariant
            i <= elements@.len(),
            forall|j: int| 0 <= j < i ==> (#[trigger] elements@[j].clickable ==> match elements@[j].bounds {
                Some(b) => i32::MIN <= b.right - b.left <= i32::MAX && i32::MIN <= b.bottom - b.top
                    <= i32::MAX,
                None => true,
            }),
        decreases elements@.len() - i,
    {
        if elements[i].clickable {
            match elements[i].bounds {
                Some(b) => {
                    let w = b.right as i64 - b.left as i64;
                    let h = b.bottom as i64 - b.top as i64;
                    if w < i32::MIN as i64 || w > i32::MAX as i64 || h < i32::MIN as i64 || h
                        > i32::MAX as i64 {
                        return false;
                    }
                },
                None => {},
            }
        }
        i = i + 1;
    }
    true
}

/// Audit the elements of a tree for accessibility problems (see
/// `audit_spec`).
pub fn accessibility_audit(elements: &Vec<UiElement>) -> (r: AuditReport)
    requires
        audit_fits_spec(elements@),
    ensures
        r.total_elements == elements@.len(),
        r.interactive_elements == clickable_count(elements@),
        r.violations@ == audit_spec(elements@),
{
    let mut violations: Vec<Violation> = Vec::new();
    let mut interactive: usize = 0;
    let mut i: usize = 0;
    while i < elements.len()
        invariant
            i <= elements@.len(),
            audit_fits_spec(elements@),
            violations@ == audit_spec(elements@.take(i as int)),
            interactive == clickable_count(elements@.take(i as int)),
        decreases elements@.len() - i,
    {
        let e = &elements[i];
        proof {
            assert(elements@.take(i + 1).drop_last() == elements@.take(i as int));
            assert(elements@.take(i + 1).last() == elements@[i as int]);
            lemma_clickable_count_bound(elements@.take(i as int));
        }
        if e.clickable {
            interactive = interactive + 1;
            match e.bounds {
                Some(b) => {
                    assert(elements@[i as int].clickable);
                    let w = b.right - b.left;
                    let h = b.bottom - b.top;
                    let ghost before = violations@;
                    if e.text.as_str().unicode_len() == 0 && e.content_description.as_str().unicode_len() == 0 {
                        violations.push(Violation { kind: ViolationKind::MissingLabel, index: i, width: w, height: h });
                    }
                    if w < MIN_TOUCH_TARGET || h < MIN_TOUCH_TARGET {
                        violations.push(Violation { kind: ViolationKind::SmallTouchTarget, index: i, width: w, height: h });
                    }
                    if !e.focusable {
                        violations.push(Violation { kind: ViolationKind::NotKeyboardAccessible, index: i, width: w, height: h });
                    }
                    assert(violations@ =~= before + element_violations(*e, i as int));
                },
                None => {},
            }
        }
        i = i + 1;
    }
    assert(elements@.take(elements@.len() as int) == elements@);
    AuditReport { total_elements: elements.len(), interactive_elements: interactive, violations }
}

} // verus!

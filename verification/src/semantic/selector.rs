//! Selector parser: turns selector strings into `Selector` values.
//!
//! Syntax:
//! - `text="Login"` matches by exact text;
//! - `text~="login"` matches by partial text (case-insensitive);
//! - either text form may end with `[visible=true]` or `[visible=false]`,
//!   which sets whether only visible elements match, as in
//!   `text="Login"[visible=true]`;
//! - `"Login"` matches by text (partial match);
//! - `#login_button` matches by resource ID;
//! - `.Button` matches by class name;
//! - `[attr="value"]` matches by one attribute (`text`, `resourceId`/`resource_id`,
//!   `contentDescription`/`content_desc`, `className`/`class_name`,
//!   `elementId`/`element_id`).

use vstd::prelude::*;
use crate::protocol::pb::{default_selector_view, Selector, SelectorView};
use crate::text::{
    chars_eq_str, chars_of, drop_leading, drop_leading_set_exec, ends_with, find_char, find_char_from,
    find_char_from_exec, push_str, starts_with_exec, in_set, lemma_find_char_from_bounds, starts_with, string_from_chars, sub_chars,
    drop_trailing, is_whitespace, trim, trim_by, trim_exec, trim_set_exec,
};

verus! {

/// Why a selector string was refused.
#[derive(Debug)]
pub enum SelectorError {
    /// The string has none of the recognised forms (the string is attached).
    InvalidSyntax(String),
    /// An attribute selector without `=` (the string is attached).
    InvalidAttributeSelector(String),
    /// An attribute name that is not recognised (the name is attached).
    UnknownAttribute(String),
}

/// The three ways parsing can fail, with the text each reports.
pub enum SelectorErrorView {
    InvalidSyntax(Seq<char>),
    InvalidAttributeSelector(Seq<char>),
    UnknownAttribute(Seq<char>),
}

impl View for SelectorError {
    type V = SelectorErrorView;

    open spec fn view(&self) -> SelectorErrorView {
        match self {
            SelectorError::InvalidSyntax(s) => SelectorErrorView::InvalidSyntax(s@),
            SelectorError::InvalidAttributeSelector(s) => SelectorErrorView::InvalidAttributeSelector(s@),
            SelectorError::UnknownAttribute(s) => SelectorErrorView::UnknownAttribute(s@),
        }
    }
}

/// The text of a parse error.
pub open spec fn selector_error_message(e: SelectorErrorView) -> Seq<char> {
    match e {
        SelectorErrorView::InvalidSyntax(s) => "Invalid selector syntax: "@ + s,
        SelectorErrorView::InvalidAttributeSelector(s) => "Invalid attribute selector: "@ + s,
        SelectorErrorView::UnknownAttribute(a) => "Unknown attribute: "@ + a,
    }
}

impl SelectorError {
    /// The error's text (see `selector_error_message`).
    pub fn message(&self) -> (r: String)
        ensures
            r@ == selector_error_message(self@),
    {
        let mut m: Vec<char> = Vec::new();
        match self {
            SelectorError::InvalidSyntax(s) => {
                push_str(&mut m, "Invalid selector syntax: ");
                push_str(&mut m, s.as_str());
            },
            SelectorError::InvalidAttributeSelector(s) => {
                push_str(&mut m, "Invalid attribute selector: ");
                push_str(&mut m, s.as_str());
            },
            SelectorError::UnknownAttribute(a) => {
                push_str(&mut m, "Unknown attribute: ");
                push_str(&mut m, a.as_str());
            },
        }
        string_from_chars(m.as_slice())
    }
}

/// Result of parsing, seen as values.
pub open spec fn parse_result_view(r: Result<Selector, SelectorError>) -> Result<SelectorView, SelectorErrorView> {
    match r {
        Ok(s) => Ok(s@),
        Err(e) => Err(e@),
    }
}

/// Which selector field an attribute name sets: 0 text, 1 resource ID,
/// 2 content description, 3 class name, 4 element ID.
pub open spec fn attribute_field(attr: Seq<char>) -> Option<int> {
    if attr == "text"@ {
        Some(0)
    } else if attr == "resourceId"@ || attr == "resource_id"@ {
        Some(1)
    } else if attr == "contentDescription"@ || attr == "content_desc"@ {
        Some(2)
    } else if attr == "className"@ || attr == "class_name"@ {
        Some(3)
    } else if attr == "elementId"@ || attr == "element_id"@ {
        Some(4)
    } else {
        None
    }
}

/// The default selector with field number `field` set to `value`.
pub open spec fn selector_with_field(field: int, value: Seq<char>) -> SelectorView {
    let d = default_selector_view();
    if field == 0 {
        SelectorView { text: value, ..d }
    } else if field == 1 {
        SelectorView { resource_id: value, ..d }
    } else if field == 2 {
        SelectorView { content_desc: value, ..d }
    } else if field == 3 {
        SelectorView { class_name: value, ..d }
    } else {
        SelectorView { element_id: value, ..d }
    }
}

/// Attribute selector `[attr="value"]`: strip brackets from both ends, split at
/// the first `=`, trim both sides, strip quotes from the value.
pub open spec fn parse_attribute_spec(s: Seq<char>) -> Result<SelectorView, SelectorErrorView> {
    let inner = trim_by(s, in_set(seq!['[', ']']));
    match find_char(inner, '=') {
        None => Err(SelectorErrorView::InvalidAttributeSelector(s)),
        Some(k) => {
            let attr = trim(inner.take(k));
            let value = trim_by(trim(inner.skip(k + 1)), in_set(seq!['"']));
            match attribute_field(attr) {
                Some(f) => Ok(selector_with_field(f, value)),
                None => Err(SelectorErrorView::UnknownAttribute(attr)),
            }
        },
    }
}

/// The text forms `text="value"` (exact) and `text~="value"` (partial): the
/// value runs to the next `"`, and may be followed by `[visible=true]` or
/// `[visible=false]`; `None` when the string is not of these forms.
pub open spec fn text_form_spec(s: Seq<char>) -> Option<SelectorView> {
    let partial = starts_with(s, "text~=\""@);
    let exact = starts_with(s, "text=\""@);
    if !partial && !exact {
        None
    } else {
        let start: int = if partial { 7 } else { 6 };
        match find_char_from(s, '"', start) {
            None => None,
            Some(q) => {
                let base = SelectorView { text: s.subrange(start, q), exact_match: exact, ..default_selector_view() };
                let rest = s.skip(q + 1);
                if rest.len() == 0 {
                    Some(base)
                } else if rest == "[visible=true]"@ {
                    Some(SelectorView { visible_only: true, ..base })
                } else if rest == "[visible=false]"@ {
                    Some(SelectorView { visible_only: false, ..base })
                } else {
                    None
                }
            },
        }
    }
}

/// What `parse_selector` gives for a selector string.
pub open spec fn parse_selector_spec(s: Seq<char>) -> Result<SelectorView, SelectorErrorView> {
    if starts_with(s, seq!['"']) && ends_with(s, seq!['"']) {
        Ok(selector_with_field(0, trim_by(s, in_set(seq!['"']))))
    } else if starts_with(s, seq!['#']) {
        Ok(selector_with_field(1, drop_leading(s, in_set(seq!['#']))))
    } else if starts_with(s, seq!['.']) {
        Ok(selector_with_field(3, drop_leading(s, in_set(seq!['.']))))
    } else if starts_with(s, seq!['[']) && ends_with(s, seq![']']) {
        parse_attribute_spec(s)
    } else {
        match text_form_spec(s) {
            Some(v) => Ok(v),
            None => Err(SelectorErrorView::InvalidSyntax(s)),
        }
    }
}

/// A default selector with one field set.
fn selector_setting(field: u8, value: &[char]) -> (r: Selector)
    requires
        field <= 4,
    ensures
        r@ == selector_with_field(field as int, value@),
{
    let mut sel = Selector::default();
    let v = string_from_chars(value);
    if field == 0 {
        sel.text = v;
    } else if field == 1 {
        sel.resource_id = v;
    } else if field == 2 {
        sel.content_desc = v;
    } else if field == 3 {
        sel.class_name = v;
    } else {
        sel.element_id = v;
    }
    sel
}

/// The field number an attribute name sets, if it is recognised.
fn attribute_field_exec(attr: &[char]) -> (r: Option<u8>)
    ensures
        match attribute_field(attr@) {
            Some(f) => r == Some(f as u8),
            None => r is None,
        },
{
    if chars_eq_str(attr, "text") {
        Some(0)
    } else if chars_eq_str(attr, "resourceId") || chars_eq_str(attr, "resource_id") {
        Some(1)
    } else if chars_eq_str(attr, "contentDescription") || chars_eq_str(attr, "content_desc") {
        Some(2)
    } else if chars_eq_str(attr, "className") || chars_eq_str(attr, "class_name") {
        Some(3)
    } else if chars_eq_str(attr, "elementId") || chars_eq_str(attr, "element_id") {
        Some(4)
    } else {
        None
    }
}

/// Parse an attribute selector: `[attr="value"]`.
pub fn parse_attribute_selector(selector_str: &str) -> (r: Result<Selector, SelectorError>)
    ensures
        parse_result_view(r) == parse_attribute_spec(selector_str@),
{
    let s = chars_of(selector_str);
    let brackets = vec!['[', ']'];
    assert(brackets@ == seq!['[', ']']);
    let inner = trim_set_exec(s.as_slice(), brackets.as_slice());
    proof {
        lemma_find_char_from_bounds(inner@, '=', 0);
    }
    match find_char_from_exec(inner.as_slice(), '=', 0) {
        None => Err(SelectorError::InvalidAttributeSelector(string_from_chars(s.as_slice()))),
        Some(k) => {
            let n = inner.len();
            assert(k < n);
            let head = sub_chars(inner.as_slice(), 0, k);
            let tail = sub_chars(inner.as_slice(), k + 1, n);
            assert(head@ == inner@.take(k as int));
            assert(tail@ == inner@.skip(k + 1));
            let attr = trim_exec(head.as_slice());
            let value_trimmed = trim_exec(tail.as_slice());
            let quote = vec!['"'];
            assert(quote@ == seq!['"']);
            let value = trim_set_exec(value_trimmed.as_slice(), quote.as_slice());
            match attribute_field_exec(attr.as_slice()) {
                Some(f) => Ok(selector_setting(f, value.as_slice())),
                None => Err(SelectorError::UnknownAttribute(string_from_chars(attr.as_slice()))),
            }
        },
    }
}

/// Whether `s` starts with character `c`.
fn starts_with_char(s: &[char], c: char) -> (r: bool)
    ensures
        r == starts_with(s@, seq![c]),
{
    if s.len() == 0 {
        return false;
    }
    let r = s[0] == c;
    if r {
        assert(s@.take(1) =~= seq![c]);
    } else {
        assert(s@.take(1)[0] != seq![c][0]);
    }
    r
}

/// Whether `s` ends with character `c`.
fn ends_with_char(s: &[char], c: char) -> (r: bool)
    ensures
        r == ends_with(s@, seq![c]),
{
    if s.len() == 0 {
        return false;
    }
    let r = s[s.len() - 1] == c;
    if r {
        assert(s@.skip(s@.len() - 1) =~= seq![c]);
    } else {
        assert(s@.skip(s@.len() - 1)[0] != seq![c][0]);
    }
    r
}

/// Parse the text forms (see `text_form_spec`).
fn parse_text_form(s: &[char]) -> (r: Option<Selector>)
    ensures
        match text_form_spec(s@) {
            Some(v) => r matches Some(sel) && sel@ == v,
            None => r is None,
        },
{
    let p_partial = chars_of("text~=\"");
    let p_exact = chars_of("text=\"");
    proof {
        reveal_strlit("text~=\"");
        reveal_strlit("text=\"");
    }
    let partial = starts_with_exec(s, p_partial.as_slice());
    let exact = starts_with_exec(s, p_exact.as_slice());
    if !partial && !exact {
        return None;
    }
    let start: usize = if partial { 7 } else { 6 };
    assert(start <= s@.len()) by {
        if partial {
            assert(s@.take(7).len() == 7);
        } else {
            assert(s@.take(6).len() == 6);
        }
    }
    proof {
        lemma_find_char_from_bounds(s@, '"', start as int);
    }
    let q = match find_char_from_exec(s, '"', start) {
        None => {
            return None;
        },
        Some(q) => q,
    };
    assert(start <= q < s@.len());
    let n = s.len();
    assert(q < n);
    let value = sub_chars(s, start, q);
    let rest = sub_chars(s, q + 1, n);
    assert(rest@ == s@.skip(q + 1));
    let mut sel = Selector::default();
    sel.text = string_from_chars(value.as_slice());
    sel.exact_match = exact;
    if rest.len() == 0 {
        Some(sel)
    } else if chars_eq_str(rest.as_slice(), "[visible=true]") {
        sel.visible_only = true;
        Some(sel)
    } else if chars_eq_str(rest.as_slice(), "[visible=false]") {
        sel.visible_only = false;
        Some(sel)
    } else {
        None
    }
}

/// Parse a selector string into a `Selector`.
pub fn parse_selector(selector_str: &str) -> (r: Result<Selector, SelectorError>)
    ensures
        parse_result_view(r) == parse_selector_spec(selector_str@),
{
    let s = chars_of(selector_str);
    if starts_with_char(s.as_slice(), '"') && ends_with_char(s.as_slice(), '"') {
        let quote = vec!['"'];
        assert(quote@ == seq!['"']);
        let text = trim_set_exec(s.as_slice(), quote.as_slice());
        return Ok(selector_setting(0, text.as_slice()));
    }
    if starts_with_char(s.as_slice(), '#') {
        let hash = vec!['#'];
        assert(hash@ == seq!['#']);
        let id = drop_leading_set_exec(s.as_slice(), hash.as_slice());
        return Ok(selector_setting(1, id.as_slice()));
    }
    if starts_with_char(s.as_slice(), '.') {
        let dot = vec!['.'];
        assert(dot@ == seq!['.']);
        let class = drop_leading_set_exec(s.as_slice(), dot.as_slice());
        return Ok(selector_setting(3, class.as_slice()));
    }
    if starts_with_char(s.as_slice(), '[') && ends_with_char(s.as_slice(), ']') {
        return parse_attribute_selector(selector_str);
    }
    match parse_text_form(s.as_slice()) {
        Some(sel) => Ok(sel),
        None => Err(SelectorError::InvalidSyntax(string_from_chars(s.as_slice()))),
    }
}

/// Builder for constructing selectors programmatically.
pub struct SelectorBuilder {
    selector: Selector,
}

impl View for SelectorBuilder {
    type V = SelectorView;

    /// The selector built so far.
    closed spec fn view(&self) -> SelectorView {
        self.selector@
    }
}

impl SelectorBuilder {
    /// Create a builder holding the default selector.
    pub fn new() -> (b: SelectorBuilder)
        ensures
            b@ == default_selector_view(),
    {
        SelectorBuilder { selector: Selector::default() }
    }

    /// Set the text criterion.
    pub fn text(self, text: &str) -> (b: SelectorBuilder)
        ensures
            b@ == (SelectorView { text: text@, ..self@ }),
    {
        let mut s = self;
        s.selector.text = text.to_owned();
        s
    }

    /// Set the resource ID criterion.
    pub fn resource_id(self, id: &str) -> (b: SelectorBuilder)
        ensures
            b@ == (SelectorView { resource_id: id@, ..self@ }),
    {
        let mut s = self;
        s.selector.resource_id = id.to_owned();
        s
    }

    /// Set the content description criterion.
    pub fn content_desc(self, desc: &str) -> (b: SelectorBuilder)
        ensures
            b@ == (SelectorView { content_desc: desc@, ..self@ }),
    {
        let mut s = self;
        s.selector.content_desc = desc.to_owned();
        s
    }

    /// Set the class name criterion.
    pub fn class_name(self, class: &str) -> (b: SelectorBuilder)
        ensures
            b@ == (SelectorView { class_name: class@, ..self@ }),
    {
        let mut s = self;
        s.selector.class_name = class.to_owned();
        s
    }

    /// Set the element ID criterion.
    pub fn element_id(self, id: &str) -> (b: SelectorBuilder)
        ensures
            b@ == (SelectorView { element_id: id@, ..self@ }),
    {
        let mut s = self;
        s.selector.element_id = id.to_owned();
        s
    }

    /// Set the exact-match flag.
    pub fn exact_match(self, exact: bool) -> (b: SelectorBuilder)
        ensures
            b@ == (SelectorView { exact_match: exact, ..self@ }),
    {
        let mut s = self;
        s.selector.exact_match = exact;
        s
    }

    /// Set the visible-only flag.
    pub fn visible_only(self, visible: bool) -> (b: SelectorBuilder)
        ensures
            b@ == (SelectorView { visible_only: visible, ..self@ }),
    {
        let mut s = self;
        s.selector.visible_only = visible;
        s
    }

    /// Set the enabled-only flag.
    pub fn enabled_only(self, enabled: bool) -> (b: SelectorBuilder)
        ensures
            b@ == (SelectorView { enabled_only: enabled, ..self@ }),
    {
        let mut s = self;
        s.selector.enabled_only = enabled;
        s
    }

    /// Set which match to pick.
    pub fn index(self, index: i32) -> (b: SelectorBuilder)
        ensures
            b@ == (SelectorView { index: index, ..self@ }),
    {
        let mut s = self;
        s.selector.index = index;
        s
    }

    /// The selector built.
    pub fn build(self) -> (s: Selector)
        ensures
            s@ == self@,
    {
        self.selector
    }
}

impl Default for SelectorBuilder {
    fn default() -> (b: SelectorBuilder)
        ensures
            b@ == default_selector_view(),
    {
        SelectorBuilder::new()
    }
}

// ---------------------------------------------------------------------------
// Laws of the attribute form
// ---------------------------------------------------------------------------

proof fn lemma_find_after_prefix(name: Seq<char>, r: Seq<char>, c: char, from: int)
    requires
        0 <= from <= name.len(),
        find_char_from(name, c, from) is None,
        r.len() > 0,
        r[0] == c,
    ensures
        find_char_from(name + r, c, from) == Some(name.len() as int),
    decreases name.len() - from,
{
    let s = name + r;
    if from < name.len() {
        assert(s[from] == name[from]);
        lemma_find_char_from_bounds(name, c, from);
        lemma_find_after_prefix(name, r, c, from + 1);
    } else {
        assert(s[from] == r[0]);
    }
}

/// The attribute form `[name="value"]` sets the field the name stands for to
/// the value, for every name without `=` that neither starts with a bracket
/// nor starts or ends with white space, and every value without quotes; an
/// unknown name is refused with that name.
pub proof fn lemma_attribute_form(name: Seq<char>, v: Seq<char>)
    requires
        name.len() > 0,
        find_char(name, '=') is None,
        !is_whitespace(name[0]),
        !is_whitespace(name.last()),
        name[0] != '[',
        name[0] != ']',
        !v.contains('"'),
    ensures
        parse_selector_spec(seq!['['] + name + seq!['=', '"'] + v + seq!['"', ']']) == match attribute_field(name) {
            Some(f) => Ok::<SelectorView, SelectorErrorView>(selector_with_field(f, v)),
            None => Err::<SelectorView, SelectorErrorView>(SelectorErrorView::UnknownAttribute(name)),
        },
{
    let s = seq!['['] + name + seq!['=', '"'] + v + seq!['"', ']'];
    let br = in_set(seq!['[', ']']);
    let qt = in_set(seq!['"']);
    let ws = |c: char| is_whitespace(c);
    // The recognised shapes.
    assert(s[0] == '[');
    assert(s.take(1) =~= seq!['[']);
    assert(!starts_with(s, seq!['"']));
    assert(!starts_with(s, seq!['#']));
    assert(!starts_with(s, seq!['.']));
    assert(starts_with(s, seq!['[']));
    assert(s.skip(s.len() - 1) =~= seq![']']);
    assert(ends_with(s, seq![']']));
    // Brackets off.
    let x = name + seq!['=', '"'] + v + seq!['"', ']'];
    let y = name + seq!['=', '"'] + v + seq!['"'];
    assert(s.drop_first() =~= x);
    assert(x[0] == name[0]);
    assert(!seq!['[', ']'].contains(name[0])) by {
        if seq!['[', ']'].contains(name[0]) {
            let j = choose|j: int| 0 <= j < 2 && seq!['[', ']'][j] == name[0];
        }
    }
    assert(drop_leading(x, br) == x);
    assert(br(s[0]));
    assert(drop_leading(s, br) == x);
    assert(x.drop_last() =~= y);
    assert(y.last() == '"');
    assert(!seq!['[', ']'].contains('"')) by {
        if seq!['[', ']'].contains('"') {
            let j = choose|j: int| 0 <= j < 2 && seq!['[', ']'][j] == '"';
        }
    }
    assert(drop_trailing(y, br) == y);
    assert(br(x.last()));
    assert(drop_trailing(x, br) == y);
    let inner = trim_by(s, br);
    assert(inner == y);
    // The first `=` ends the name.
    let rest = seq!['=', '"'] + v + seq!['"'];
    assert(y =~= name + rest);
    lemma_find_after_prefix(name, rest, '=', 0);
    let k = name.len() as int;
    assert(find_char(inner, '=') == Some(k));
    assert(inner.take(k) =~= name);
    assert(drop_leading(name, ws) == name);
    assert(drop_trailing(name, ws) == name);
    assert(trim(inner.take(k)) == name);
    // The quotes off the value.
    let z = seq!['"'] + v + seq!['"'];
    assert(inner.skip(k + 1) =~= z);
    assert(!is_whitespace('"'));
    assert(z[0] == '"' && z.last() == '"');
    assert(drop_leading(z, ws) == z);
    assert(drop_trailing(z, ws) == z);
    assert(trim(z) == z);
    assert(qt('"'));
    let w = v + seq!['"'];
    assert(z.drop_first() =~= w);
    if v.len() > 0 {
        assert(!qt(v[0])) by {
            if qt(v[0]) {
                let j = choose|j: int| 0 <= j < 1 && seq!['"'][j] == v[0];
                assert(v.contains(v[0]));
            }
        }
        assert(w[0] == v[0]);
        assert(drop_leading(w, qt) == w);
        assert(drop_leading(z, qt) == w);
        assert(w.drop_last() =~= v);
        assert(!qt(v.last())) by {
            if qt(v.last()) {
                let j = choose|j: int| 0 <= j < 1 && seq!['"'][j] == v.last();
                assert(v.contains(v[v.len() - 1]));
            }
        }
        assert(drop_trailing(v, qt) == v);
        assert(drop_trailing(w, qt) == v);
    } else {
        assert(w =~= seq!['"']);
        assert(w.drop_first() =~= Seq::<char>::empty());
        assert(drop_leading(w.drop_first(), qt) == Seq::<char>::empty());
        assert(drop_leading(w, qt) == Seq::<char>::empty());
        assert(drop_leading(z, qt) == Seq::<char>::empty());
        assert(drop_trailing(Seq::<char>::empty(), qt) == Seq::<char>::empty());
        assert(v =~= Seq::<char>::empty());
    }
    assert(trim_by(trim(inner.skip(k + 1)), qt) == v);
}

/// `[contentDescription="value"]` and `[content_desc="value"]` both parse
/// to the default selector with the content description set to the value,
/// for every value without quotes.
pub proof fn lemma_content_description_attribute(v: Seq<char>)
    requires
        !v.contains('"'),
    ensures
        parse_selector_spec(seq!['['] + "contentDescription"@ + seq!['=', '"'] + v + seq!['"', ']'])
            == Ok::<SelectorView, SelectorErrorView>(SelectorView { content_desc: v, ..default_selector_view() }),
        parse_selector_spec(seq!['['] + "content_desc"@ + seq!['=', '"'] + v + seq!['"', ']'])
            == Ok::<SelectorView, SelectorErrorView>(SelectorView { content_desc: v, ..default_selector_view() }),
{
    reveal_strlit("contentDescription");
    reveal_strlit("content_desc");
    reveal_strlit("text");
    reveal_strlit("resourceId");
    reveal_strlit("resource_id");
    assert("contentDescription"@.len() != "text"@.len());
    assert("contentDescription"@.len() != "resourceId"@.len());
    assert("contentDescription"@.len() != "resource_id"@.len());
    assert("content_desc"@.len() != "text"@.len());
    assert("content_desc"@.len() != "resourceId"@.len());
    assert("content_desc"@[1] != "resource_id"@[1]);
    assert(attribute_field("contentDescription"@) == Some(2int));
    assert(attribute_field("content_desc"@) == Some(2int));
    reveal_with_fuel(find_char_from, 20);
    assert(find_char("contentDescription"@, '=') is None);
    assert(find_char("content_desc"@, '=') is None);
    lemma_attribute_form("contentDescription"@, v);
    lemma_attribute_form("content_desc"@, v);
}

} // verus!

//! Parameter handling of the MCP tools: selector validation, the mapping of
//! names to protocol codes, the targets of gestures and the selectors of
//! queries.

use vstd::prelude::*;
use crate::protocol::pb::{Direction, GlobalAction, KeyCode, Selector, SelectorView};
use crate::protocol::pb::{EVENT_APP_CRASH, EVENT_NOTIFICATION_POSTED, EVENT_TOAST_SHOWN, EVENT_UI_CHANGE};
use crate::server::errors::{McpErrorCode, McpErrorInfo};
use crate::text::{chars_eq_str, lowercase, push_str, string_from_chars, to_lowercase_exec};

verus! {

// ---------------------------------------------------------------------------
// Selector validation
// ---------------------------------------------------------------------------

/// Message of the error for a selector with nothing to match on.
pub const SELECTOR_REQUIRED: &'static str = "Selector must have at least one non-empty field (text, resource_id, content_desc, class_name) or boolean filter (clickable, scrollable, focusable, long_clickable, checkable, checked)";

/// An optional string field that is given and not empty.
pub open spec fn has_content(f: Option<&String>) -> bool {
    match f {
        Some(s) => s@.len() > 0,
        None => false,
    }
}

/// Whether a selector has a non-empty string field or a boolean filter.
pub open spec fn selector_specified(
    text: Option<&String>,
    resource_id: Option<&String>,
    content_desc: Option<&String>,
    class_name: Option<&String>,
    clickable: Option<bool>,
    scrollable: Option<bool>,
    focusable: Option<bool>,
    long_clickable: Option<bool>,
    checkable: Option<bool>,
    checked: Option<bool>,
) -> bool {
    has_content(text) || has_content(resource_id) || has_content(content_desc) || has_content(
        class_name,
    ) || clickable is Some || scrollable is Some || focusable is Some || long_clickable is Some
        || checkable is Some || checked is Some
}

fn content_given(f: Option<&String>) -> (r: bool)
    ensures
        r == has_content(f),
{
    match f {
        Some(s) => s.as_str().unicode_len() > 0,
        None => false,
    }
}

/// The invalid-params error for an empty selector.
pub fn selector_required_error() -> (e: McpErrorInfo)
    ensures
        e.code == McpErrorCode::InvalidParams,
        e.message@ == SELECTOR_REQUIRED@,
{
    McpErrorInfo { code: McpErrorCode::InvalidParams, message: SELECTOR_REQUIRED.to_owned() }
}

/// Check that a selector has at least one non-empty string field or boolean
/// filter; fails with an invalid-params error otherwise.
pub fn validate_selector(
    text: Option<&String>,
    resource_id: Option<&String>,
    content_desc: Option<&String>,
    class_name: Option<&String>,
    clickable: Option<bool>,
    scrollable: Option<bool>,
    focusable: Option<bool>,
    long_clickable: Option<bool>,
    checkable: Option<bool>,
    checked: Option<bool>,
) -> (r: Result<(), McpErrorInfo>)
    ensures
        r is Ok <==> selector_specified(
            text,
            resource_id,
            content_desc,
            class_name,
            clickable,
            scrollable,
            focusable,
            long_clickable,
            checkable,
            checked,
        ),
        r matches Err(e) ==> (e.code == McpErrorCode::InvalidParams && e.message@ == SELECTOR_REQUIRED@),
{
    let has_text = content_given(text);
    let has_resource_id = content_given(resource_id);
    let has_content_desc = content_given(content_desc);
    let has_class_name = content_given(class_name);
    let has_boolean_filter = clickable.is_some() || scrollable.is_some() || focusable.is_some()
        || long_clickable.is_some() || checkable.is_some() || checked.is_some();
    if !has_text && !has_resource_id && !has_content_desc && !has_class_name && !has_boolean_filter {
        return Err(selector_required_error());
    }
    Ok(())
}

// ---------------------------------------------------------------------------
// Names of keys, actions, directions and event types
// ---------------------------------------------------------------------------

/// The key named by a lower-cased key name.
pub open spec fn key_code_of(lower: Seq<char>) -> Option<KeyCode> {
    if lower == "back"@ {
        Some(KeyCode::Back)
    } else if lower == "home"@ {
        Some(KeyCode::Home)
    } else if lower == "menu"@ {
        Some(KeyCode::Menu)
    } else if lower == "enter"@ || lower == "return"@ {
        Some(KeyCode::Enter)
    } else if lower == "delete"@ || lower == "del"@ || lower == "backspace"@ {
        Some(KeyCode::Delete)
    } else if lower == "tab"@ {
        Some(KeyCode::Tab)
    } else if lower == "space"@ {
        Some(KeyCode::Space)
    } else if lower == "volume_up"@ || lower == "volumeup"@ {
        Some(KeyCode::VolumeUp)
    } else if lower == "volume_down"@ || lower == "volumedown"@ {
        Some(KeyCode::VolumeDown)
    } else if lower == "power"@ {
        Some(KeyCode::Power)
    } else {
        None
    }
}

/// What follows the key name in the error for an unknown key.
pub const UNKNOWN_KEY_TAIL: &'static str = "'. Supported keys: back, home, menu, enter, delete, tab, space, volume_up, volume_down, power";

/// Map a key name, in any case, to its key code; an unknown name gives the
/// message the tool reports.
pub fn map_key_string_to_code(key: &str) -> (r: Result<KeyCode, String>)
    ensures
        match key_code_of(lowercase(key@)) {
            Some(c) => r matches Ok(k) && k == c,
            None => r matches Err(m) && m@ == "Unknown key: '"@ + key@ + UNKNOWN_KEY_TAIL@,
        },
{
    let lower = to_lowercase_exec(key);
    let l = lower.as_slice();
    if chars_eq_str(l, "back") {
        Ok(KeyCode::Back)
    } else if chars_eq_str(l, "home") {
        Ok(KeyCode::Home)
    } else if chars_eq_str(l, "menu") {
        Ok(KeyCode::Menu)
    } else if chars_eq_str(l, "enter") || chars_eq_str(l, "return") {
        Ok(KeyCode::Enter)
    } else if chars_eq_str(l, "delete") || chars_eq_str(l, "del") || chars_eq_str(l, "backspace") {
        Ok(KeyCode::Delete)
    } else if chars_eq_str(l, "tab") {
        Ok(KeyCode::Tab)
    } else if chars_eq_str(l, "space") {
        Ok(KeyCode::Space)
    } else if chars_eq_str(l, "volume_up") || chars_eq_str(l, "volumeup") {
        Ok(KeyCode::VolumeUp)
    } else if chars_eq_str(l, "volume_down") || chars_eq_str(l, "volumedown") {
        Ok(KeyCode::VolumeDown)
    } else if chars_eq_str(l, "power") {
        Ok(KeyCode::Power)
    } else {
        let mut m: Vec<char> = Vec::new();
        push_str(&mut m, "Unknown key: '");
        push_str(&mut m, key);
        push_str(&mut m, UNKNOWN_KEY_TAIL);
        Err(string_from_chars(m.as_slice()))
    }
}

/// The global action named by a lower-cased action name.
pub open spec fn global_action_of(lower: Seq<char>) -> Option<GlobalAction> {
    if lower == "back"@ {
        Some(GlobalAction::GlobalBack)
    } else if lower == "home"@ {
        Some(GlobalAction::GlobalHome)
    } else if lower == "recents"@ || lower == "recent"@ || lower == "recent_apps"@ {
        Some(GlobalAction::GlobalRecents)
    } else if lower == "notifications"@ || lower == "notification"@ {
        Some(GlobalAction::GlobalNotifications)
    } else if lower == "quick_settings"@ || lower == "quicksettings"@ {
        Some(GlobalAction::GlobalQuickSettings)
    } else if lower == "lock_screen"@ || lower == "lockscreen"@ || lower == "lock"@ {
        Some(GlobalAction::GlobalLockScreen)
    } else if lower == "screenshot"@ || lower == "take_screenshot"@ {
        Some(GlobalAction::GlobalTakeScreenshot)
    } else {
        None
    }
}

/// What follows the action name in the error for an unknown action.
pub const UNKNOWN_ACTION_TAIL: &'static str = "'. Supported actions: back, home, recents, notifications, quick_settings, lock_screen, screenshot";

/// Map an action name, in any case, to its global action; an unknown name
/// gives the message the tool reports.
pub fn map_action_string_to_code(action: &str) -> (r: Result<GlobalAction, String>)
    ensures
        match global_action_of(lowercase(action@)) {
            Some(c) => r matches Ok(a) && a == c,
            None => r matches Err(m) && m@ == "Unknown action: '"@ + action@ + UNKNOWN_ACTION_TAIL@,
        },
{
    let lower = to_lowercase_exec(action);
    let l = lower.as_slice();
    if chars_eq_str(l, "back") {
        Ok(GlobalAction::GlobalBack)
    } else if chars_eq_str(l, "home") {
        Ok(GlobalAction::GlobalHome)
    } else if chars_eq_str(l, "recents") || chars_eq_str(l, "recent") || chars_eq_str(
        l,
        "recent_apps",
    ) {
        Ok(GlobalAction::GlobalRecents)
    } else if chars_eq_str(l, "notifications") || chars_eq_str(l, "notification") {
        Ok(GlobalAction::GlobalNotifications)
    } else if chars_eq_str(l, "quick_settings") || chars_eq_str(l, "quicksettings") {
        Ok(GlobalAction::GlobalQuickSettings)
    } else if chars_eq_str(l, "lock_screen") || chars_eq_str(l, "lockscreen") || chars_eq_str(
        l,
        "lock",
    ) {
        Ok(GlobalAction::GlobalLockScreen)
    } else if chars_eq_str(l, "screenshot") || chars_eq_str(l, "take_screenshot") {
        Ok(GlobalAction::GlobalTakeScreenshot)
    } else {
        let mut m: Vec<char> = Vec::new();
        push_str(&mut m, "Unknown action: '");
        push_str(&mut m, action);
        push_str(&mut m, UNKNOWN_ACTION_TAIL);
        Err(string_from_chars(m.as_slice()))
    }
}

/// The direction named by a lower-cased direction name.
pub open spec fn direction_of(lower: Seq<char>) -> Option<Direction> {
    if lower == "up"@ {
        Some(Direction::Up)
    } else if lower == "down"@ {
        Some(Direction::Down)
    } else if lower == "left"@ {
        Some(Direction::Left)
    } else if lower == "right"@ {
        Some(Direction::Right)
    } else {
        None
    }
}

/// What follows the direction in the error for an unknown direction.
pub const UNKNOWN_DIRECTION_TAIL: &'static str = "'. Supported: up, down, left, right";

/// Map a direction name, in any case, to its direction; an unknown name gives
/// the message the fling tool reports.
pub fn parse_direction(direction: &str) -> (r: Result<Direction, String>)
    ensures
        match direction_of(lowercase(direction@)) {
            Some(d) => r matches Ok(x) && x == d,
            None => r matches Err(m) && m@ == "Invalid direction: '"@ + direction@
                + UNKNOWN_DIRECTION_TAIL@,
        },
{
    let lower = to_lowercase_exec(direction);
    let l = lower.as_slice();
    if chars_eq_str(l, "up") {
        Ok(Direction::Up)
    } else if chars_eq_str(l, "down") {
        Ok(Direction::Down)
    } else if chars_eq_str(l, "left") {
        Ok(Direction::Left)
    } else if chars_eq_str(l, "right") {
        Ok(Direction::Right)
    } else {
        let mut m: Vec<char> = Vec::new();
        push_str(&mut m, "Invalid direction: '");
        push_str(&mut m, direction);
        push_str(&mut m, UNKNOWN_DIRECTION_TAIL);
        Err(string_from_chars(m.as_slice()))
    }
}

/// The direction the scroll search flings in: the named one, `up` when none
/// is given, and `up` for an unknown name too.
pub open spec fn scroll_direction_spec(param: Option<Seq<char>>) -> Direction {
    match param {
        Some(p) => match direction_of(lowercase(p)) {
            Some(d) => d,
            None => Direction::Up,
        },
        None => Direction::Up,
    }
}

/// The direction of the scroll search (see `scroll_direction_spec`).
pub fn scroll_direction(param: Option<&str>) -> (r: Direction)
    ensures
        r == scroll_direction_spec(
            match param {
                Some(p) => Some(p@),
                None => None,
            },
        ),
{
    match param {
        Some(p) => match parse_direction(p) {
            Ok(d) => d,
            Err(_) => Direction::Up,
        },
        None => Direction::Up,
    }
}

/// The wire code of a lower-cased event type name.
pub open spec fn event_type_of(lower: Seq<char>) -> Option<i32> {
    if lower == "ui_change"@ {
        Some(EVENT_UI_CHANGE)
    } else if lower == "notification_posted"@ {
        Some(EVENT_NOTIFICATION_POSTED)
    } else if lower == "toast_shown"@ {
        Some(EVENT_TOAST_SHOWN)
    } else if lower == "app_crash"@ {
        Some(EVENT_APP_CRASH)
    } else {
        None
    }
}

/// The wire code of an event type name, in any case.
pub fn event_type_code(name: &str) -> (r: Option<i32>)
    ensures
        r == event_type_of(lowercase(name@)),
{
    let lower = to_lowercase_exec(name);
    let l = lower.as_slice();
    if chars_eq_str(l, "ui_change") {
        Some(EVENT_UI_CHANGE)
    } else if chars_eq_str(l, "notification_posted") {
        Some(EVENT_NOTIFICATION_POSTED)
    } else if chars_eq_str(l, "toast_shown") {
        Some(EVENT_TOAST_SHOWN)
    } else if chars_eq_str(l, "app_crash") {
        Some(EVENT_APP_CRASH)
    } else {
        None
    }
}

/// The codes of the known names among `names`, in order; unknown names are
/// skipped.
pub open spec fn event_codes_spec(names: Seq<Seq<char>>) -> Seq<i32>
    decreases names.len(),
{
    if names.len() == 0 {
        Seq::empty()
    } else {
        let rest = event_codes_spec(names.drop_last());
        match event_type_of(lowercase(names.last())) {
            Some(c) => rest.push(c),
            None => rest,
        }
    }
}

/// The views of a sequence of strings.
pub open spec fn strings_view(v: Seq<String>) -> Seq<Seq<char>> {
    v.map_values(|s: String| s@)
}

/// The event type codes to subscribe to, for the names a client gave.
pub fn event_type_codes(names: &Vec<String>) -> (r: Vec<i32>)
    ensures
        r@ == event_codes_spec(strings_view(names@)),
{
    let mut r: Vec<i32> = Vec::new();
    let mut i: usize = 0;
    while i < names.len()
        invariant
            i <= names@.len(),
            r@ == event_codes_spec(strings_view(names@).take(i as int)),
        decreases names@.len() - i,
    {
        let ghost sv = strings_view(names@);
        proof {
            assert(sv.take(i + 1).drop_last() == sv.take(i as int));
            assert(sv.take(i + 1).last() == names@[i as int]@);
        }
        match event_type_code(names[i].as_str()) {
            Some(c) => r.push(c),
            None => {},
        }
        i = i + 1;
    }
    assert(strings_view(names@).take(names@.len() as int) == strings_view(names@));
    r
}

// ---------------------------------------------------------------------------
// Selectors and gesture targets
// ---------------------------------------------------------------------------

/// The characters of an optional string, empty when absent.
pub open spec fn opt_chars(o: Option<String>) -> Seq<char> {
    match o {
        Some(s) => s@,
        None => Seq::empty(),
    }
}

/// The selector a tool sends: the given text, content description, resource
/// ID and class name, visible elements only, enabled elements only when
/// `enabled_only`, the given boolean filters, first match.
pub open spec fn tool_selector_view(
    text: Seq<char>,
    content_desc: Seq<char>,
    resource_id: Seq<char>,
    class_name: Seq<char>,
    enabled_only: bool,
    clickable: Option<bool>,
    scrollable: Option<bool>,
    focusable: Option<bool>,
    long_clickable: Option<bool>,
    checkable: Option<bool>,
    checked: Option<bool>,
) -> SelectorView {
    SelectorView {
        text,
        resource_id,
        content_desc,
        class_name,
        element_id: Seq::empty(),
        exact_match: false,
        visible_only: true,
        enabled_only,
        clickable,
        scrollable,
        focusable,
        long_clickable,
        checkable,
        checked,
        index: 0,
    }
}

fn take_or_empty(o: Option<String>) -> (s: String)
    ensures
        s@ == opt_chars(o),
{
    match o {
        Some(s) => s,
        None => String::new(),
    }
}

/// The selector of a query tool (wait for an element, wait for it to go,
/// scroll to it): visible elements, enabled or not, no boolean filters.
pub fn query_selector(text: Option<String>, resource_id: Option<String>, content_desc: Option<String>) -> (s: Selector)
    ensures
        s@ == tool_selector_view(
            opt_chars(text),
            opt_chars(content_desc),
            opt_chars(resource_id),
            Seq::empty(),
            false,
            None,
            None,
            None,
            None,
            None,
            None,
        ),
{
    Selector {
        text: take_or_empty(text),
        resource_id: take_or_empty(resource_id),
        content_desc: take_or_empty(content_desc),
        class_name: String::new(),
        element_id: String::new(),
        exact_match: false,
        visible_only: true,
        enabled_only: false,
        clickable: None,
        scrollable: None,
        focusable: None,
        long_clickable: None,
        checkable: None,
        checked: None,
        index: 0,
    }
}

/// The selector of the element search: the given fields and filters, visible
/// elements, enabled or not.
pub fn find_elements_selector(
    text: Option<String>,
    content_desc: Option<String>,
    resource_id: Option<String>,
    class_name: Option<String>,
    clickable: Option<bool>,
    scrollable: Option<bool>,
    focusable: Option<bool>,
    long_clickable: Option<bool>,
    checkable: Option<bool>,
    checked: Option<bool>,
) -> (s: Selector)
    ensures
        s@ == tool_selector_view(
            opt_chars(text),
            opt_chars(content_desc),
            opt_chars(resource_id),
            opt_chars(class_name),
            false,
            clickable,
            scrollable,
            focusable,
            long_clickable,
            checkable,
            checked,
        ),
{
    Selector {
        text: take_or_empty(text),
        resource_id: take_or_empty(resource_id),
        content_desc: take_or_empty(content_desc),
        class_name: take_or_empty(class_name),
        element_id: String::new(),
        exact_match: false,
        visible_only: true,
        enabled_only: false,
        clickable,
        scrollable,
        focusable,
        long_clickable,
        checkable,
        checked,
        index: 0,
    }
}

/// Where a gesture lands: at a point, or on the element a selector picks.
pub enum GestureTarget {
    Coordinates { x: i32, y: i32 },
    Selector(Selector),
}

/// Whether an optional string is given and not empty.
pub open spec fn opt_has_content(o: Option<String>) -> bool {
    match o {
        Some(s) => s@.len() > 0,
        None => false,
    }
}

/// Target of a gesture on a point or on an element (tap, double tap, long
/// press): the point when both coordinates are given; otherwise the selector
/// of the given text, resource ID and content description (enabled, visible
/// elements), which must not be empty.
pub fn gesture_target(
    x: Option<i32>,
    y: Option<i32>,
    text: Option<String>,
    resource_id: Option<String>,
    content_desc: Option<String>,
) -> (r: Result<GestureTarget, McpErrorInfo>)
    ensures
        (x is Some && y is Some) ==> (r matches Ok(GestureTarget::Coordinates { x: px, y: py }) && px
            == x->0 && py == y->0),
        !(x is Some && y is Some) ==> {
            if opt_has_content(text) || opt_has_content(resource_id) || opt_has_content(
                content_desc,
            ) {
                r matches Ok(GestureTarget::Selector(s)) && s@ == tool_selector_view(
                    opt_chars(text),
                    opt_chars(content_desc),
                    opt_chars(resource_id),
                    Seq::empty(),
                    true,
                    None,
                    None,
                    None,
                    None,
                    None,
                    None,
                )
            } else {
                r matches Err(e) && e.code == McpErrorCode::InvalidParams && e.message@
                    == SELECTOR_REQUIRED@
            }
        },
{
    match (x, y) {
        (Some(px), Some(py)) => Ok(GestureTarget::Coordinates { x: px, y: py }),
        _ => {
            let checked = validate_selector(
                text.as_ref(),
                resource_id.as_ref(),
                content_desc.as_ref(),
                None,
                None,
                None,
                None,
                None,
                None,
                None,
            );
            match checked {
                Err(e) => Err(e),
                Ok(()) => Ok(
                    GestureTarget::Selector(
                        Selector {
                            text: take_or_empty(text),
                            resource_id: take_or_empty(resource_id),
                            content_desc: take_or_empty(content_desc),
                            class_name: String::new(),
                            element_id: String::new(),
                            exact_match: false,
                            visible_only: true,
                            enabled_only: true,
                            clickable: None,
                            scrollable: None,
                            focusable: None,
                            long_clickable: None,
                            checkable: None,
                            checked: None,
                            index: 0,
                        },
                    ),
                ),
            }
        },
    }
}

/// Target of a text input: none (the focused field) when neither an element
/// text nor a resource ID is given; otherwise their selector (enabled, visible
/// elements), which must not be empty.
pub fn input_text_target(element_text: Option<String>, resource_id: Option<String>) -> (r: Result<
    Option<Selector>,
    McpErrorInfo,
>)
    ensures
        (element_text is None && resource_id is None) ==> r matches Ok(None),
        !(element_text is None && resource_id is None) ==> {
            if opt_has_content(element_text) || opt_has_content(resource_id) {
                r matches Ok(Some(s)) && s@ == tool_selector_view(
                    opt_chars(element_text),
                    Seq::empty(),
                    opt_chars(resource_id),
                    Seq::empty(),
                    true,
                    None,
                    None,
                    None,
                    None,
                    None,
                    None,
                )
            } else {
                r matches Err(e) && e.code == McpErrorCode::InvalidParams && e.message@
                    == SELECTOR_REQUIRED@
            }
        },
{
    if element_text.is_none() && resource_id.is_none() {
        return Ok(None);
    }
    let checked = validate_selector(
        element_text.as_ref(),
        resource_id.as_ref(),
        None,
        None,
        None,
        None,
        None,
        None,
        None,
        None,
    );
    match checked {
        Err(e) => Err(e),
        Ok(()) => Ok(
            Some(
                Selector {
                    text: take_or_empty(element_text),
                    resource_id: take_or_empty(resource_id),
                    content_desc: String::new(),
                    class_name: String::new(),
                    element_id: String::new(),
                    exact_match: false,
                    visible_only: true,
                    enabled_only: true,
                    clickable: None,
                    scrollable: None,
                    focusable: None,
                    long_clickable: None,
                    checkable: None,
                    checked: None,
                    index: 0,
                },
            ),
        ),
    }
}


// ---------------------------------------------------------------------------
// Other parameters
// ---------------------------------------------------------------------------

/// Screenshot quality asked of the companion app.
#[derive(Debug, Clone, Copy, PartialEq, Eq, Structural)]
pub enum ScreenshotQuality {
    Full,
    Thumbnail,
}

/// The quality of a screenshot: a thumbnail when `thumbnail` is asked for,
/// full otherwise.
pub fn screenshot_quality(param: Option<&str>) -> (r: ScreenshotQuality)
    ensures
        r == (if param matches Some(p) && p@ == "thumbnail"@ {
            ScreenshotQuality::Thumbnail
        } else {
            ScreenshotQuality::Full
        }),
{
    match param {
        Some(p) => {
            let c = crate::text::chars_of(p);
            if chars_eq_str(c.as_slice(), "thumbnail") {
                ScreenshotQuality::Thumbnail
            } else {
                ScreenshotQuality::Full
            }
        },
        None => ScreenshotQuality::Full,
    }
}

/// What follows the filter in the error for an unknown package filter.
pub const APP_FILTER_TAIL: &'static str = "'. Must be one of: all, third_party, system";

/// The package filter of the app list: `all` when none is given; it must be
/// `all`, `third_party` or `system`.
pub fn app_list_filter(param: Option<&str>) -> (r: Result<String, String>)
    ensures
        ({
            let f = match param {
                Some(p) => p@,
                None => "all"@,
            };
            if f == "all"@ || f == "third_party"@ || f == "system"@ {
                r matches Ok(x) && x@ == f
            } else {
                r matches Err(m) && m@ == "Invalid filter '"@ + f + APP_FILTER_TAIL@
            }
        }),
{
    let f: &str = match param {
        Some(p) => p,
        None => "all",
    };
    let c = crate::text::chars_of(f);
    let c = c.as_slice();
    if chars_eq_str(c, "all") || chars_eq_str(c, "third_party") || chars_eq_str(c, "system") {
        Ok(f.to_owned())
    } else {
        let mut m: Vec<char> = Vec::new();
        push_str(&mut m, "Invalid filter '");
        push_str(&mut m, f);
        push_str(&mut m, APP_FILTER_TAIL);
        Err(string_from_chars(m.as_slice()))
    }
}

/// What an app launch names: an activity when one is given, else the package.
#[derive(Debug)]
pub enum LaunchTarget {
    Activity(String),
    PackageName(String),
}

/// The launch target: the activity when given, else the package name.
pub fn launch_target(package_name: &str, activity: Option<String>) -> (r: LaunchTarget)
    ensures
        match activity {
            Some(a) => r matches LaunchTarget::Activity(x) && x@ == a@,
            None => r matches LaunchTarget::PackageName(x) && x@ == package_name@,
        },
{
    match activity {
        Some(a) => LaunchTarget::Activity(a),
        None => LaunchTarget::PackageName(package_name.to_owned()),
    }
}


/// Parameters of the clipboard tool: the text to put on the clipboard (any
/// text, empty included).
#[derive(Debug)]
pub struct SetClipboardParams {
    pub text: String,
}

} // verus!

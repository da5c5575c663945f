//! The protocol's message types that the library's logic reads: selectors sent
//! to the companion app and the UI elements it reports back.

use vstd::prelude::*;

verus! {

/// Screen rectangle of an element, in pixels.
#[derive(Debug, Clone, Copy, PartialEq, Eq, Structural)]
pub struct Bounds {
    pub left: i32,
    pub top: i32,
    pub right: i32,
    pub bottom: i32,
}

/// Criteria that select UI elements.
#[derive(Debug)]
pub struct Selector {
    pub text: String,
    pub resource_id: String,
    pub content_desc: String,
    pub class_name: String,
    pub element_id: String,
    pub exact_match: bool,
    pub visible_only: bool,
    pub enabled_only: bool,
    pub clickable: Option<bool>,
    pub scrollable: Option<bool>,
    pub focusable: Option<bool>,
    pub long_clickable: Option<bool>,
    pub checkable: Option<bool>,
    pub checked: Option<bool>,
    /// Which match to pick (0-based); negative for "not specified".
    pub index: i32,
}

/// A selector seen as mathematical values.
pub struct SelectorView {
    pub text: Seq<char>,
    pub resource_id: Seq<char>,
    pub content_desc: Seq<char>,
    pub class_name: Seq<char>,
    pub element_id: Seq<char>,
    pub exact_match: bool,
    pub visible_only: bool,
    pub enabled_only: bool,
    pub clickable: Option<bool>,
    pub scrollable: Option<bool>,
    pub focusable: Option<bool>,
    pub long_clickable: Option<bool>,
    pub checkable: Option<bool>,
    pub checked: Option<bool>,
    pub index: i32,
}

impl View for Selector {
    type V = SelectorView;

    open spec fn view(&self) -> SelectorView {
        SelectorView {
            text: self.text@,
            resource_id: self.resource_id@,
            content_desc: self.content_desc@,
            class_name: self.class_name@,
            element_id: self.element_id@,
            exact_match: self.exact_match,
            visible_only: self.visible_only,
            enabled_only: self.enabled_only,
            clickable: self.clickable,
            scrollable: self.scrollable,
            focusable: self.focusable,
            long_clickable: self.long_clickable,
            checkable: self.checkable,
            checked: self.checked,
            index: self.index,
        }
    }
}

/// The default selector: every string empty, every flag false or unset, index 0.
pub open spec fn default_selector_view() -> SelectorView {
    SelectorView {
        text: Seq::empty(),
        resource_id: Seq::empty(),
        content_desc: Seq::empty(),
        class_name: Seq::empty(),
        element_id: Seq::empty(),
        exact_match: false,
        visible_only: false,
        enabled_only: false,
        clickable: None,
        scrollable: None,
        focusable: None,
        long_clickable: None,
        checkable: None,
        checked: None,
        index: 0,
    }
}

impl Default for Selector {
    fn default() -> (s: Selector)
        ensures
            s@ == default_selector_view(),
    {
        Selector {
            text: String::new(),
            resource_id: String::new(),
            content_desc: String::new(),
            class_name: String::new(),
            element_id: String::new(),
            exact_match: false,
            visible_only: false,
            enabled_only: false,
            clickable: None,
            scrollable: None,
            focusable: None,
            long_clickable: None,
            checkable: None,
            checked: None,
            index: 0,
        }
    }
}

/// A node of the UI tree as the companion app reports it.
#[derive(Debug)]
pub struct UiElement {
    pub element_id: String,
    pub resource_id: String,
    pub class_name: String,
    pub text: String,
    pub content_description: String,
    pub semantic_type: String,
    pub bounds: Option<Bounds>,
    pub visible: bool,
    pub enabled: bool,
    pub clickable: bool,
    pub focusable: bool,
    pub checkable: bool,
    pub scrollable: bool,
    /// Depth in the tree (the root is 0).
    pub depth: i32,
}

/// A UI element seen as mathematical values.
pub struct UiElementView {
    pub element_id: Seq<char>,
    pub resource_id: Seq<char>,
    pub class_name: Seq<char>,
    pub text: Seq<char>,
    pub content_description: Seq<char>,
    pub semantic_type: Seq<char>,
    pub bounds: Option<Bounds>,
    pub visible: bool,
    pub enabled: bool,
    pub clickable: bool,
    pub focusable: bool,
    pub checkable: bool,
    pub scrollable: bool,
    pub depth: i32,
}

impl View for UiElement {
    type V = UiElementView;

    open spec fn view(&self) -> UiElementView {
        UiElementView {
            element_id: self.element_id@,
            resource_id: self.resource_id@,
            class_name: self.class_name@,
            text: self.text@,
            content_description: self.content_description@,
            semantic_type: self.semantic_type@,
            bounds: self.bounds,
            visible: self.visible,
            enabled: self.enabled,
            clickable: self.clickable,
            focusable: self.focusable,
            checkable: self.checkable,
            scrollable: self.scrollable,
            depth: self.depth,
        }
    }
}

impl Clone for UiElement {
    fn clone(&self) -> (r: UiElement)
        ensures
            r == *self,
    {
        UiElement {
            element_id: self.element_id.clone(),
            resource_id: self.resource_id.clone(),
            class_name: self.class_name.clone(),
            text: self.text.clone(),
            content_description: self.content_description.clone(),
            semantic_type: self.semantic_type.clone(),
            bounds: self.bounds,
            visible: self.visible,
            enabled: self.enabled,
            clickable: self.clickable,
            focusable: self.focusable,
            checkable: self.checkable,
            scrollable: self.scrollable,
            depth: self.depth,
        }
    }
}

/// The views of a sequence of elements.
pub open spec fn elements_view(s: Seq<UiElement>) -> Seq<UiElementView> {
    s.map_values(|e: UiElement| e@)
}

/// Error codes the companion app reports with a failed response, as far as
/// the server tells them apart.
#[derive(Debug, Clone, Copy, PartialEq, Eq, Structural)]
pub enum ErrorCode {
    ElementNotFound,
    ElementAmbiguous,
    ElementNotVisible,
    ElementNotEnabled,
    AppNotInstalled,
    ActivityNotFound,
    Timeout,
    /// Any other code.
    Other,
}

/// Hardware keys the companion app can press.
#[derive(Debug, Clone, Copy, PartialEq, Eq, Structural)]
pub enum KeyCode {
    Back,
    Home,
    Menu,
    Enter,
    Delete,
    Tab,
    Space,
    VolumeUp,
    VolumeDown,
    Power,
}

/// System-wide actions of the accessibility service.
#[derive(Debug, Clone, Copy, PartialEq, Eq, Structural)]
pub enum GlobalAction {
    GlobalBack,
    GlobalHome,
    GlobalRecents,
    GlobalNotifications,
    GlobalQuickSettings,
    GlobalLockScreen,
    GlobalTakeScreenshot,
}

/// Fling directions.
#[derive(Debug, Clone, Copy, PartialEq, Eq, Structural)]
pub enum Direction {
    Up,
    Down,
    Left,
    Right,
}

/// Wire code of the event type "UI change".
pub const EVENT_UI_CHANGE: i32 = 1;

/// Wire code of the event type "notification posted".
pub const EVENT_NOTIFICATION_POSTED: i32 = 2;

/// Wire code of the event type "toast shown".
pub const EVENT_TOAST_SHOWN: i32 = 3;

/// Wire code of the event type "app crash".
pub const EVENT_APP_CRASH: i32 = 4;

} // verus!

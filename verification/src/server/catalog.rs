//! The catalog of the server's tools and the meta-tools that search and
//! describe it.

use vstd::prelude::*;
use crate::text::{chars_of, contains, contains_exec, lowercase, to_lowercase_exec};

verus! {

/// A tool of the catalog: its name, a short description and its category.
#[derive(Debug, Clone, Copy)]
pub struct ToolInfo {
    pub name: &'static str,
    pub description: &'static str,
    pub category: &'static str,
}

/// A catalog entry as (name, description, category).
pub type ToolEntry = (Seq<char>, Seq<char>, Seq<char>);

/// The entry of a tool.
pub open spec fn entry_of(t: ToolInfo) -> ToolEntry {
    (t.name@, t.description@, t.category@)
}

/// The entries of a sequence of tools.
pub open spec fn entries_of(v: Seq<ToolInfo>) -> Seq<ToolEntry> {
    v.map_values(|t: ToolInfo| entry_of(t))
}

/// The catalog, in the order the tools are listed.
pub open spec fn catalog_spec() -> Seq<ToolEntry> {
    seq![
        ("android_get_ui_tree"@, "Get UI tree of current screen with element IDs, text, bounds"@, "observe"@),
        ("android_screenshot"@, "Capture screenshot as MCP image content"@, "observe"@),
        ("android_find_elements"@, "Find elements by text/resource_id/content_desc/class"@, "observe"@),
        ("android_get_foreground_app"@, "Get current app package and activity name"@, "observe"@),
        ("android_get_screen_context"@, "Snapshot: app info + UI tree + thumbnail in one call"@, "observe"@),
        ("android_get_clipboard"@, "Get clipboard text content"@, "observe"@),
        ("android_get_notifications"@, "Get recent notification events"@, "observe"@),
        ("android_get_device_info"@, "Get device model, OS version, screen size"@, "observe"@),
        ("android_get_recent_toasts"@, "Get recent toast messages"@, "observe"@),
        ("android_tap"@, "Tap at coordinates or on element by selector"@, "act"@),
        ("android_long_press"@, "Long press at coordinates or on element"@, "act"@),
        ("android_swipe"@, "Swipe between coordinates (duration_ms < 200 = fling)"@, "act"@),
        ("android_input_text"@, "Type text into focused field or element by selector"@, "act"@),
        ("android_press_key"@, "Press hardware key (BACK, HOME, ENTER, etc.)"@, "act"@),
        ("android_global_action"@, "System action: back, home, recents, notifications"@, "act"@),
        ("android_double_tap"@, "Double tap at coordinates or on element"@, "act"@),
        ("android_pinch"@, "Pinch zoom (scale > 1.0 = zoom in)"@, "act"@),
        ("android_drag"@, "Drag from one point to another"@, "act"@),
        ("android_fling"@, "Fling in direction (up/down/left/right)"@, "act"@),
        ("android_set_clipboard"@, "Set clipboard text"@, "act"@),
        ("android_pull_to_refresh"@, "Pull-to-refresh gesture"@, "act"@),
        ("android_dismiss_keyboard"@, "Dismiss soft keyboard"@, "act"@),
        ("android_launch_app"@, "Launch app by package name"@, "manage"@),
        ("android_close_app"@, "Force-stop an app"@, "manage"@),
        ("android_open_url"@, "Open URL in default browser"@, "manage"@),
        ("android_list_apps"@, "List installed apps"@, "manage"@),
        ("android_install_app"@, "Install APK on device"@, "manage"@),
        ("android_uninstall_app"@, "Uninstall app by package name"@, "manage"@),
        ("android_clear_app_data"@, "Clear app data and cache"@, "manage"@),
        ("android_grant_permission"@, "Grant runtime permission to app"@, "manage"@),
        ("android_revoke_permission"@, "Revoke runtime permission from app"@, "manage"@),
        ("android_list_devices"@, "List connected devices with status"@, "device"@),
        ("android_select_device"@, "Select device for all subsequent commands"@, "device"@),
        ("android_wait_for_element"@, "Wait for element to appear on screen"@, "wait"@),
        ("android_wait_for_gone"@, "Wait for element to disappear"@, "wait"@),
        ("android_wait_for_idle"@, "Wait for UI to become idle"@, "wait"@),
        ("android_scroll_to_element"@, "Scroll to find off-screen element"@, "wait"@),
        ("android_capture_logcat"@, "Capture logcat for debugging"@, "test"@),
        ("android_screenshot_diff"@, "Compare screenshots for visual regression"@, "test"@),
        ("android_accessibility_audit"@, "Audit screen for accessibility issues"@, "test"@),
        ("android_enable_events"@, "Enable/disable event streaming"@, "test"@),
        ("android_search_tools"@, "Search for tools by keyword or category"@, "meta"@),
        ("android_describe_tools"@, "Get detailed descriptions of specific tools"@, "meta"@)
    ]
}

/// The catalog of tools (see `catalog_spec`).
pub fn tool_catalog() -> (r: Vec<ToolInfo>)
    ensures
        entries_of(r@) == catalog_spec(),
{
    let mut v: Vec<ToolInfo> = Vec::new();
    v.push(ToolInfo { name: "android_get_ui_tree", description: "Get UI tree of current screen with element IDs, text, bounds", category: "observe" });
    v.push(ToolInfo { name: "android_screenshot", description: "Capture screenshot as MCP image content", category: "observe" });
    v.push(ToolInfo { name: "android_find_elements", description: "Find elements by text/resource_id/content_desc/class", category: "observe" });
    v.push(ToolInfo { name: "android_get_foreground_app", description: "Get current app package and activity name", category: "observe" });
    v.push(ToolInfo { name: "android_get_screen_context", description: "Snapshot: app info + UI tree + thumbnail in one call", category: "observe" });
    v.push(ToolInfo { name: "android_get_clipboard", description: "Get clipboard text content", category: "observe" });
    v.push(ToolInfo { name: "android_get_notifications", description: "Get recent notification events", category: "observe" });
    v.push(ToolInfo { name: "android_get_device_info", description: "Get device model, OS version, screen size", category: "observe" });
    v.push(ToolInfo { name: "android_get_recent_toasts", description: "Get recent toast messages", category: "observe" });
    v.push(ToolInfo { name: "android_tap", description: "Tap at coordinates or on element by selector", category: "act" });
    v.push(ToolInfo { name: "android_long_press", description: "Long press at coordinates or on element", category: "act" });
    v.push(ToolInfo { name: "android_swipe", description: "Swipe between coordinates (duration_ms < 200 = fling)", category: "act" });
    v.push(ToolInfo { name: "android_input_text", description: "Type text into focused field or element by selector", category: "act" });
    v.push(ToolInfo { name: "android_press_key", description: "Press hardware key (BACK, HOME, ENTER, etc.)", category: "act" });
    v.push(ToolInfo { name: "android_global_action", description: "System action: back, home, recents, notifications", category: "act" });
    v.push(ToolInfo { name: "android_double_tap", description: "Double tap at coordinates or on element", category: "act" });
    v.push(ToolInfo { name: "android_pinch", description: "Pinch zoom (scale > 1.0 = zoom in)", category: "act" });
    v.push(ToolInfo { name: "android_drag", description: "Drag from one point to another", category: "act" });
    v.push(ToolInfo { name: "android_fling", description: "Fling in direction (up/down/left/right)", category: "act" });
    v.push(ToolInfo { name: "android_set_clipboard", description: "Set clipboard text", category: "act" });
    v.push(ToolInfo { name: "android_pull_to_refresh", description: "Pull-to-refresh gesture", category: "act" });
    v.push(ToolInfo { name: "android_dismiss_keyboard", description: "Dismiss soft keyboard", category: "act" });
    v.push(ToolInfo { name: "android_launch_app", description: "Launch app by package name", category: "manage" });
    v.push(ToolInfo { name: "android_close_app", description: "Force-stop an app", category: "manage" });
    v.push(ToolInfo { name: "android_open_url", description: "Open URL in default browser", category: "manage" });
    v.push(ToolInfo { name: "android_list_apps", description: "List installed apps", category: "manage" });
    v.push(ToolInfo { name: "android_install_app", description: "Install APK on device", category: "manage" });
    v.push(ToolInfo { name: "android_uninstall_app", description: "Uninstall app by package name", category: "manage" });
    v.push(ToolInfo { name: "android_clear_app_data", description: "Clear app data and cache", category: "manage" });
    v.push(ToolInfo { name: "android_grant_permission", description: "Grant runtime permission to app", category: "manage" });
    v.push(ToolInfo { name: "android_revoke_permission", description: "Revoke runtime permission from app", category: "manage" });
    v.push(ToolInfo { name: "android_list_devices", description: "List connected devices with status", category: "device" });
    v.push(ToolInfo { name: "android_select_device", description: "Select device for all subsequent commands", category: "device" });
    v.push(ToolInfo { name: "android_wait_for_element", description: "Wait for element to appear on screen", category: "wait" });
    v.push(ToolInfo { name: "android_wait_for_gone", description: "Wait for element to disappear", category: "wait" });
    v.push(ToolInfo { name: "android_wait_for_idle", description: "Wait for UI to become idle", category: "wait" });
    v.push(ToolInfo { name: "android_scroll_to_element", description: "Scroll to find off-screen element", category: "wait" });
    v.push(ToolInfo { name: "android_capture_logcat", description: "Capture logcat for debugging", category: "test" });
    v.push(ToolInfo { name: "android_screenshot_diff", description: "Compare screenshots for visual regression", category: "test" });
    v.push(ToolInfo { name: "android_accessibility_audit", description: "Audit screen for accessibility issues", category: "test" });
    v.push(ToolInfo { name: "android_enable_events", description: "Enable/disable event streaming", category: "test" });
    v.push(ToolInfo { name: "android_search_tools", description: "Search for tools by keyword or category", category: "meta" });
    v.push(ToolInfo { name: "android_describe_tools", description: "Get detailed descriptions of specific tools", category: "meta" });
    assert(entries_of(v@) =~= catalog_spec());
    v
}

/// Tools that the consolidated tool set leaves out.
pub fn consolidated_away() -> (r: Vec<&'static str>)
    ensures
        r@.map_values(|s: &'static str| s@) == seq![
            "android_fling"@,
            "android_pull_to_refresh"@,
            "android_dismiss_keyboard"@,
            "android_get_foreground_app"@,
        ],
{
    let mut v: Vec<&'static str> = Vec::new();
    v.push("android_fling");
    v.push("android_pull_to_refresh");
    v.push("android_dismiss_keyboard");
    v.push("android_get_foreground_app");
    assert(v@.map_values(|s: &'static str| s@) =~= seq![
        "android_fling"@,
        "android_pull_to_refresh"@,
        "android_dismiss_keyboard"@,
        "android_get_foreground_app"@,
    ]);
    v
}

// ---------------------------------------------------------------------------
// Search
// ---------------------------------------------------------------------------

/// Relevance of a tool to a lower-cased query: 2 when its lower-cased name
/// contains the query, else 1 when its lower-cased description does, else 0.
pub open spec fn score_spec(t: ToolEntry, query_lower: Seq<char>) -> nat {
    if contains(lowercase(t.0), query_lower) {
        2
    } else if contains(lowercase(t.1), query_lower) {
        1
    } else {
        0
    }
}

/// Whether a tool is in the category asked for (any, when none is).
pub open spec fn in_category(t: ToolEntry, category_lower: Option<Seq<char>>) -> bool {
    match category_lower {
        Some(c) => t.2 == c,
        None => true,
    }
}

/// The tools of `s` in the category with exactly score `score`, in order.
pub open spec fn hits_spec(
    s: Seq<ToolEntry>,
    query_lower: Seq<char>,
    category_lower: Option<Seq<char>>,
    score: nat,
) -> Seq<ToolEntry>
    decreases s.len(),
{
    if s.len() == 0 {
        Seq::empty()
    } else {
        let rest = hits_spec(s.drop_last(), query_lower, category_lower, score);
        if in_category(s.last(), category_lower) && score_spec(s.last(), query_lower) == score {
            rest.push(s.last())
        } else {
            rest
        }
    }
}

/// The search result: the matching tools of the category, best score first
/// and in catalog order among equal scores, which is what a stable sort by
/// descending score gives.
pub open spec fn search_spec(query_lower: Seq<char>, category_lower: Option<Seq<char>>) -> Seq<ToolEntry> {
    hits_spec(catalog_spec(), query_lower, category_lower, 2) + hits_spec(
        catalog_spec(),
        query_lower,
        category_lower,
        1,
    )
}

fn score_of(t: &ToolInfo, query_lower: &[char]) -> (r: u8)
    ensures
        r as nat == score_spec(entry_of(*t), query_lower@),
{
    let name_lower = to_lowercase_exec(t.name);
    if contains_exec(name_lower.as_slice(), query_lower) {
        return 2;
    }
    let desc_lower = to_lowercase_exec(t.description);
    if contains_exec(desc_lower.as_slice(), query_lower) {
        1
    } else {
        0
    }
}

fn category_matches(t: &ToolInfo, category_lower: &Option<Vec<char>>) -> (r: bool)
    ensures
        r == in_category(
            entry_of(*t),
            match category_lower {
                Some(c) => Some(c@),
                None => None,
            },
        ),
{
    match category_lower {
        Some(c) => {
            let cat = chars_of(t.category);
            crate::text::chars_eq(cat.as_slice(), c.as_slice())
        },
        None => true,
    }
}

fn collect_hits(
    catalog: &Vec<ToolInfo>,
    query_lower: &[char],
    category_lower: &Option<Vec<char>>,
    score: u8,
    out: &mut Vec<ToolInfo>,
)
    ensures
        entries_of(final(out)@) == entries_of(old(out)@) + hits_spec(
            entries_of(catalog@),
            query_lower@,
            match category_lower {
                Some(c) => Some(c@),
                None => None,
            },
            score as nat,
        ),
{
    let ghost cat_view = match category_lower {
        Some(c) => Some(c@),
        None => None,
    };
    let ghost cs = entries_of(catalog@);
    let mut i: usize = 0;
    while i < catalog.len()
        invariant
            i <= catalog@.len(),
            cs == entries_of(catalog@),
            cat_view == match category_lower {
                Some(c) => Some(c@),
                None => None,
            },
            entries_of(out@) == entries_of(old(out)@) + hits_spec(
                cs.take(i as int),
                query_lower@,
                cat_view,
                score as nat,
            ),
        decreases catalog@.len() - i,
    {
        proof {
            assert(cs.take(i + 1).drop_last() == cs.take(i as int));
            assert(cs.take(i + 1).last() == entry_of(catalog@[i as int]));
        }
        let t = catalog[i];
        if category_matches(&t, category_lower) && score_of(&t, query_lower) == score {
            let ghost before = out@;
            out.push(t);
            assert(entries_of(out@) =~= entries_of(before).push(entry_of(t)));
        }
        i = i + 1;
    }
    assert(cs.take(catalog@.len() as int) == cs);
}

/// Search the catalog for a query in the names and descriptions of the tools,
/// in any case, within a category when one is given (see `search_spec`).
pub fn search_tools(query: &str, category: Option<&str>) -> (r: Vec<ToolInfo>)
    ensures
        entries_of(r@) == search_spec(
            lowercase(query@),
            match category {
                Some(c) => Some(lowercase(c@)),
                None => None,
            },
        ),
{
    let query_lower = to_lowercase_exec(query);
    let category_lower: Option<Vec<char>> = match category {
        Some(c) => Some(to_lowercase_exec(c)),
        None => None,
    };
    let catalog = tool_catalog();
    let mut r: Vec<ToolInfo> = Vec::new();
    collect_hits(&catalog, query_lower.as_slice(), &category_lower, 2, &mut r);
    collect_hits(&catalog, query_lower.as_slice(), &category_lower, 1, &mut r);
    proof {
        assert(entries_of(Seq::<ToolInfo>::empty()) =~= Seq::<ToolEntry>::empty());
    }
    r
}

// ---------------------------------------------------------------------------
// Description
// ---------------------------------------------------------------------------

/// The first catalog entry of `s` named `name`.
pub open spec fn find_entry(s: Seq<ToolEntry>, name: Seq<char>) -> Option<ToolEntry>
    decreases s.len(),
{
    if s.len() == 0 {
        None
    } else if s[0].0 == name {
        Some(s[0])
    } else {
        find_entry(s.drop_first(), name)
    }
}

/// The entry of the catalog named `name`, if any.
pub fn find_tool(name: &str) -> (r: Option<ToolInfo>)
    ensures
        match find_entry(catalog_spec(), name@) {
            Some(e) => r matches Some(t) && entry_of(t) == e,
            None => r is None,
        },
{
    let catalog = tool_catalog();
    let n = chars_of(name);
    let ghost cs = entries_of(catalog@);
    assert(cs.skip(0) == cs);
    let mut i: usize = 0;
    while i < catalog.len()
        invariant
            i <= catalog@.len(),
            cs == entries_of(catalog@),
            cs == catalog_spec(),
            n@ == name@,
            find_entry(cs, name@) == find_entry(cs.skip(i as int), name@),
        decreases catalog@.len() - i,
    {
        let t = catalog[i];
        let tn = chars_of(t.name);
        proof {
            assert(cs.skip(i as int)[0] == entry_of(catalog@[i as int]));
            assert(cs.skip(i as int).drop_first() == cs.skip(i + 1));
        }
        if crate::text::chars_eq(tn.as_slice(), n.as_slice()) {
            return Some(t);
        }
        i = i + 1;
    }
    assert(cs.skip(catalog@.len() as int).len() == 0);
    None
}

/// The description of each named tool, in the order asked (`None` for an
/// unknown name).
pub fn describe_tools(names: &Vec<String>) -> (r: Vec<Option<ToolInfo>>)
    ensures
        r@.len() == names@.len(),
        forall|i: int|
            0 <= i < names@.len() ==> match find_entry(catalog_spec(), #[trigger] names@[i]@) {
                Some(e) => r@[i] matches Some(t) && entry_of(t) == e,
                None => r@[i] is None,
            },
{
    let mut r: Vec<Option<ToolInfo>> = Vec::new();
    let mut i: usize = 0;
    while i < names.len()
        invariant
            i <= names@.len(),
            r@.len() == i,
            forall|j: int|
                0 <= j < i ==> match find_entry(catalog_spec(), #[trigger] names@[j]@) {
                    Some(e) => r@[j] matches Some(t) && entry_of(t) == e,
                    None => r@[j] is None,
                },
        decreases names@.len() - i,
    {
        let d = find_tool(names[i].as_str());
        r.push(d);
        i = i + 1;
    }
    r
}


proof fn lemma_hits_are_matches(
    s: Seq<ToolEntry>,
    query_lower: Seq<char>,
    category_lower: Option<Seq<char>>,
    score: nat,
)
    ensures
        forall|i: int|
            0 <= i < hits_spec(s, query_lower, category_lower, score).len() ==> {
                let t = #[trigger] hits_spec(s, query_lower, category_lower, score)[i];
                &&& s.contains(t)
                &&& in_category(t, category_lower)
                &&& score_spec(t, query_lower) == score
            },
    decreases s.len(),
{
    if s.len() > 0 {
        lemma_hits_are_matches(s.drop_last(), query_lower, category_lower, score);
        let h = hits_spec(s, query_lower, category_lower, score);
        let hd = hits_spec(s.drop_last(), query_lower, category_lower, score);
        assert forall|i: int| 0 <= i < h.len() implies {
            let t = #[trigger] h[i];
            &&& s.contains(t)
            &&& in_category(t, category_lower)
            &&& score_spec(t, query_lower) == score
        } by {
            if i < hd.len() {
                assert(h[i] == hd[i]);
                let j = choose|j: int| 0 <= j < s.drop_last().len() && s.drop_last()[j] == hd[i];
                assert(s[j] == hd[i]);
            } else {
                assert(h[i] == s.last());
                assert(s[s.len() - 1] == s.last());
            }
        }
    }
}

/// Every tool a search returns is a tool of the catalog, in the category
/// asked for, whose name or description contains the query; tools whose name
/// contains it come before those where only the description does.
pub proof fn lemma_search_results(query_lower: Seq<char>, category_lower: Option<Seq<char>>)
    ensures
        forall|i: int|
            0 <= i < search_spec(query_lower, category_lower).len() ==> {
                let t = #[trigger] search_spec(query_lower, category_lower)[i];
                &&& catalog_spec().contains(t)
                &&& in_category(t, category_lower)
                &&& score_spec(t, query_lower) > 0
            },
        forall|i: int, j: int|
            0 <= i < j < search_spec(query_lower, category_lower).len() ==> score_spec(
                #[trigger] search_spec(query_lower, category_lower)[i],
                query_lower,
            ) >= score_spec(#[trigger] search_spec(query_lower, category_lower)[j], query_lower),
{
    let h2 = hits_spec(catalog_spec(), query_lower, category_lower, 2);
    let h1 = hits_spec(catalog_spec(), query_lower, category_lower, 1);
    lemma_hits_are_matches(catalog_spec(), query_lower, category_lower, 2);
    lemma_hits_are_matches(catalog_spec(), query_lower, category_lower, 1);
    let r = search_spec(query_lower, category_lower);
    assert(r == h2 + h1);
    assert forall|i: int| 0 <= i < r.len() implies {
        let t = #[trigger] r[i];
        &&& catalog_spec().contains(t)
        &&& in_category(t, category_lower)
        &&& score_spec(t, query_lower) > 0
    } by {
        if i < h2.len() {
            assert(r[i] == h2[i]);
        } else {
            assert(r[i] == h1[i - h2.len()]);
        }
    }
    assert forall|i: int, j: int| 0 <= i < j < r.len() implies score_spec(#[trigger] r[i], query_lower)
        >= score_spec(#[trigger] r[j], query_lower) by {
        if i < h2.len() {
            assert(r[i] == h2[i]);
            assert(score_spec(r[i], query_lower) == 2);
            if j < h2.len() {
                assert(r[j] == h2[j]);
            } else {
                assert(r[j] == h1[j - h2.len()]);
            }
        } else {
            assert(r[i] == h1[i - h2.len()]);
            assert(r[j] == h1[j - h2.len()]);
        }
    }
}

} // verus!

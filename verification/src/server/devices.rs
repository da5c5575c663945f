//! Device listing and selection: the row the server reports for each device,
//! the checks on a device to select, the report of the setup check, and the
//! device chosen at start.

use vstd::prelude::*;
use crate::device::manager::{
    is_valid_device_id, missing_message_spec, valid_device_id_spec, DeviceInfo, PermissionStatus,
};
use crate::text::{chars_eq, chars_of, push_str, string_from_chars};

verus! {

/// What the device list reports of one device.
#[derive(Debug)]
pub struct DeviceRow {
    pub device_id: String,
    pub model: String,
    pub android_version: String,
    pub state: String,
    pub companion_installed: bool,
    pub accessibility_enabled: bool,
    pub notification_listener: bool,
    pub is_ready: bool,
    pub is_selected: bool,
}

/// The model of a device, `Unknown` when it is not known.
pub open spec fn model_or_unknown(info: Option<DeviceInfo>) -> Seq<char> {
    match info {
        Some(i) => match i.model {
            Some(m) => m@,
            None => "Unknown"@,
        },
        None => "Unknown"@,
    }
}

/// The row of a device: model and Android version (`Unknown` when not known),
/// state (`unknown` without information), the permission flags (false when
/// they could not be checked) and whether it is the selected device.
pub open spec fn is_row_of(
    r: DeviceRow,
    device_id: Seq<char>,
    info: Option<DeviceInfo>,
    perms: Option<PermissionStatus>,
    selected: Option<Seq<char>>,
) -> bool {
    &&& r.device_id@ == device_id
    &&& r.model@ == model_or_unknown(info)
    &&& r.android_version@ == match info {
        Some(i) => match i.android_version {
            Some(v) => v@,
            None => "Unknown"@,
        },
        None => "Unknown"@,
    }
    &&& r.state@ == match info {
        Some(i) => i.state@,
        None => "unknown"@,
    }
    &&& r.companion_installed == match perms {
        Some(p) => p.companion_installed,
        None => false,
    }
    &&& r.accessibility_enabled == match perms {
        Some(p) => p.accessibility_enabled,
        None => false,
    }
    &&& r.notification_listener == match perms {
        Some(p) => p.notification_listener_enabled,
        None => false,
    }
    &&& r.is_ready == match perms {
        Some(p) => p.spec_is_ready(),
        None => false,
    }
    &&& r.is_selected == (selected == Some(device_id))
}

/// The model of a device, `Unknown` when it is not known.
pub fn model_name(info: &Option<DeviceInfo>) -> (r: String)
    ensures
        r@ == model_or_unknown(*info),
{
    match info {
        Some(i) => match &i.model {
            Some(m) => m.clone(),
            None => "Unknown".to_owned(),
        },
        None => "Unknown".to_owned(),
    }
}

/// The row of a device in the device list (see `is_row_of`).
pub fn device_row(
    device_id: &str,
    info: &Option<DeviceInfo>,
    perms: Option<PermissionStatus>,
    selected: Option<&str>,
) -> (r: DeviceRow)
    ensures
        is_row_of(
            r,
            device_id@,
            *info,
            perms,
            match selected {
                Some(s) => Some(s@),
                None => None,
            },
        ),
{
    let android_version = match info {
        Some(i) => match &i.android_version {
            Some(v) => v.clone(),
            None => "Unknown".to_owned(),
        },
        None => "Unknown".to_owned(),
    };
    let state = match info {
        Some(i) => i.state.clone(),
        None => "unknown".to_owned(),
    };
    let (companion_installed, accessibility_enabled, notification_listener, is_ready) = match perms {
        Some(p) => (
            p.companion_installed,
            p.accessibility_enabled,
            p.notification_listener_enabled,
            p.is_ready(),
        ),
        None => (false, false, false, false),
    };
    let is_selected = match selected {
        Some(s) => {
            let a = chars_of(s);
            let b = chars_of(device_id);
            chars_eq(a.as_slice(), b.as_slice())
        },
        None => false,
    };
    DeviceRow {
        device_id: device_id.to_owned(),
        model: model_name(info),
        android_version,
        state,
        companion_installed,
        accessibility_enabled,
        notification_listener,
        is_ready,
        is_selected,
    }
}

// ---------------------------------------------------------------------------
// Selecting a device
// ---------------------------------------------------------------------------

/// What follows the device ID in the error for a malformed ID.
pub const INVALID_ID_TAIL: &'static str = "'. Must contain only alphanumeric characters and '.:-_'";

/// What follows the device ID in the error for an unknown device.
pub const UNKNOWN_DEVICE_TAIL: &'static str = "' not found. Run android_list_devices to see available devices.";

/// Whether `s` is one of the strings of `v`.
pub open spec fn listed(v: Seq<String>, s: Seq<char>) -> bool {
    exists|i: int| 0 <= i < v.len() && #[trigger] v[i]@ == s
}

/// Whether `s` is one of the strings of `v`.
pub fn is_listed(v: &Vec<String>, s: &str) -> (r: bool)
    ensures
        r == listed(v@, s@),
{
    let target = chars_of(s);
    let mut i: usize = 0;
    while i < v.len()
        invariant
            i <= v@.len(),
            target@ == s@,
            forall|j: int| 0 <= j < i ==> v@[j]@ != s@,
        decreases v@.len() - i,
    {
        let c = chars_of(v[i].as_str());
        if chars_eq(c.as_slice(), target.as_slice()) {
            return true;
        }
        i = i + 1;
    }
    false
}

/// Check a device to select: its ID must be well formed, and the device must
/// be among those discovered.
pub fn check_selection(device_id: &str, discovered: &Vec<String>) -> (r: Result<(), String>)
    ensures
        !valid_device_id_spec(device_id@) ==> (r matches Err(m) && m@ == "Invalid device_id format: '"@
            + device_id@ + INVALID_ID_TAIL@),
        valid_device_id_spec(device_id@) && !listed(discovered@, device_id@) ==> (r matches Err(m)
            && m@ == "Device '"@ + device_id@ + UNKNOWN_DEVICE_TAIL@),
        valid_device_id_spec(device_id@) && listed(discovered@, device_id@) ==> r is Ok,
{
    if !is_valid_device_id(device_id) {
        let mut m: Vec<char> = Vec::new();
        push_str(&mut m, "Invalid device_id format: '");
        push_str(&mut m, device_id);
        push_str(&mut m, INVALID_ID_TAIL);
        return Err(string_from_chars(m.as_slice()));
    }
    if !is_listed(discovered, device_id) {
        let mut m: Vec<char> = Vec::new();
        push_str(&mut m, "Device '");
        push_str(&mut m, device_id);
        push_str(&mut m, UNKNOWN_DEVICE_TAIL);
        return Err(string_from_chars(m.as_slice()));
    }
    Ok(())
}

// ---------------------------------------------------------------------------
// The setup check
// ---------------------------------------------------------------------------

/// Mark for a check that passed or failed.
pub open spec fn mark(ok: bool) -> Seq<char> {
    if ok {
        "✓"@
    } else {
        "✗"@
    }
}

/// The lines the setup check prints for a device's permissions: a line per
/// permission, the status, and when not ready what is missing.
pub open spec fn permission_report_spec(s: PermissionStatus) -> Seq<Seq<char>> {
    seq![
        "   Companion app installed:       "@ + mark(s.companion_installed),
        "   AccessibilityService enabled:  "@ + mark(s.accessibility_enabled),
        "   NotificationListener enabled:  "@ + mark(s.notification_listener_enabled),
    ] + if s.spec_is_ready() {
        seq!["   Status: ✓ READY"@]
    } else {
        seq!["   Status: ✗ NOT READY"@, "   "@ + missing_message_spec(s)]
    }
}

fn mark_line(label: &str, ok: bool) -> (r: String)
    ensures
        r@ == label@ + mark(ok),
{
    let mut m: Vec<char> = Vec::new();
    push_str(&mut m, label);
    if ok {
        push_str(&mut m, "✓");
    } else {
        push_str(&mut m, "✗");
    }
    string_from_chars(m.as_slice())
}

/// The lines of the setup check for a device (see `permission_report_spec`).
pub fn permission_report(status: &PermissionStatus) -> (r: Vec<String>)
    ensures
        r@.map_values(|l: String| l@) == permission_report_spec(*status),
{
    let mut r: Vec<String> = Vec::new();
    r.push(mark_line("   Companion app installed:       ", status.companion_installed));
    r.push(mark_line("   AccessibilityService enabled:  ", status.accessibility_enabled));
    r.push(mark_line("   NotificationListener enabled:  ", status.notification_listener_enabled));
    match status.missing_permissions_message() {
        None => {
            r.push("   Status: ✓ READY".to_owned());
        },
        Some(msg) => {
            r.push("   Status: ✗ NOT READY".to_owned());
            let mut m: Vec<char> = Vec::new();
            push_str(&mut m, "   ");
            push_str(&mut m, msg.as_str());
            r.push(string_from_chars(m.as_slice()));
        },
    }
    assert(r@.map_values(|l: String| l@) =~= permission_report_spec(*status));
    r
}

// ---------------------------------------------------------------------------
// Choosing a device at start
// ---------------------------------------------------------------------------

/// Position of the first ready device, if any.
pub open spec fn first_ready(ready: Seq<bool>) -> Option<int>
    decreases ready.len(),
{
    if ready.len() == 0 {
        None
    } else {
        match first_ready(ready.drop_last()) {
            Some(i) => Some(i),
            None => if ready.last() {
                Some(ready.len() - 1)
            } else {
                None
            },
        }
    }
}

/// The device `--auto-discover` selects among the discovered ones (each
/// with whether its companion app is ready; a failed check counts as not
/// ready): the first ready one, else the first one; none when no device was
/// found.
pub fn auto_discovered_device(ready: &Vec<bool>) -> (r: Option<usize>)
    ensures
        ready@.len() == 0 ==> r is None,
        ready@.len() > 0 ==> r == Some(
            match first_ready(ready@) {
                Some(i) => i as usize,
                None => 0usize,
            },
        ),
{
    if ready.len() == 0 {
        return None;
    }
    let mut i: usize = 0;
    while i < ready.len()
        invariant
            i <= ready@.len(),
            first_ready(ready@.take(i as int)) is None,
        decreases ready@.len() - i,
    {
        proof {
            assert(ready@.take(i + 1).drop_last() == ready@.take(i as int));
        }
        if ready[i] {
            proof {
                lemma_first_ready_prefix(ready@, i as int);
            }
            return Some(i);
        }
        i = i + 1;
    }
    proof {
        assert(ready@.take(ready@.len() as int) == ready@);
    }
    Some(0)
}

proof fn lemma_first_ready_prefix(ready: Seq<bool>, i: int)
    requires
        0 <= i < ready.len(),
        ready[i],
        first_ready(ready.take(i)) is None,
    ensures
        first_ready(ready) == Some(i),
    decreases ready.len() - i,
{
    if i + 1 == ready.len() {
        assert(ready.drop_last() == ready.take(i));
    } else {
        let t = ready.drop_last();
        assert(t.take(i) == ready.take(i));
        lemma_first_ready_prefix(t, i);
    }
}

/// The device selected at start when none was asked for: the only device
/// found, when its companion app is ready; otherwise none, and the agent
/// chooses.
pub fn sole_ready_device(ready: &Vec<bool>) -> (r: Option<usize>)
    ensures
        r == (if ready@.len() == 1 && ready@[0] {
            Some(0usize)
        } else {
            None
        }),
{
    if ready.len() == 1 && ready[0] {
        Some(0)
    } else {
        None
    }
}

} // verus!

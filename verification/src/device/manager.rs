//! Device discovery and companion-app permissions: parsing `adb devices -l`,
//! reading the settings that say whether the companion's services are enabled,
//! and deciding how to enable them.

use vstd::prelude::*;
use crate::text::{
    chars_eq, chars_eq_str, chars_of, contains, contains_str, find_char, find_char_from, find_char_from_exec,
    is_alphanumeric_exec, lemma_find_char_from_bounds, lines, lines_exec, push_chars, push_str, seqs_of,
    string_from_chars, sub_chars, trim, trim_exec, unicode_alphanumeric, words, words_exec,
};

verus! {

/// Package of the companion app.
pub const COMPANION_PACKAGE: &'static str = "com.neuralbridge.companion";

/// Component of the companion's accessibility service, in short form.
pub const ACCESSIBILITY_COMPONENT: &'static str = "com.neuralbridge.companion/.service.NeuralBridgeAccessibilityService";

/// Component of the companion's accessibility service, in long form.
pub const ACCESSIBILITY_COMPONENT_LONG: &'static str =
    "com.neuralbridge.companion/com.neuralbridge.companion.service.NeuralBridgeAccessibilityService";

/// Component of the companion's notification listener.
pub const NOTIFICATION_COMPONENT: &'static str =
    "com.neuralbridge.companion/com.neuralbridge.companion.notification.NotificationListener";

/// Component of the companion's notification listener, in its older short form.
pub const NOTIFICATION_COMPONENT_SHORT: &'static str = "com.neuralbridge.companion/.service.NeuralBridgeNotificationListener";

/// Information about a discovered device.
#[derive(Debug)]
pub struct DeviceInfo {
    /// Device ID (e.g. "emulator-5554").
    pub device_id: String,
    /// Device state: "device", "offline", "unauthorized".
    pub state: String,
    /// Device model, when `adb devices -l` reports one.
    pub model: Option<String>,
    /// Android version, when known.
    pub android_version: Option<String>,
}

impl Clone for DeviceInfo {
    fn clone(&self) -> (r: DeviceInfo)
        ensures
            r == *self,
    {
        DeviceInfo {
            device_id: self.device_id.clone(),
            state: self.state.clone(),
            model: match &self.model {
                Some(m) => Some(m.clone()),
                None => None,
            },
            android_version: match &self.android_version {
                Some(v) => Some(v.clone()),
                None => None,
            },
        }
    }
}

/// A device description seen as values.
pub struct DeviceInfoView {
    pub device_id: Seq<char>,
    pub state: Seq<char>,
    pub model: Option<Seq<char>>,
    pub android_version: Option<Seq<char>>,
}

/// The view of an optional string.
pub open spec fn opt_view(o: Option<String>) -> Option<Seq<char>> {
    match o {
        Some(s) => Some(s@),
        None => None,
    }
}

impl View for DeviceInfo {
    type V = DeviceInfoView;

    open spec fn view(&self) -> DeviceInfoView {
        DeviceInfoView {
            device_id: self.device_id@,
            state: self.state@,
            model: opt_view(self.model),
            android_version: opt_view(self.android_version),
        }
    }
}

/// Permission status of the companion app on a device.
#[derive(Debug, Clone, Copy, PartialEq, Eq, Structural)]
pub struct PermissionStatus {
    /// Whether the companion app is installed.
    pub companion_installed: bool,
    /// Whether its AccessibilityService is enabled.
    pub accessibility_enabled: bool,
    /// Whether its NotificationListenerService is enabled.
    pub notification_listener_enabled: bool,
}

/// The message naming what is missing, in the order companion app,
/// accessibility service, notification listener.
pub open spec fn missing_message_spec(s: PermissionStatus) -> Seq<char> {
    "Missing permissions: "@ + join_list(
        (if !s.companion_installed { seq!["Companion app not installed"@] } else { Seq::empty() }) + (
        if !s.accessibility_enabled {
            seq!["AccessibilityService not enabled"@]
        } else {
            Seq::empty()
        }) + (if !s.notification_listener_enabled {
            seq!["NotificationListenerService not enabled"@]
        } else {
            Seq::empty()
        }),
    )
}

/// Items joined with ", ".
pub open spec fn join_list(items: Seq<Seq<char>>) -> Seq<char> {
    crate::text::join(items, ", "@)
}

impl PermissionStatus {
    /// All three permissions are in place.
    pub open spec fn spec_is_ready(self) -> bool {
        self.companion_installed && self.accessibility_enabled && self.notification_listener_enabled
    }

    /// Whether everything the companion app needs is in place.
    pub fn is_ready(&self) -> (r: bool)
        ensures
            r == self.spec_is_ready(),
    {
        self.companion_installed && self.accessibility_enabled && self.notification_listener_enabled
    }

    /// A message listing what is missing, or `None` when ready.
    pub fn missing_permissions_message(&self) -> (r: Option<String>)
        ensures
            self.spec_is_ready() ==> r is None,
            !self.spec_is_ready() ==> (r matches Some(m) && m@ == missing_message_spec(*self)),
    {
        if self.is_ready() {
            return None;
        }
        let mut missing: Vec<Vec<char>> = Vec::new();
        if !self.companion_installed {
            missing.push(chars_of("Companion app not installed"));
        }
        if !self.accessibility_enabled {
            missing.push(chars_of("AccessibilityService not enabled"));
        }
        if !self.notification_listener_enabled {
            missing.push(chars_of("NotificationListenerService not enabled"));
        }
        let ghost expected = (if !self.companion_installed { seq!["Companion app not installed"@] } else { Seq::empty() }) + (
            if !self.accessibility_enabled {
                seq!["AccessibilityService not enabled"@]
            } else {
                Seq::empty()
            }) + (if !self.notification_listener_enabled {
            seq!["NotificationListenerService not enabled"@]
        } else {
            Seq::empty()
        });
        assert(seqs_of(missing@) =~= expected);
        let sep = chars_of(", ");
        let joined = crate::text::join_exec(&missing, sep.as_slice());
        let mut msg: Vec<char> = Vec::new();
        push_str(&mut msg, "Missing permissions: ");
        push_chars(&mut msg, joined.as_slice());
        Some(string_from_chars(msg.as_slice()))
    }
}

/// Key and value of a `key:value` word, split at its first colon.
pub open spec fn split_once_colon(w: Seq<char>) -> Option<(Seq<char>, Seq<char>)> {
    match find_char(w, ':') {
        None => None,
        Some(k) => Some((w.take(k), w.skip(k + 1))),
    }
}

/// The value of the last `model:` word among `parts`.
pub open spec fn model_of(parts: Seq<Seq<char>>) -> Option<Seq<char>>
    decreases parts.len(),
{
    if parts.len() == 0 {
        None
    } else {
        match split_once_colon(parts.last()) {
            Some((k, v)) => if k == "model"@ {
                Some(v)
            } else {
                model_of(parts.drop_last())
            },
            None => model_of(parts.drop_last()),
        }
    }
}

/// The device a line of `adb devices -l` describes, if it is a usable device:
/// a non-blank line with at least two words whose second word (the state) is
/// `device`.
pub open spec fn device_from_line(line: Seq<char>) -> Option<DeviceInfoView> {
    let t = trim(line);
    let parts = words(t);
    if t.len() == 0 || parts.len() < 2 || parts[1] != "device"@ {
        None
    } else {
        Some(DeviceInfoView { device_id: parts[0], state: parts[1], model: model_of(parts.skip(2)), android_version: None })
    }
}

/// Devices described by a sequence of lines.
pub open spec fn devices_from_lines(ls: Seq<Seq<char>>) -> Seq<DeviceInfoView>
    decreases ls.len(),
{
    if ls.len() == 0 {
        Seq::empty()
    } else {
        let before = devices_from_lines(ls.drop_last());
        match device_from_line(ls.last()) {
            Some(d) => before.push(d),
            None => before,
        }
    }
}

/// Devices listed by `adb devices -l`: every line after the header.
pub open spec fn parse_devices_spec(output: Seq<char>) -> Seq<DeviceInfoView> {
    let ls = lines(output);
    if ls.len() == 0 {
        Seq::empty()
    } else {
        devices_from_lines(ls.skip(1))
    }
}

/// The views of device descriptions.
pub open spec fn devices_view(v: Seq<DeviceInfo>) -> Seq<DeviceInfoView> {
    v.map_values(|d: DeviceInfo| d@)
}

fn model_of_exec(parts: &Vec<Vec<char>>, from: usize) -> (r: Option<String>)
    requires
        from <= parts@.len(),
    ensures
        opt_view(r) == model_of(seqs_of(parts@).skip(from as int)),
{
    let mut model: Option<String> = None;
    let mut i = from;
    assert(seqs_of(parts@).skip(from as int).take(0) == Seq::<Seq<char>>::empty());
    while i < parts.len()
        invariant
            from <= i <= parts@.len(),
            opt_view(model) == model_of(seqs_of(parts@).skip(from as int).take(i - from)),
        decreases parts@.len() - i,
    {
        let ghost ps = seqs_of(parts@).skip(from as int);
        proof {
            assert(ps.take(i - from + 1).drop_last() == ps.take(i - from));
            assert(ps.take(i - from + 1).last() == parts@[i as int]@);
        }
        let w = parts[i].as_slice();
        proof {
            lemma_find_char_from_bounds(w@, ':', 0);
            let t = ps.take(i - from + 1);
            assert(t.last() == w@);
            assert(t.drop_last() == ps.take(i - from));
            assert(model_of(t) == match split_once_colon(w@) {
                Some((k, v)) => if k == "model"@ { Some(v) } else { model_of(ps.take(i - from)) },
                None => model_of(ps.take(i - from)),
            });
        }
        match find_char_from_exec(w, ':', 0) {
            Some(k) => {
                assert(find_char_from(w@, ':', 0) == Some(k as int));
                let key = sub_chars(w, 0, k);
                assert(key@ == w@.take(k as int));
                if chars_eq_str(key.as_slice(), "model") {
                    let n = w.len();
                    let value = sub_chars(w, k + 1, n);
                    assert(value@ == w@.skip(k + 1));
                    model = Some(string_from_chars(value.as_slice()));
                    assert(split_once_colon(w@) == Some((key@, value@)));
                    assert(opt_view(model) == Some(value@));
                    assert(opt_view(model) == model_of(ps.take(i - from + 1)));
                } else {
                    assert(split_once_colon(w@).unwrap().0 == key@);
                    assert(opt_view(model) == model_of(ps.take(i - from + 1)));
                }
            },
            None => {
                assert(opt_view(model) == model_of(ps.take(i - from + 1)));
            },
        }
        assert(opt_view(model) == model_of(ps.take(i - from + 1)));
        i = i + 1;
    }
    assert(seqs_of(parts@).skip(from as int).take(parts@.len() - from) == seqs_of(parts@).skip(from as int));
    model
}

/// Parse the output of `adb devices -l` into the usable devices it lists
/// (state `device`), with the model when reported.
pub fn parse_devices_output(output: &str) -> (r: Vec<DeviceInfo>)
    ensures
        devices_view(r@) == parse_devices_spec(output@),
{
    let cs = chars_of(output);
    let ls = lines_exec(cs.as_slice());
    let mut devices: Vec<DeviceInfo> = Vec::new();
    if ls.len() == 0 {
        assert(devices_view(devices@) =~= Seq::<DeviceInfoView>::empty());
        return devices;
    }
    let ghost tail = seqs_of(ls@).skip(1);
    assert(devices_view(devices@) =~= devices_from_lines(tail.take(0)));
    let mut i: usize = 1;
    while i < ls.len()
        invariant
            1 <= i <= ls@.len(),
            tail == seqs_of(ls@).skip(1),
            devices_view(devices@) == devices_from_lines(tail.take(i - 1)),
        decreases ls@.len() - i,
    {
        proof {
            assert(tail.take(i as int).drop_last() == tail.take(i - 1));
            assert(tail.take(i as int).last() == ls@[i as int]@);
        }
        let t = trim_exec(ls[i].as_slice());
        let parts = words_exec(t.as_slice());
        let ghost before = devices_view(devices@);
        if t.len() > 0 && parts.len() >= 2 && chars_eq_str(parts[1].as_slice(), "device") {
            let model = model_of_exec(&parts, 2);
            let info = DeviceInfo {
                device_id: string_from_chars(parts[0].as_slice()),
                state: string_from_chars(parts[1].as_slice()),
                model,
                android_version: None,
            };
            devices.push(info);
            assert(devices_view(devices@) =~= before.push(info@));
        }
        i = i + 1;
    }
    assert(tail.take(ls@.len() - 1) == tail);
    devices
}

/// Whether `pm list packages <companion>` output shows the companion app.
pub fn companion_installed_in(output: &str) -> (r: bool)
    ensures
        r == contains(output@, COMPANION_PACKAGE@),
{
    let cs = chars_of(output);
    contains_str(cs.as_slice(), COMPANION_PACKAGE)
}

/// Whether the `enabled_accessibility_services` setting lists the companion's
/// accessibility service (in either form).
pub fn accessibility_enabled_in(output: &str) -> (r: bool)
    ensures
        r == (contains(output@, ACCESSIBILITY_COMPONENT@) || contains(output@, ACCESSIBILITY_COMPONENT_LONG@)),
{
    let cs = chars_of(output);
    contains_str(cs.as_slice(), ACCESSIBILITY_COMPONENT) || contains_str(cs.as_slice(), ACCESSIBILITY_COMPONENT_LONG)
}

/// Whether the `enabled_notification_listeners` setting lists the companion's
/// notification listener (in either form).
pub fn notification_listener_enabled_in(output: &str) -> (r: bool)
    ensures
        r == (contains(output@, NOTIFICATION_COMPONENT@) || contains(output@, NOTIFICATION_COMPONENT_SHORT@)),
{
    let cs = chars_of(output);
    contains_str(cs.as_slice(), NOTIFICATION_COMPONENT) || contains_str(cs.as_slice(), NOTIFICATION_COMPONENT_SHORT)
}

/// A device ID is safe to pass to the shell: letters and digits (Unicode
/// alphanumerics) and `.`, `:`, `-`, `_` only.
pub open spec fn valid_device_id_spec(id: Seq<char>) -> bool {
    forall|i: int|
        0 <= i < id.len() ==> (unicode_alphanumeric(#[trigger] id[i]) || id[i] == '.' || id[i] == ':' || id[i] == '-'
            || id[i] == '_')
}

/// Whether a device ID has only safe characters (see `valid_device_id_spec`).
pub fn is_valid_device_id(device_id: &str) -> (r: bool)
    ensures
        r == valid_device_id_spec(device_id@),
{
    let cs = chars_of(device_id);
    let mut i: usize = 0;
    while i < cs.len()
        invariant
            i <= cs@.len(),
            cs@ == device_id@,
            forall|j: int|
                0 <= j < i ==> (unicode_alphanumeric(#[trigger] cs@[j]) || cs@[j] == '.' || cs@[j] == ':' || cs@[j] == '-'
                    || cs@[j] == '_'),
        decreases cs@.len() - i,
    {
        let c = cs[i];
        if !(is_alphanumeric_exec(c) || c == '.' || c == ':' || c == '-' || c == '_') {
            return false;
        }
        i = i + 1;
    }
    true
}

/// The new `enabled_accessibility_services` value: the companion's service
/// alone when the current value is blank or `null`, nothing to do when it is
/// already listed, otherwise the current (trimmed) value, `:`, the service.
pub open spec fn accessibility_update_spec(current: Seq<char>) -> Option<Seq<char>> {
    let t = trim(current);
    if t.len() == 0 || t == "null"@ {
        Some(ACCESSIBILITY_COMPONENT@)
    } else if contains(t, ACCESSIBILITY_COMPONENT@) {
        None
    } else {
        Some(t + ":"@ + ACCESSIBILITY_COMPONENT@)
    }
}

/// The value to write to `enabled_accessibility_services`, or `None` when the
/// companion's service is already enabled.
pub fn accessibility_services_update(current: &str) -> (r: Option<String>)
    ensures
        opt_view(r) == accessibility_update_spec(current@),
{
    let cs = chars_of(current);
    let t = trim_exec(cs.as_slice());
    if t.len() == 0 || chars_eq_str(t.as_slice(), "null") {
        return Some(ACCESSIBILITY_COMPONENT.to_owned());
    }
    if contains_str(t.as_slice(), ACCESSIBILITY_COMPONENT) {
        return None;
    }
    let mut v: Vec<char> = Vec::new();
    push_chars(&mut v, t.as_slice());
    push_str(&mut v, ":");
    push_str(&mut v, ACCESSIBILITY_COMPONENT);
    Some(string_from_chars(v.as_slice()))
}

} // verus!

//! ADB command composition, argument validation and output parsing. Running
//! the `adb` process is left to the caller; this module decides what to run and
//! what its output means.

use vstd::prelude::*;
use crate::text::{
    chars_of, contains, contains_str, ends_with, ends_with_exec, find_char, find_char_from_exec,
    has_char, is_ascii_alphanumeric, is_ascii_alphanumeric_exec, join, join_exec, lemma_find_char_from_bounds,
    lines, lines_exec, push_chars, push_str, seqs_of, starts_with, starts_with_exec, string_from_chars, sub_chars,
    trim, trim_exec,
};

verus! {

/// Longest package name or permission accepted, in bytes.
pub const MAX_NAME_BYTES: usize = 255;

/// ADB command executor: where the `adb` binary is.
pub struct AdbExecutor {
    /// Path to the ADB binary.
    pub adb_path: String,
}

/// Why an argument was refused before running ADB.
#[derive(Debug, PartialEq, Eq)]
pub enum AdbError {
    /// The package name is empty or longer than 255 bytes.
    InvalidPackageNameLength,
    /// The package name has a character other than ASCII letters, digits, `.`
    /// and `_`, or has no `.` (the name is attached).
    InvalidPackageNameFormat(String),
    /// The permission is empty or longer than 255 bytes.
    InvalidPermissionLength,
    /// The permission has no domain (no `.`).
    InvalidPermissionDomain,
    /// The permission has a character other than ASCII letters, digits, `.` and `_`.
    InvalidPermissionCharacters,
    /// The APK path is empty.
    ApkPathEmpty,
    /// The APK path does not end with `.apk`.
    ApkPathExtension,
    /// No file exists at the APK path (the path is attached).
    ApkNotFound(String),
    /// The APK path names something other than a file (the path is attached).
    ApkNotAFile(String),
}

/// The text of an argument error.
pub open spec fn adb_error_message(e: AdbError) -> Seq<char> {
    match e {
        AdbError::InvalidPackageNameLength => "Invalid package name length"@,
        AdbError::InvalidPackageNameFormat(n) => "Invalid package name format: "@ + n@,
        AdbError::InvalidPermissionLength => "Invalid permission string length"@,
        AdbError::InvalidPermissionDomain => "Invalid permission format: must contain domain (e.g., android.permission.CAMERA)"@,
        AdbError::InvalidPermissionCharacters => "Invalid permission format: contains illegal characters"@,
        AdbError::ApkPathEmpty => "APK path is empty"@,
        AdbError::ApkPathExtension => "APK path must end with .apk extension"@,
        AdbError::ApkNotFound(p) => "APK file does not exist: "@ + p@,
        AdbError::ApkNotAFile(p) => "APK path is not a file: "@ + p@,
    }
}

impl AdbError {
    /// The error's text (see `adb_error_message`).
    pub fn message(&self) -> (r: String)
        ensures
            r@ == adb_error_message(*self),
    {
        let mut m: Vec<char> = Vec::new();
        match self {
            AdbError::InvalidPackageNameLength => push_str(&mut m, "Invalid package name length"),
            AdbError::InvalidPackageNameFormat(n) => {
                push_str(&mut m, "Invalid package name format: ");
                push_str(&mut m, n.as_str());
            },
            AdbError::InvalidPermissionLength => push_str(&mut m, "Invalid permission string length"),
            AdbError::InvalidPermissionDomain => push_str(
                &mut m,
                "Invalid permission format: must contain domain (e.g., android.permission.CAMERA)",
            ),
            AdbError::InvalidPermissionCharacters => push_str(
                &mut m,
                "Invalid permission format: contains illegal characters",
            ),
            AdbError::ApkPathEmpty => push_str(&mut m, "APK path is empty"),
            AdbError::ApkPathExtension => push_str(&mut m, "APK path must end with .apk extension"),
            AdbError::ApkNotFound(p) => {
                push_str(&mut m, "APK file does not exist: ");
                push_str(&mut m, p.as_str());
            },
            AdbError::ApkNotAFile(p) => {
                push_str(&mut m, "APK path is not a file: ");
                push_str(&mut m, p.as_str());
            },
        }
        string_from_chars(m.as_slice())
    }
}

/// What the file system says about a path.
#[derive(Debug, Clone, Copy, PartialEq, Eq, Structural)]
pub enum PathStatus {
    Missing,
    NotAFile,
    File,
}

/// The characters allowed in package names and permissions: ASCII letters
/// and digits, `.` and `_`.
pub open spec fn is_name_char(c: char) -> bool {
    is_ascii_alphanumeric(c) || c == '.' || c == '_'
}

/// Every character of `s` is allowed in a package name.
pub open spec fn all_name_chars(s: Seq<char>) -> bool {
    forall|i: int| 0 <= i < s.len() ==> is_name_char(s[i])
}

fn all_name_chars_exec(s: &[char]) -> (r: bool)
    ensures
        r == all_name_chars(s@),
{
    let mut i: usize = 0;
    while i < s.len()
        invariant
            i <= s@.len(),
            forall|j: int| 0 <= j < i ==> is_name_char(s@[j]),
        decreases s@.len() - i,
    {
        let c = s[i];
        if !(is_ascii_alphanumeric_exec(c) || c == '.' || c == '_') {
            return false;
        }
        i = i + 1;
    }
    true
}

/// What `validate_package_name` decides: length first (empty or over 255
/// bytes), then characters and the presence of a `.`.
pub open spec fn package_name_check(name: &str) -> Result<(), AdbError> {
    if name@.len() == 0 || name.len() > MAX_NAME_BYTES {
        Err(AdbError::InvalidPackageNameLength)
    } else if !all_name_chars(name@) || !name@.contains('.') {
        Err(AdbError::InvalidPackageNameFormat(arbitrary()))
    } else {
        Ok(())
    }
}

/// What `validate_permission` decides: length, then domain, then characters.
pub open spec fn permission_check(permission: &str) -> Result<(), AdbError> {
    if permission@.len() == 0 || permission.len() > MAX_NAME_BYTES {
        Err(AdbError::InvalidPermissionLength)
    } else if !permission@.contains('.') {
        Err(AdbError::InvalidPermissionDomain)
    } else if !all_name_chars(permission@) {
        Err(AdbError::InvalidPermissionCharacters)
    } else {
        Ok(())
    }
}

/// `s` with every single quote replaced by `'\''` (close the quote, an escaped
/// quote, reopen the quote).
pub open spec fn escape_single_quotes(s: Seq<char>) -> Seq<char>
    decreases s.len(),
{
    if s.len() == 0 {
        Seq::empty()
    } else {
        escape_single_quotes(s.drop_last()) + (if s.last() == '\'' {
            seq!['\'', '\\', '\'', '\'']
        } else {
            seq![s.last()]
        })
    }
}

/// Single-quote enclosure for the Android shell.
pub open spec fn shell_quote_spec(s: Seq<char>) -> Seq<char> {
    seq!['\''] + escape_single_quotes(s) + seq!['\'']
}

/// Lines of a logcat dump that belong to crash reports: a line containing
/// `FATAL EXCEPTION` starts a report, and the report runs until a blank line.
/// Returns the kept lines and whether a report is still open.
pub open spec fn crash_lines(ls: Seq<Seq<char>>) -> (Seq<Seq<char>>, bool)
    decreases ls.len(),
{
    if ls.len() == 0 {
        (Seq::empty(), false)
    } else {
        let (kept, open) = crash_lines(ls.drop_last());
        let line = ls.last();
        if contains(line, "FATAL EXCEPTION"@) {
            (kept.push(line), true)
        } else if open {
            if trim(line).len() == 0 {
                (kept, false)
            } else {
                (kept.push(line), true)
            }
        } else {
            (kept, false)
        }
    }
}

/// Package names in `pm list packages` output: lines starting with
/// `package:`, without that prefix, trimmed, empty names dropped.
pub open spec fn package_names(ls: Seq<Seq<char>>) -> Seq<Seq<char>>
    decreases ls.len(),
{
    if ls.len() == 0 {
        Seq::empty()
    } else {
        let before = package_names(ls.drop_last());
        let line = ls.last();
        if starts_with(line, "package:"@) && trim(line.skip(8)).len() > 0 {
            before.push(trim(line.skip(8)))
        } else {
            before
        }
    }
}

/// First line of `ls` that contains `key`.
pub open spec fn first_line_containing(ls: Seq<Seq<char>>, key: Seq<char>) -> Option<Seq<char>>
    decreases ls.len(),
{
    if ls.len() == 0 {
        None
    } else if contains(ls[0], key) {
        Some(ls[0])
    } else {
        first_line_containing(ls.drop_first(), key)
    }
}

/// The second `:`-separated field of a line (the text between its first and
/// second colon, or to its end).
pub open spec fn second_field(line: Seq<char>) -> Option<Seq<char>> {
    match find_char(line, ':') {
        None => None,
        Some(k) => {
            let rest = line.skip(k + 1);
            match find_char(rest, ':') {
                None => Some(rest),
                Some(m) => Some(rest.take(m)),
            }
        },
    }
}

/// The value `wm size` or `wm density` reports: the trimmed second field of the
/// first line containing `key`, or `unknown`.
pub open spec fn wm_value(output: Seq<char>, key: Seq<char>) -> Seq<char> {
    match first_line_containing(lines(output), key) {
        None => "unknown"@,
        Some(line) => match second_field(line) {
            None => "unknown"@,
            Some(f) => trim(f),
        },
    }
}

/// The arguments after the ADB binary, seen as character sequences.
pub open spec fn args_view(args: Seq<String>) -> Seq<Seq<char>> {
    args.map_values(|a: String| a@)
}

/// `adb -s <device> install [-r] <apk>`.
pub open spec fn install_args_spec(device_id: Seq<char>, apk_path: Seq<char>, replace: bool) -> Seq<Seq<char>> {
    seq!["-s"@, device_id, "install"@] + (if replace { seq!["-r"@] } else { Seq::empty() }) + seq![apk_path]
}

/// `adb -s <device> uninstall [-k] <package>`.
pub open spec fn uninstall_args_spec(device_id: Seq<char>, package: Seq<char>, keep_data: bool) -> Seq<Seq<char>> {
    seq!["-s"@, device_id, "uninstall"@] + (if keep_data { seq!["-k"@] } else { Seq::empty() }) + seq![package]
}

/// `adb -s <device> shell pm list packages [-3 | -s]` for the filters
/// `third_party` and `system`; any other filter lists all packages.
pub open spec fn list_packages_args_spec(device_id: Seq<char>, filter: Seq<char>) -> Seq<Seq<char>> {
    seq!["-s"@, device_id, "shell"@, "pm"@, "list"@, "packages"@] + (if filter == "third_party"@ {
        seq!["-3"@]
    } else if filter == "system"@ {
        seq!["-s"@]
    } else {
        Seq::empty()
    })
}

/// `adb -s <device> logcat -d [--pid=<pid>] -t <lines> *:<level>`.
pub open spec fn logcat_args_spec(device_id: Seq<char>, pid: Option<Seq<char>>, lines_count: int, level: Seq<char>) -> Seq<
    Seq<char>,
> {
    seq!["-s"@, device_id, "logcat"@, "-d"@] + (match pid {
        Some(p) => seq!["--pid="@ + p],
        None => Seq::empty(),
    }) + seq!["-t"@, crate::text::decimal(lines_count), "*:"@ + level]
}

fn string_of(s: &str) -> (r: String)
    ensures
        r@ == s@,
{
    s.to_owned()
}

impl AdbExecutor {
    /// Create an executor for the ADB binary at `adb_path`.
    pub fn new(adb_path: &str) -> (r: AdbExecutor)
        ensures
            r.adb_path@ == adb_path@,
    {
        AdbExecutor { adb_path: string_of(adb_path) }
    }

    /// Validate a package name: 1 to 255 bytes of ASCII letters, digits, `.`
    /// and `_`, with at least one `.`.
    pub fn validate_package_name(name: &str) -> (r: Result<(), AdbError>)
        ensures
            match package_name_check(name) {
                Ok(()) => r is Ok,
                Err(AdbError::InvalidPackageNameLength) => r == Err::<(), AdbError>(AdbError::InvalidPackageNameLength),
                Err(_) => r matches Err(AdbError::InvalidPackageNameFormat(n)) && n@ == name@,
            },
    {
        let cs = chars_of(name);
        if cs.len() == 0 || name.len() > MAX_NAME_BYTES {
            return Err(AdbError::InvalidPackageNameLength);
        }
        if !all_name_chars_exec(cs.as_slice()) || !has_char(cs.as_slice(), '.') {
            return Err(AdbError::InvalidPackageNameFormat(string_of(name)));
        }
        Ok(())
    }

    /// Validate an Android permission string: 1 to 255 bytes, containing a
    /// `.` (a domain such as `android.permission.CAMERA`), and only ASCII
    /// letters, digits, `.` and `_`.
    pub fn validate_permission(permission: &str) -> (r: Result<(), AdbError>)
        ensures
            r == permission_check(permission),
    {
        let cs = chars_of(permission);
        if cs.len() == 0 || permission.len() > MAX_NAME_BYTES {
            return Err(AdbError::InvalidPermissionLength);
        }
        if !has_char(cs.as_slice(), '.') {
            return Err(AdbError::InvalidPermissionDomain);
        }
        if !all_name_chars_exec(cs.as_slice()) {
            return Err(AdbError::InvalidPermissionCharacters);
        }
        Ok(())
    }

    /// Validate an APK path: not empty, ending with `.apk`, naming an
    /// existing file (as `status`, taken from the file system, says).
    pub fn validate_apk_path(path: &str, status: PathStatus) -> (r: Result<(), AdbError>)
        ensures
            path@.len() == 0 ==> r == Err::<(), AdbError>(AdbError::ApkPathEmpty),
            path@.len() > 0 && !ends_with(path@, ".apk"@) ==> r == Err::<(), AdbError>(AdbError::ApkPathExtension),
            path@.len() > 0 && ends_with(path@, ".apk"@) ==> match status {
                PathStatus::Missing => r matches Err(AdbError::ApkNotFound(p)) && p@ == path@,
                PathStatus::NotAFile => r matches Err(AdbError::ApkNotAFile(p)) && p@ == path@,
                PathStatus::File => r is Ok,
            },
    {
        let cs = chars_of(path);
        if cs.len() == 0 {
            return Err(AdbError::ApkPathEmpty);
        }
        let ext = chars_of(".apk");
        if !ends_with_exec(cs.as_slice(), ext.as_slice()) {
            return Err(AdbError::ApkPathExtension);
        }
        match status {
            PathStatus::Missing => Err(AdbError::ApkNotFound(string_of(path))),
            PathStatus::NotAFile => Err(AdbError::ApkNotAFile(string_of(path))),
            PathStatus::File => Ok(()),
        }
    }

    /// Enclose `text` in single quotes for the Android shell, escaping embedded
    /// single quotes as `'\''`.
    pub fn shell_quote(text: &str) -> (r: String)
        ensures
            r@ == shell_quote_spec(text@),
    {
        let cs = chars_of(text);
        let mut out: Vec<char> = Vec::new();
        out.push('\'');
        let mut i: usize = 0;
        while i < cs.len()
            invariant
                i <= cs@.len(),
                out@ == seq!['\''] + escape_single_quotes(cs@.take(i as int)),
            decreases cs@.len() - i,
        {
            proof {
                assert(cs@.take(i + 1).drop_last() == cs@.take(i as int));
                assert(cs@.take(i + 1).last() == cs@[i as int]);
            }
            if cs[i] == '\'' {
                out.push('\'');
                out.push('\\');
                out.push('\'');
                out.push('\'');
            } else {
                out.push(cs[i]);
            }
            i = i + 1;
        }
        out.push('\'');
        assert(cs@.take(cs@.len() as int) == cs@);
        string_from_chars(out.as_slice())
    }

    /// The shell command that sets the clipboard: `cmd clipboard set-text`
    /// followed by the quoted text.
    pub fn clipboard_command(text: &str) -> (r: String)
        ensures
            r@ == "cmd clipboard set-text "@ + shell_quote_spec(text@),
    {
        let quoted = AdbExecutor::shell_quote(text);
        let mut out: Vec<char> = Vec::new();
        push_str(&mut out, "cmd clipboard set-text ");
        push_str(&mut out, quoted.as_str());
        string_from_chars(out.as_slice())
    }

    /// Keep only crash reports from a logcat dump (see `crash_lines`), joined
    /// with newlines.
    pub fn filter_crash_lines(output: &str) -> (r: String)
        ensures
            r@ == join(crash_lines(lines(output@)).0, "\n"@),
    {
        let cs = chars_of(output);
        let ls = lines_exec(cs.as_slice());
        let marker = chars_of("FATAL EXCEPTION");
        let mut kept: Vec<Vec<char>> = Vec::new();
        let mut open = false;
        let mut i: usize = 0;
        while i < ls.len()
            invariant
                i <= ls@.len(),
                marker@ == "FATAL EXCEPTION"@,
                (seqs_of(kept@), open) == crash_lines(seqs_of(ls@).take(i as int)),
            decreases ls@.len() - i,
        {
            proof {
                assert(seqs_of(ls@).take(i + 1).drop_last() == seqs_of(ls@).take(i as int));
                assert(seqs_of(ls@).take(i + 1).last() == ls@[i as int]@);
            }
            let line = ls[i].as_slice();
            let ghost before = seqs_of(kept@);
            if contains_exec_slice(line, marker.as_slice()) {
                kept.push(ls[i].clone());
                open = true;
                assert(seqs_of(kept@) =~= before.push(line@));
            } else if open {
                let t = trim_exec(line);
                if t.len() == 0 {
                    open = false;
                } else {
                    kept.push(ls[i].clone());
                    assert(seqs_of(kept@) =~= before.push(line@));
                }
            }
            i = i + 1;
        }
        assert(seqs_of(ls@).take(ls@.len() as int) == seqs_of(ls@));
        let nl = chars_of("\n");
        let joined = join_exec(&kept, nl.as_slice());
        string_from_chars(joined.as_slice())
    }

    /// Package names listed by `pm list packages` (see `package_names`).
    pub fn parse_package_list(output: &str) -> (r: Vec<String>)
        ensures
            args_view(r@) == package_names(lines(output@)),
    {
        let cs = chars_of(output);
        let ls = lines_exec(cs.as_slice());
        let prefix = chars_of("package:");
        proof {
            reveal_strlit("package:");
        }
        let mut names: Vec<String> = Vec::new();
        let mut i: usize = 0;
        while i < ls.len()
            invariant
                i <= ls@.len(),
                prefix@ == "package:"@,
                prefix@.len() == 8,
                args_view(names@) == package_names(seqs_of(ls@).take(i as int)),
            decreases ls@.len() - i,
        {
            proof {
                assert(seqs_of(ls@).take(i + 1).drop_last() == seqs_of(ls@).take(i as int));
                assert(seqs_of(ls@).take(i + 1).last() == ls@[i as int]@);
            }
            let line = ls[i].as_slice();
            let ghost before = args_view(names@);
            if starts_with_exec(line, prefix.as_slice()) {
                let rest = sub_chars(line, 8, line.len());
                assert(rest@ == line@.skip(8));
                let name = trim_exec(rest.as_slice());
                if name.len() > 0 {
                    names.push(string_from_chars(name.as_slice()));
                    assert(args_view(names@) =~= before.push(name@));
                }
            }
            i = i + 1;
        }
        assert(seqs_of(ls@).take(ls@.len() as int) == seqs_of(ls@));
        names
    }

    /// The value reported by `wm size` / `wm density` for `key` (`size:` or
    /// `density:`), or `unknown` (see `wm_value`).
    pub fn parse_wm_value(output: &str, key: &str) -> (r: String)
        ensures
            r@ == wm_value(output@, key@),
    {
        let cs = chars_of(output);
        let ls = lines_exec(cs.as_slice());
        let k = chars_of(key);
        assert(seqs_of(ls@).skip(0) == seqs_of(ls@));
        let mut i: usize = 0;
        while i < ls.len()
            invariant
                i <= ls@.len(),
                k@ == key@,
                seqs_of(ls@) == lines(output@),
                first_line_containing(seqs_of(ls@), key@) == first_line_containing(seqs_of(ls@).skip(i as int), key@),
            decreases ls@.len() - i,
        {
            proof {
                assert(seqs_of(ls@).skip(i as int).drop_first() == seqs_of(ls@).skip(i + 1));
                assert(seqs_of(ls@).skip(i as int)[0] == ls@[i as int]@);
            }
            let line = ls[i].as_slice();
            if contains_exec_slice(line, k.as_slice()) {
                proof {
                    lemma_find_char_from_bounds(line@, ':', 0);
                    assert(first_line_containing(seqs_of(ls@), key@) == Some(line@));
                }
                match find_char_from_exec(line, ':', 0) {
                    None => {
                        return string_of("unknown");
                    },
                    Some(c) => {
                        let n = line.len();
                        let rest = sub_chars(line, c + 1, n);
                        assert(rest@ == line@.skip(c + 1));
                        proof {
                            lemma_find_char_from_bounds(rest@, ':', 0);
                        }
                        let field = match find_char_from_exec(rest.as_slice(), ':', 0) {
                            None => rest,
                            Some(m) => sub_chars(rest.as_slice(), 0, m),
                        };
                        let t = trim_exec(field.as_slice());
                        return string_from_chars(t.as_slice());
                    },
                }
            }
            i = i + 1;
        }
        assert(seqs_of(ls@).skip(ls@.len() as int) == Seq::<Seq<char>>::empty());
        string_of("unknown")
    }

    /// The clipboard text that `cmd clipboard get-text` printed, trimmed.
    pub fn clipboard_text(output: &str) -> (r: String)
        ensures
            r@ == trim(output@),
    {
        let cs = chars_of(output);
        let t = trim_exec(cs.as_slice());
        string_from_chars(t.as_slice())
    }

    /// Whether an install, uninstall or `pm clear` reported success (its
    /// output contains `Success`).
    pub fn reported_success(output: &str) -> (r: bool)
        ensures
            r == contains(output@, "Success"@),
    {
        let cs = chars_of(output);
        contains_str(cs.as_slice(), "Success")
    }

    /// Arguments for installing an APK.
    pub fn install_args(device_id: &str, apk_path: &str, replace: bool) -> (r: Vec<String>)
        ensures
            args_view(r@) == install_args_spec(device_id@, apk_path@, replace),
    {
        let mut args: Vec<String> = Vec::new();
        args.push(string_of("-s"));
        args.push(string_of(device_id));
        args.push(string_of("install"));
        if replace {
            args.push(string_of("-r"));
        }
        args.push(string_of(apk_path));
        assert(args_view(args@) =~= install_args_spec(device_id@, apk_path@, replace));
        args
    }

    /// Arguments for uninstalling a package.
    pub fn uninstall_args(device_id: &str, package_name: &str, keep_data: bool) -> (r: Vec<String>)
        ensures
            args_view(r@) == uninstall_args_spec(device_id@, package_name@, keep_data),
    {
        let mut args: Vec<String> = Vec::new();
        args.push(string_of("-s"));
        args.push(string_of(device_id));
        args.push(string_of("uninstall"));
        if keep_data {
            args.push(string_of("-k"));
        }
        args.push(string_of(package_name));
        assert(args_view(args@) =~= uninstall_args_spec(device_id@, package_name@, keep_data));
        args
    }

    /// Arguments for listing packages with a filter.
    pub fn list_packages_args(device_id: &str, filter: &str) -> (r: Vec<String>)
        ensures
            args_view(r@) == list_packages_args_spec(device_id@, filter@),
    {
        let mut args: Vec<String> = Vec::new();
        args.push(string_of("-s"));
        args.push(string_of(device_id));
        args.push(string_of("shell"));
        args.push(string_of("pm"));
        args.push(string_of("list"));
        args.push(string_of("packages"));
        let f = chars_of(filter);
        if crate::text::chars_eq_str(f.as_slice(), "third_party") {
            args.push(string_of("-3"));
        } else if crate::text::chars_eq_str(f.as_slice(), "system") {
            args.push(string_of("-s"));
        }
        assert(args_view(args@) =~= list_packages_args_spec(device_id@, filter@));
        args
    }

    /// Arguments for dumping logcat, optionally for one process.
    pub fn logcat_args(device_id: &str, pid: Option<&str>, lines_count: i32, level: &str) -> (r: Vec<String>)
        ensures
            args_view(r@) == logcat_args_spec(
                device_id@,
                match pid {
                    Some(p) => Some(p@),
                    None => None,
                },
                lines_count as int,
                level@,
            ),
    {
        let mut args: Vec<String> = Vec::new();
        args.push(string_of("-s"));
        args.push(string_of(device_id));
        args.push(string_of("logcat"));
        args.push(string_of("-d"));
        match pid {
            Some(p) => {
                let mut a: Vec<char> = Vec::new();
                push_str(&mut a, "--pid=");
                push_str(&mut a, p);
                args.push(string_from_chars(a.as_slice()));
            },
            None => {},
        }
        args.push(string_of("-t"));
        let n = crate::text::decimal_i64(lines_count as i64);
        args.push(string_from_chars(n.as_slice()));
        let mut lv: Vec<char> = Vec::new();
        push_str(&mut lv, "*:");
        push_str(&mut lv, level);
        args.push(string_from_chars(lv.as_slice()));
        assert(args_view(args@) =~= logcat_args_spec(
            device_id@,
            match pid {
                Some(p) => Some(p@),
                None => None,
            },
            lines_count as int,
            level@,
        ));
        args
    }
}

/// Whether `p` occurs in `s`.
fn contains_exec_slice(s: &[char], p: &[char]) -> (r: bool)
    ensures
        r == contains(s@, p@),
{
    crate::text::contains_exec(s, p)
}

} // verus!

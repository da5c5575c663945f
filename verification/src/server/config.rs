//! The server's options: how tool responses are shaped, and the command line.

use vstd::prelude::*;
use crate::text::chars_eq_str;

verus! {

/// How tool responses are shaped to save tokens.
#[derive(Debug, Clone, Copy, PartialEq, Eq, Structural)]
pub struct ResponseFormatConfig {
    /// The UI tree as a compact table rather than JSON objects.
    pub compact_tree: bool,
    /// The UI tree shows interactive elements only, unless asked otherwise.
    pub filter_elements: bool,
    /// Bounds as `[left, top, right, bottom]` rather than an object.
    pub compact_bounds: bool,
    /// Leave out the tools that others cover.
    pub consolidate: bool,
}

impl Default for ResponseFormatConfig {
    /// Every optimization on.
    fn default() -> (c: ResponseFormatConfig)
        ensures
            c == (ResponseFormatConfig {
                compact_tree: true,
                filter_elements: true,
                compact_bounds: true,
                consolidate: true,
            }),
    {
        ResponseFormatConfig {
            compact_tree: true,
            filter_elements: true,
            compact_bounds: true,
            consolidate: true,
        }
    }
}

/// Why reading the command line stopped early.
#[derive(Debug, Clone, Copy, PartialEq, Eq, Structural)]
pub enum CliStop {
    /// `--help` or `-h`: print the usage and exit.
    Help,
    /// `--device` came last, without an ID: an error.
    MissingDeviceValue,
}

/// The options read from the command line.
#[derive(Debug)]
pub struct CliOptions {
    /// The device to select at start (`--device <id>`).
    pub device_id: Option<String>,
    /// Select the first ready device (`--auto-discover`).
    pub auto_discover: bool,
    /// Run the setup check instead of serving (`--check`).
    pub check_mode: bool,
    /// Enable missing permissions automatically (`--enable-permissions`).
    pub enable_permissions: bool,
    /// Response shaping (`--no-*` turn parts off).
    pub config: ResponseFormatConfig,
    /// Arguments not understood, in order (they are warned about).
    pub unknown: Vec<String>,
    /// Where reading stopped early, if it did.
    pub stop: Option<CliStop>,
}

/// The options as values.
pub struct CliView {
    pub device_id: Option<Seq<char>>,
    pub auto_discover: bool,
    pub check_mode: bool,
    pub enable_permissions: bool,
    pub config: ResponseFormatConfig,
    pub unknown: Seq<Seq<char>>,
    pub stop: Option<CliStop>,
}

impl View for CliOptions {
    type V = CliView;

    open spec fn view(&self) -> CliView {
        CliView {
            device_id: match self.device_id {
                Some(d) => Some(d@),
                None => None,
            },
            auto_discover: self.auto_discover,
            check_mode: self.check_mode,
            enable_permissions: self.enable_permissions,
            config: self.config,
            unknown: self.unknown@.map_values(|s: String| s@),
            stop: self.stop,
        }
    }
}

/// The options before any argument: nothing selected, every optimization on.
pub open spec fn initial_cli() -> CliView {
    CliView {
        device_id: None,
        auto_discover: false,
        check_mode: false,
        enable_permissions: false,
        config: ResponseFormatConfig {
            compact_tree: true,
            filter_elements: true,
            compact_bounds: true,
            consolidate: true,
        },
        unknown: Seq::empty(),
        stop: None,
    }
}

/// The effect of a flag that takes no value.
pub open spec fn apply_flag(a: Seq<char>, st: CliView) -> CliView {
    if a == "--auto-discover"@ {
        CliView { auto_discover: true, ..st }
    } else if a == "--check"@ {
        CliView { check_mode: true, ..st }
    } else if a == "--enable-permissions"@ {
        CliView { enable_permissions: true, ..st }
    } else if a == "--no-compact-tree"@ {
        CliView { config: ResponseFormatConfig { compact_tree: false, ..st.config }, ..st }
    } else if a == "--no-filter-elements"@ {
        CliView { config: ResponseFormatConfig { filter_elements: false, ..st.config }, ..st }
    } else if a == "--no-compact-bounds"@ {
        CliView { config: ResponseFormatConfig { compact_bounds: false, ..st.config }, ..st }
    } else if a == "--no-consolidate"@ {
        CliView { config: ResponseFormatConfig { consolidate: false, ..st.config }, ..st }
    } else {
        CliView { unknown: st.unknown.push(a), ..st }
    }
}

/// Reading the arguments from position `i` on: `--device` takes the next
/// argument, `--help` and `-h` stop, a `--device` without a value stops with
/// an error, and each other argument is a flag or is noted as unknown.
pub open spec fn cli_from(args: Seq<Seq<char>>, i: int, st: CliView) -> CliView
    decreases args.len() - i,
{
    if i < 0 || i >= args.len() {
        st
    } else if args[i] == "--device"@ {
        if i + 1 < args.len() {
            cli_from(args, i + 2, CliView { device_id: Some(args[i + 1]), ..st })
        } else {
            CliView { stop: Some(CliStop::MissingDeviceValue), ..st }
        }
    } else if args[i] == "--help"@ || args[i] == "-h"@ {
        CliView { stop: Some(CliStop::Help), ..st }
    } else {
        cli_from(args, i + 1, apply_flag(args[i], st))
    }
}

/// The views of a sequence of strings.
pub open spec fn args_view(v: Seq<String>) -> Seq<Seq<char>> {
    v.map_values(|s: String| s@)
}

/// Read the command line; its first argument, the program name, is skipped.
pub fn parse_args(args: &Vec<String>) -> (r: CliOptions)
    ensures
        r@ == cli_from(args_view(args@), 1, initial_cli()),
{
    let ghost av = args_view(args@);
    let mut opts = CliOptions {
        device_id: None,
        auto_discover: false,
        check_mode: false,
        enable_permissions: false,
        config: ResponseFormatConfig::default(),
        unknown: Vec::new(),
        stop: None,
    };
    assert(opts@.unknown =~= Seq::<Seq<char>>::empty());
    let mut i: usize = 1;
    while i < args.len()
        invariant
            av == args_view(args@),
            1 <= i,
            opts.stop is None,
            cli_from(av, i as int, opts@) == cli_from(av, 1, initial_cli()),
        decreases args@.len() - i,
    {
        let a = args[i].as_str();
        let ac = crate::text::chars_of(a);
        let ac = ac.as_slice();
        assert(av[i as int] == a@);
        if chars_eq_str(ac, "--device") {
            if i + 1 < args.len() {
                assert(av[i + 1] == args@[i + 1]@);
                opts.device_id = Some(args[i + 1].clone());
                i = i + 2;
            } else {
                opts.stop = Some(CliStop::MissingDeviceValue);
                return opts;
            }
        } else if chars_eq_str(ac, "--help") || chars_eq_str(ac, "-h") {
            opts.stop = Some(CliStop::Help);
            return opts;
        } else {
            if chars_eq_str(ac, "--auto-discover") {
                opts.auto_discover = true;
            } else if chars_eq_str(ac, "--check") {
                opts.check_mode = true;
            } else if chars_eq_str(ac, "--enable-permissions") {
                opts.enable_permissions = true;
            } else if chars_eq_str(ac, "--no-compact-tree") {
                opts.config.compact_tree = false;
            } else if chars_eq_str(ac, "--no-filter-elements") {
                opts.config.filter_elements = false;
            } else if chars_eq_str(ac, "--no-compact-bounds") {
                opts.config.compact_bounds = false;
            } else if chars_eq_str(ac, "--no-consolidate") {
                opts.config.consolidate = false;
            } else {
                let ghost before = opts@;
                opts.unknown.push(args[i].clone());
                assert(opts@.unknown =~= before.unknown.push(a@));
            }
            i = i + 1;
        }
    }
    opts
}

} // verus!

use vstd::prelude::*;
use vstd::string::StrSliceExecFns;
use vstd::string::StringExecFns;

use crate::text::starts_with;
use crate::text::str_eq;
use crate::text::strip_prefix;

verus! {

/// The log level the command line asks for: the value after a
/// `--log-level` switch or inside a `--log-level=` one, the first
/// match winning; `info` when nothing matches.  A trailing
/// `--log-level` without a value is ignored.
pub open spec fn log_level_from(args: Seq<Seq<char>>, i: int) -> Seq<char>
    decreases args.len() - i when 0 <= i <= args.len()
{
    if i >= args.len() {
        "info"@
    } else if args[i] == "--log-level"@ && i + 1 < args.len() {
        args[i + 1]
    } else if starts_with(args[i], "--log-level="@) {
        args[i].skip("--log-level="@.len() as int)
    } else {
        log_level_from(args, i + 1)
    }
}

/// Reads the log level out of the argument list.
pub fn parse_log_level(args: &Vec<String>) -> (r: String)
    ensures
        r@ == log_level_from(args.deep_view(), 0),
{
    let mut i: usize = 0;
    while i < args.len()
        invariant
            0 <= i <= args@.len(),
            log_level_from(args.deep_view(), 0) == log_level_from(args.deep_view(), i as int),
        decreases args@.len() - i,
    {
        proof {
            assert(args.deep_view()[i as int] == args@[i as int]@);
            if i + 1 < args@.len() {
                assert(args.deep_view()[i as int + 1] == args@[i as int + 1]@);
            }
        }
        if str_eq(args[i].as_str(), "--log-level") && i + 1 < args.len() {
            return args[i + 1].clone();
        }
        match strip_prefix(args[i].as_str(), "--log-level=") {
            Some(level) => {
                return level.to_owned();
            },
            None => {},
        }
        i = i + 1;
    }
    String::from_str("info")
}

/// The log file the command line asks for, if any: the value after a
/// `--log-file` switch (nothing when the switch is last) or inside a
/// `--log-file=` one, the first match winning.
pub open spec fn log_file_from(args: Seq<Seq<char>>, i: int) -> Option<Seq<char>>
    decreases args.len() - i when 0 <= i <= args.len()
{
    if i >= args.len() {
        None
    } else if args[i] == "--log-file"@ {
        if i + 1 < args.len() {
            Some(args[i + 1])
        } else {
            None
        }
    } else if starts_with(args[i], "--log-file="@) {
        Some(args[i].skip("--log-file="@.len() as int))
    } else {
        log_file_from(args, i + 1)
    }
}

/// Reads the log file path out of the argument list.
pub fn parse_log_file(args: &Vec<String>) -> (r: Option<String>)
    ensures
        ({
            let spec = log_file_from(args.deep_view(), 0);
            (r is Some <==> spec is Some) && (r matches Some(p) ==> Some(p@) == spec)
        }),
{
    let mut i: usize = 0;
    while i < args.len()
        invariant
            0 <= i <= args@.len(),
            log_file_from(args.deep_view(), 0) == log_file_from(args.deep_view(), i as int),
        decreases args@.len() - i,
    {
        proof {
            assert(args.deep_view()[i as int] == args@[i as int]@);
            if i + 1 < args@.len() {
                assert(args.deep_view()[i as int + 1] == args@[i as int + 1]@);
            }
        }
        if str_eq(args[i].as_str(), "--log-file") {
            if i + 1 < args.len() {
                return Some(args[i + 1].clone());
            } else {
                return None;
            }
        }
        match strip_prefix(args[i].as_str(), "--log-file=") {
            Some(path) => {
                return Some(path.to_owned());
            },
            None => {},
        }
        i = i + 1;
    }
    None
}

} // verus!

//! The command line: `herd [--config <path>]`, and `--help`.

use vstd::prelude::*;
use vstd::string::*;
use crate::text::{chars_of, same_chars, starts_with, string_of, strings_view};

verus! {

/// What the command line asks for. An explicit enum rather than a nested
/// `Option`, so "help was asked for" can never be confused with "no
/// `--config` was given".
#[derive(Debug, PartialEq, Eq)]
pub enum Cli {
    Run { config: Option<String> },
    Help,
}

/// A parse outcome as plain values: `Ok(None)` is `Help`, `Ok(Some(c))`
/// is `Run` with config `c`, and `Err(message)` a rejected command line.
pub open spec fn cli_view(res: Result<Cli, String>) -> Result<Option<Option<Seq<char>>>, Seq<char>> {
    match res {
        Ok(Cli::Help) => Ok(None),
        Ok(Cli::Run { config }) => Ok(
            Some(
                match config {
                    Some(path) => Some(path@),
                    None => None,
                },
            ),
        ),
        Err(message) => Err(message@),
    }
}

/// The prefix of the `--config=<path>` spelling.
pub open spec fn config_eq() -> Seq<char> {
    "--config="@
}

/// The command line from argument `i` on, `config` being the path seen so
/// far, read left to right: `--help` ends the reading with `Help` (even
/// after a `--config`), a flag without a path is refused, anything
/// unrecognised is refused by name, and the last path given wins.
pub open spec fn parse_args_from(
    args: Seq<Seq<char>>,
    i: int,
    config: Option<Seq<char>>,
) -> Result<Option<Option<Seq<char>>>, Seq<char>>
    decreases args.len() - i,
{
    if i < 0 || i >= args.len() {
        Ok(Some(config))
    } else {
        let arg = args[i];
        if arg == "-h"@ || arg == "--help"@ {
            Ok(None)
        } else if arg == "-c"@ || arg == "--config"@ {
            if i + 1 < args.len() && args[i + 1].len() > 0 {
                parse_args_from(args, i + 2, Some(args[i + 1]))
            } else {
                Err(arg + " requires a path"@)
            }
        } else if config_eq().len() <= arg.len() && arg.subrange(0, config_eq().len() as int)
            == config_eq() {
            let path = arg.subrange(config_eq().len() as int, arg.len() as int);
            if path.len() > 0 {
                parse_args_from(args, i + 1, Some(path))
            } else {
                Err("--config requires a path"@)
            }
        } else {
            Err("unknown argument '"@ + arg + "'"@)
        }
    }
}

/// Whether a bare `-h`/`--help` stands among the arguments from `i` on,
/// other than as the path a `-c`/`--config` takes.
pub open spec fn help_from(args: Seq<Seq<char>>, i: int) -> bool
    decreases args.len() - i,
{
    if i < 0 || i >= args.len() {
        false
    } else if args[i] == "-h"@ || args[i] == "--help"@ {
        true
    } else if args[i] == "-c"@ || args[i] == "--config"@ {
        if i + 2 <= args.len() {
            help_from(args, i + 2)
        } else {
            false
        }
    } else {
        help_from(args, i + 1)
    }
}

/// The whole command line (program name excluded): a bare `--help`
/// anywhere wins, since the user asked to read the usage rather than to
/// start anything; otherwise the arguments are read left to right.
pub open spec fn parse_args_spec(args: Seq<Seq<char>>) -> Result<Option<Option<Seq<char>>>, Seq<char>> {
    if help_from(args, 0) {
        Ok(None)
    } else {
        parse_args_from(args, 0, None)
    }
}

/// Whether a bare `-h`/`--help` stands among the arguments, other than as
/// the path of a `-c`/`--config`.
fn asks_for_help(args: &Vec<String>) -> (res: bool)
    ensures
        res == help_from(strings_view(args@), 0),
{
    let ghost a = strings_view(args@);
    let help_short = chars_of("-h");
    let help_long = chars_of("--help");
    let config_short = chars_of("-c");
    let config_long = chars_of("--config");
    let mut i: usize = 0;
    while i < args.len()
        invariant
            a == strings_view(args@),
            help_short@ == "-h"@,
            help_long@ == "--help"@,
            config_short@ == "-c"@,
            config_long@ == "--config"@,
            help_from(a, 0) == help_from(a, i as int),
        decreases args.len() - i,
    {
        let arg = chars_of(args[i].as_str());
        assert(arg@ == a[i as int]);
        if same_chars(arg.as_slice(), help_short.as_slice()) || same_chars(
            arg.as_slice(),
            help_long.as_slice(),
        ) {
            return true;
        }
        if same_chars(arg.as_slice(), config_short.as_slice()) || same_chars(
            arg.as_slice(),
            config_long.as_slice(),
        ) {
            if args.len() - i < 2 {
                return false;
            }
            i = i + 2;
        } else {
            i = i + 1;
        }
    }
    false
}

/// Reads the (deliberately tiny) command line: `-c`/`--config <path>`,
/// `--config=<path>`, and `-h`/`--help`, which wins wherever it stands.
pub fn parse_args(args: &Vec<String>) -> (res: Result<Cli, String>)
    ensures
        cli_view(res) == parse_args_spec(strings_view(args@)),
{
    if asks_for_help(args) {
        return Ok(Cli::Help);
    }
    let ghost a = strings_view(args@);
    let help_short = chars_of("-h");
    let help_long = chars_of("--help");
    let config_short = chars_of("-c");
    let config_long = chars_of("--config");
    let config_prefix = chars_of("--config=");
    let mut config: Option<String> = None;
    let mut i: usize = 0;
    while i < args.len()
        invariant
            a == strings_view(args@),
            help_short@ == "-h"@,
            help_long@ == "--help"@,
            config_short@ == "-c"@,
            config_long@ == "--config"@,
            config_prefix@ == config_eq(),
            i <= args@.len(),
            !help_from(a, 0),
            parse_args_spec(a) == parse_args_from(
                a,
                i as int,
                match config {
                    Some(path) => Some(path@),
                    None => None,
                },
            ),
        decreases args.len() - i,
    {
        let arg = chars_of(args[i].as_str());
        assert(arg@ == a[i as int]);
        if same_chars(arg.as_slice(), help_short.as_slice()) || same_chars(
            arg.as_slice(),
            help_long.as_slice(),
        ) {
            return Ok(Cli::Help);
        }
        if same_chars(arg.as_slice(), config_short.as_slice()) || same_chars(
            arg.as_slice(),
            config_long.as_slice(),
        ) {
            if i + 1 < args.len() && args[i + 1].unicode_len() > 0 {
                assert(a[i + 1] == args@[i + 1]@);
                config = Some(args[i + 1].clone());
                i = i + 2;
                continue;
            }
            let mut message = string_of(arg.as_slice());
            message.append(" requires a path");
            return Err(message);
        }
        if starts_with(arg.as_slice(), config_prefix.as_slice()) {
            let mut path: Vec<char> = Vec::new();
            let start = config_prefix.len();
            for j in start..arg.len()
                invariant
                    start <= arg@.len(),
                    path@ == arg@.subrange(start as int, j as int),
            {
                path.push(arg[j]);
            }
            if path.len() > 0 {
                config = Some(string_of(path.as_slice()));
                i = i + 1;
                continue;
            }
            return Err(string_of(chars_of("--config requires a path").as_slice()));
        }
        let mut message = string_of(chars_of("unknown argument '").as_slice());
        message.append(args[i].as_str());
        message.append("'");
        return Err(message);
    }
    Ok(Cli::Run { config })
}

} // verus!

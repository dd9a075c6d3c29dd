//! The agent's command line.
use vstd::prelude::*;

use crate::text::str_eq;

verus! {

/// What the agent runs with.
#[derive(Debug, Clone, PartialEq)]
pub struct Args {
    pub config_path: String,
    pub legacy_mode: bool,
}

/// Why the command line was refused.
#[derive(Debug, Clone, PartialEq)]
pub enum CliError {
    /// `--config` came last, without a path.
    MissingConfigValue,
    /// An argument that is not an option of the agent.
    UnknownArgument(String),
    /// No `--config` was given.
    MissingConfig,
}

/// What the command line asks for.
#[derive(Debug, Clone, PartialEq)]
pub enum Command {
    Run(Args),
    PrintVersion,
    PrintHelp,
    Fail(CliError),
}

/// The abstract outcome of reading the command line.
pub enum CommandSpec {
    Run(Seq<char>, bool),
    PrintVersion,
    PrintHelp,
    MissingConfigValue,
    UnknownArgument(Seq<char>),
    MissingConfig,
}

/// Reading the arguments from `pos` on, with the config path and legacy
/// flag seen so far: `--version`/`-V` and `--help`/`-h` stop at once,
/// `--config`/`-c` takes the next argument as the path (a later one wins),
/// `--legacy-mode`/`--legacy` sets the flag, anything else is refused; at the
/// end a config path is required.
pub open spec fn read_args(args: Seq<Seq<char>>, pos: int, config: Option<Seq<char>>, legacy: bool) -> CommandSpec
    decreases args.len() - pos,
{
    if pos < 0 || pos >= args.len() {
        match config {
            Some(p) => CommandSpec::Run(p, legacy),
            None => CommandSpec::MissingConfig,
        }
    } else {
        let a = args[pos];
        if a == "--version"@ || a == "-V"@ {
            CommandSpec::PrintVersion
        } else if a == "--help"@ || a == "-h"@ {
            CommandSpec::PrintHelp
        } else if a == "--config"@ || a == "-c"@ {
            if pos + 1 >= args.len() {
                CommandSpec::MissingConfigValue
            } else {
                read_args(args, pos + 2, Some(args[pos + 1]), legacy)
            }
        } else if a == "--legacy-mode"@ || a == "--legacy"@ {
            read_args(args, pos + 1, config, true)
        } else {
            CommandSpec::UnknownArgument(a)
        }
    }
}

/// The abstract form of a command.
pub open spec fn command_view(c: Command) -> CommandSpec {
    match c {
        Command::Run(a) => CommandSpec::Run(a.config_path@, a.legacy_mode),
        Command::PrintVersion => CommandSpec::PrintVersion,
        Command::PrintHelp => CommandSpec::PrintHelp,
        Command::Fail(CliError::MissingConfigValue) => CommandSpec::MissingConfigValue,
        Command::Fail(CliError::UnknownArgument(a)) => CommandSpec::UnknownArgument(a@),
        Command::Fail(CliError::MissingConfig) => CommandSpec::MissingConfig,
    }
}

/// Reads the agent's arguments (without the program name).
pub fn parse(args: &Vec<String>) -> (c: Command)
    ensures
        command_view(c) == read_args(args@.map_values(|s: String| s@), 0, None, false),
{
    let ghost views = args@.map_values(|s: String| s@);
    let mut config_path: Option<String> = None;
    let mut legacy_mode = false;
    let mut pos: usize = 0;
    while pos < args.len()
        invariant
            views == args@.map_values(|s: String| s@),
            pos <= args@.len(),
            read_args(views, 0, None, false) == read_args(
                views,
                pos as int,
                match config_path {
                    Some(p) => Some(p@),
                    None => None,
                },
                legacy_mode,
            ),
        decreases args@.len() - pos,
    {
        let a = args[pos].as_str();
        assert(views[pos as int] == a@);
        if str_eq(a, "--version") || str_eq(a, "-V") {
            return Command::PrintVersion;
        } else if str_eq(a, "--help") || str_eq(a, "-h") {
            return Command::PrintHelp;
        } else if str_eq(a, "--config") || str_eq(a, "-c") {
            if pos + 1 >= args.len() {
                return Command::Fail(CliError::MissingConfigValue);
            }
            assert(views[pos + 1] == args@[pos + 1]@);
            config_path = Some(args[pos + 1].clone());
            pos = pos + 2;
        } else if str_eq(a, "--legacy-mode") || str_eq(a, "--legacy") {
            legacy_mode = true;
            pos = pos + 1;
        } else {
            return Command::Fail(CliError::UnknownArgument(args[pos].clone()));
        }
    }
    match config_path {
        Some(p) => Command::Run(Args { config_path: p, legacy_mode }),
        None => Command::Fail(CliError::MissingConfig),
    }
}

/// The agent's option names are all different from one another.
proof fn reveal_flags()
    ensures
        "--version"@.len() == 9 && "--help"@.len() == 6 && "--config"@.len() == 8,
        "--legacy-mode"@.len() == 13 && "--legacy"@.len() == 8,
        "-V"@.len() == 2 && "-h"@.len() == 2 && "-c"@.len() == 2,
        "-V"@[1] == 'V' && "-h"@[1] == 'h' && "-c"@[1] == 'c',
        "--config"@[2] == 'c' && "--legacy"@[2] == 'l',
{
    reveal_strlit("--version");
    reveal_strlit("-V");
    reveal_strlit("--help");
    reveal_strlit("-h");
    reveal_strlit("--config");
    reveal_strlit("-c");
    reveal_strlit("--legacy-mode");
    reveal_strlit("--legacy");
}

/// Law: `--version` and `-V` ask for the version, whatever follows them.
pub proof fn lemma_version_flags(args: Seq<Seq<char>>)
    requires
        args.len() > 0,
        args[0] == "--version"@ || args[0] == "-V"@,
    ensures
        read_args(args, 0, None, false) == CommandSpec::PrintVersion,
{
}

/// Law: `--help` and `-h` ask for the help text, whatever follows them.
pub proof fn lemma_help_flags(args: Seq<Seq<char>>)
    requires
        args.len() > 0,
        args[0] == "--help"@ || args[0] == "-h"@,
    ensures
        read_args(args, 0, None, false) == CommandSpec::PrintHelp,
{
    reveal_flags();
}

/// Law: `--config` and `-c` take the next argument as the configuration
/// path, which the run uses; without a next argument the command line is
/// refused; a legacy flag before them sets legacy mode; a version flag after
/// them still asks for the version.
pub proof fn lemma_config_flags(flag: Seq<char>, path: Seq<char>)
    requires
        flag == "--config"@ || flag == "-c"@,
    ensures
        read_args(seq![flag, path], 0, None, false) == CommandSpec::Run(path, false),
        read_args(seq![flag], 0, None, false) == CommandSpec::MissingConfigValue,
        read_args(seq!["--legacy-mode"@, flag, path], 0, None, false) == CommandSpec::Run(path, true),
        read_args(seq!["--legacy"@, flag, path], 0, None, false) == CommandSpec::Run(path, true),
        read_args(seq![flag, path, "--version"@], 0, None, false) == CommandSpec::PrintVersion,
{
    reveal_flags();
    reveal_with_fuel(read_args, 4);
}

/// Law: without `--config` the command line is refused for want of a
/// configuration path.
pub proof fn lemma_config_required()
    ensures
        read_args(Seq::<Seq<char>>::empty(), 0, None, false) == CommandSpec::MissingConfig,
        read_args(seq!["--legacy-mode"@], 0, None, false) == CommandSpec::MissingConfig,
        read_args(seq!["--legacy"@], 0, None, false) == CommandSpec::MissingConfig,
{
    reveal_flags();
    reveal_with_fuel(read_args, 3);
}

/// Law: an argument that is none of the agent's options is refused, and
/// named in the refusal.
pub proof fn lemma_unknown_argument(args: Seq<Seq<char>>)
    requires
        args.len() > 0,
        args[0] != "--version"@,
        args[0] != "-V"@,
        args[0] != "--help"@,
        args[0] != "-h"@,
        args[0] != "--config"@,
        args[0] != "-c"@,
        args[0] != "--legacy-mode"@,
        args[0] != "--legacy"@,
    ensures
        read_args(args, 0, None, false) == CommandSpec::UnknownArgument(args[0]),
{
}

} // verus!

//! The command-line grammar: `-p/--port <PORT>` and `-h/--help`.

use vstd::prelude::*;

use crate::text::{parse_unsigned, parse_unsigned_range, to_chars};

verus! {

/// What the arguments ask for.
#[derive(Debug, PartialEq, Eq)]
pub enum CliCommand {
    /// Serve on this port.
    Serve { port: u16 },
    /// Print the usage text.
    Help,
    /// The value after a port option is not a `u16`.
    InvalidPort { value: String },
    /// A port option is the last argument.
    MissingPort { option: String },
    /// An argument that is no option.
    UnknownOption { option: String },
}

/// The same outcome over character sequences.
pub enum CliOutcome {
    Serve(u16),
    Help,
    InvalidPort(Seq<char>),
    MissingPort(Seq<char>),
    UnknownOption(Seq<char>),
}

impl CliCommand {
    pub open spec fn outcome(self) -> CliOutcome {
        match self {
            CliCommand::Serve { port } => CliOutcome::Serve(port),
            CliCommand::Help => CliOutcome::Help,
            CliCommand::InvalidPort { value } => CliOutcome::InvalidPort(value@),
            CliCommand::MissingPort { option } => CliOutcome::MissingPort(option@),
            CliCommand::UnknownOption { option } => CliOutcome::UnknownOption(option@),
        }
    }
}

pub open spec fn is_port_option(a: Seq<char>) -> bool {
    a == "-p"@ || a == "--port"@
}

pub open spec fn is_help_option(a: Seq<char>) -> bool {
    a == "-h"@ || a == "--help"@
}

/// The outcome of the arguments from `i` on, with `port` chosen so far:
/// options are read left to right, a later port replaces an earlier one,
/// and the first help option or error ends the reading.
pub open spec fn cli_outcome_from(args: Seq<Seq<char>>, i: int, port: u16) -> CliOutcome
    decreases args.len() - i,
{
    if i < 0 || i >= args.len() {
        CliOutcome::Serve(port)
    } else if is_port_option(args[i]) {
        if i + 1 < args.len() {
            match parse_unsigned(args[i + 1], u16::MAX as nat) {
                Some(p) => cli_outcome_from(args, i + 2, p as u16),
                None => CliOutcome::InvalidPort(args[i + 1]),
            }
        } else {
            CliOutcome::MissingPort(args[i])
        }
    } else if is_help_option(args[i]) {
        CliOutcome::Help
    } else {
        CliOutcome::UnknownOption(args[i])
    }
}

/// The outcome of a whole argument list; the first argument is the
/// program's name, and the port is 3000 unless an option sets it.
pub open spec fn cli_outcome(args: Seq<Seq<char>>) -> CliOutcome {
    cli_outcome_from(args, 1, 3000)
}

pub open spec fn arg_views(args: Seq<String>) -> Seq<Seq<char>> {
    args.map_values(|a: String| a@)
}

proof fn lemma_port_appended(
    args: Seq<Seq<char>>,
    i: int,
    port: u16,
    opt: Seq<char>,
    value: Seq<char>,
)
    requires
        1 <= i <= args.len(),
        cli_outcome_from(args, i, port) is Serve,
        is_port_option(opt),
        parse_unsigned(value, u16::MAX as nat) is Some,
    ensures
        cli_outcome_from(args + seq![opt, value], i, port) == CliOutcome::Serve(
            parse_unsigned(value, u16::MAX as nat).unwrap() as u16,
        ),
    decreases args.len() - i,
{
    let ext = args + seq![opt, value];
    if i < args.len() {
        assert(ext[i] == args[i]);
        assert(is_port_option(args[i]));
        assert(i + 1 < args.len());
        assert(ext[i + 1] == args[i + 1]);
        let p = parse_unsigned(args[i + 1], u16::MAX as nat).unwrap() as u16;
        lemma_port_appended(args, i + 2, p, opt, value);
    } else {
        assert(ext[i] == opt);
        assert(ext[i + 1] == value);
        let p = parse_unsigned(value, u16::MAX as nat).unwrap() as u16;
        assert(cli_outcome_from(ext, i + 2, p) == CliOutcome::Serve(p));
    }
}

/// A later port option overrides: appending `-p N` or `--port N`, with `N`
/// a valid port, to arguments that start the server makes them start it
/// on port `N`.
pub proof fn lemma_last_port_wins(args: Seq<Seq<char>>, opt: Seq<char>, value: Seq<char>)
    requires
        args.len() >= 1,
        cli_outcome(args) is Serve,
        is_port_option(opt),
        parse_unsigned(value, u16::MAX as nat) is Some,
    ensures
        cli_outcome(args + seq![opt, value]) == CliOutcome::Serve(
            parse_unsigned(value, u16::MAX as nat).unwrap() as u16,
        ),
{
    lemma_port_appended(args, 1, 3000, opt, value);
}

fn arg_is(a: &String, lit: &str) -> (r: bool)
    ensures
        r == (a@ == lit@),
{
    let cs = to_chars(a.as_str());
    let r = crate::text::range_equals(&cs, 0, cs.len(), lit);
    assert(cs@.subrange(0, cs.len() as int) =~= cs@);
    r
}

/// Reads the command line (`args[0]` is the program's name).
pub fn parse_args(args: &Vec<String>) -> (r: CliCommand)
    ensures
        r.outcome() == cli_outcome(arg_views(args@)),
{
    let ghost views = arg_views(args@);
    let mut port: u16 = 3000;
    let mut i: usize = 1;
    while i < args.len()
        invariant
            1 <= i,
            views == arg_views(args@),
            cli_outcome(views) == cli_outcome_from(views, i as int, port),
        decreases args.len() - i,
    {
        let a = &args[i];
        assert(views[i as int] == a@);
        if arg_is(a, "-p") || arg_is(a, "--port") {
            if i + 1 < args.len() {
                let v = &args[i + 1];
                assert(views[i + 1] == v@);
                let cs = to_chars(v.as_str());
                assert(cs@.subrange(0, cs.len() as int) =~= cs@);
                match parse_unsigned_range(&cs, 0, cs.len(), u16::MAX as u64) {
                    Some(p) => {
                        port = p as u16;
                        i = i + 2;
                    },
                    None => {
                        return CliCommand::InvalidPort { value: v.clone() };
                    },
                }
            } else {
                return CliCommand::MissingPort { option: a.clone() };
            }
        } else if arg_is(a, "-h") || arg_is(a, "--help") {
            return CliCommand::Help;
        } else {
            return CliCommand::UnknownOption { option: a.clone() };
        }
    }
    CliCommand::Serve { port }
}

} // verus!

//! Command dispatch: determines the subcommand from the argument
//! vector, scans its flags left to right, and yields either a complete
//! invocation or the first argument error the scan stops at.

use vstd::prelude::*;
use vstd::string::*;
use crate::decimal::spec_parse_i64;
use crate::decimal::parse_i64;

verus! {

/// A fully validated invocation of the tool.
pub enum Invocation {
    /// Print the usage text and succeed.
    Help,
    /// Create a key with the given label and optional free text.
    Create { name: String, notes: Option<String> },
    /// List the managed keys.
    List,
    /// Revoke the key with the given identifier.
    Revoke { id: i64 },
}

/// An argument error, detected before any network work.
pub enum ArgError {
    /// No subcommand was given at all.
    NoCommand,
    /// The first token is not a known subcommand.
    UnknownCommand(String),
    /// A flag token the subcommand does not recognize.
    UnknownArgument(String),
    /// `create` ended without a `--name` value.
    MissingName,
    /// `revoke` ended without an `--id` value.
    MissingId,
    /// The `--id` value does not parse as a 64-bit integer.
    InvalidId,
}

/// The outcome of dispatching, over mathematical values.
pub enum ParseOutcome {
    Help,
    Create { name: Seq<char>, notes: Option<Seq<char>> },
    List,
    Revoke { id: int },
    NoCommand,
    UnknownCommand(Seq<char>),
    UnknownArgument(Seq<char>),
    MissingName,
    MissingId,
    InvalidId,
}

/// Scanning the flags of `create`: tokens are read left to right, a
/// recognized flag consumes the following token as its value (absent
/// at the end of the vector), help short-circuits, anything else is an
/// unknown argument; a later occurrence of a flag overwrites an
/// earlier one.
pub open spec fn scan_create(
    toks: Seq<Seq<char>>,
    name: Option<Seq<char>>,
    notes: Option<Seq<char>>,
) -> ParseOutcome
    decreases toks.len(),
{
    if toks.len() == 0 {
        match name {
            Some(n) => ParseOutcome::Create { name: n, notes },
            None => ParseOutcome::MissingName,
        }
    } else if toks[0] == "--name"@ {
        if toks.len() == 1 {
            scan_create(toks.subrange(1, 1), None, notes)
        } else {
            scan_create(toks.subrange(2, toks.len() as int), Some(toks[1]), notes)
        }
    } else if toks[0] == "--notes"@ {
        if toks.len() == 1 {
            scan_create(toks.subrange(1, 1), name, None)
        } else {
            scan_create(toks.subrange(2, toks.len() as int), name, Some(toks[1]))
        }
    } else if toks[0] == "-h"@ || toks[0] == "--help"@ {
        ParseOutcome::Help
    } else {
        ParseOutcome::UnknownArgument(toks[0])
    }
}

/// Scanning the flags of `revoke`, in the same manner as for `create`;
/// at the end the collected `--id` token must parse as a 64-bit
/// integer.
pub open spec fn scan_revoke(toks: Seq<Seq<char>>, id: Option<Seq<char>>) -> ParseOutcome
    decreases toks.len(),
{
    if toks.len() == 0 {
        match id {
            Some(tok) => match spec_parse_i64(tok) {
                Some(v) => ParseOutcome::Revoke { id: v },
                None => ParseOutcome::InvalidId,
            },
            None => ParseOutcome::MissingId,
        }
    } else if toks[0] == "--id"@ {
        if toks.len() == 1 {
            scan_revoke(toks.subrange(1, 1), None)
        } else {
            scan_revoke(toks.subrange(2, toks.len() as int), Some(toks[1]))
        }
    } else if toks[0] == "-h"@ || toks[0] == "--help"@ {
        ParseOutcome::Help
    } else {
        ParseOutcome::UnknownArgument(toks[0])
    }
}

/// What dispatching the whole argument vector (subcommand first)
/// yields.
pub open spec fn spec_dispatch(args: Seq<Seq<char>>) -> ParseOutcome {
    if args.len() == 0 {
        ParseOutcome::NoCommand
    } else {
        let cmd = args[0];
        let rest = args.subrange(1, args.len() as int);
        if cmd == "-h"@ || cmd == "--help"@ {
            ParseOutcome::Help
        } else if cmd == "create"@ {
            scan_create(rest, None, None)
        } else if cmd == "list"@ {
            ParseOutcome::List
        } else if cmd == "revoke"@ {
            scan_revoke(rest, None)
        } else {
            ParseOutcome::UnknownCommand(cmd)
        }
    }
}

/// Whether an executable dispatch result stands for the given
/// mathematical outcome.
pub open spec fn outcome_matches(r: Result<Invocation, ArgError>, o: ParseOutcome) -> bool {
    match r {
        Ok(Invocation::Help) => o == ParseOutcome::Help,
        Ok(Invocation::Create { name, notes }) => o == (ParseOutcome::Create {
            name: name@,
            notes: notes.deep_view(),
        }),
        Ok(Invocation::List) => o == ParseOutcome::List,
        Ok(Invocation::Revoke { id }) => o == (ParseOutcome::Revoke { id: id as int }),
        Err(ArgError::NoCommand) => o == ParseOutcome::NoCommand,
        Err(ArgError::UnknownCommand(c)) => o == ParseOutcome::UnknownCommand(c@),
        Err(ArgError::UnknownArgument(a)) => o == ParseOutcome::UnknownArgument(a@),
        Err(ArgError::MissingName) => o == ParseOutcome::MissingName,
        Err(ArgError::MissingId) => o == ParseOutcome::MissingId,
        Err(ArgError::InvalidId) => o == ParseOutcome::InvalidId,
    }
}

fn text_eq(a: &String, b: &str) -> (r: bool)
    ensures
        r == (a@ == b@),
{
    let bs = String::from_str(b);
    *a == bs
}

/// Dispatches the argument vector (subcommand first, then its flags).
pub fn dispatch(args: &Vec<String>) -> (r: Result<Invocation, ArgError>)
    ensures
        outcome_matches(r, spec_dispatch(args.deep_view())),
{
    let n: usize = args.len();
    if n == 0 {
        return Err(ArgError::NoCommand);
    }
    let cmd: &String = &args[0];
    let ghost all = args.deep_view();
    let ghost rest = all.subrange(1, all.len() as int);
    if text_eq(cmd, "-h") || text_eq(cmd, "--help") {
        Ok(Invocation::Help)
    } else if text_eq(cmd, "create") {
        dispatch_create(args)
    } else if text_eq(cmd, "list") {
        Ok(Invocation::List)
    } else if text_eq(cmd, "revoke") {
        dispatch_revoke(args)
    } else {
        Err(ArgError::UnknownCommand(cmd.clone()))
    }
}

fn dispatch_create(args: &Vec<String>) -> (r: Result<Invocation, ArgError>)
    requires
        args@.len() >= 1,
    ensures
        outcome_matches(
            r,
            scan_create(
                args.deep_view().subrange(1, args.deep_view().len() as int),
                None,
                None,
            ),
        ),
{
    let ghost all = args.deep_view();
    let ghost rest = all.subrange(1, all.len() as int);
    let n: usize = args.len();
    let mut name: Option<String> = None;
    let mut notes: Option<String> = None;
    let mut i: usize = 1;
    proof {
        assert(rest.subrange(0, rest.len() as int) =~= rest);
    }
    while i < n
        invariant
            1 <= i <= n,
            n == args@.len(),
            all == args.deep_view(),
            rest == all.subrange(1, all.len() as int),
            scan_create(rest, None, None) == scan_create(
                rest.subrange(i - 1, rest.len() as int),
                name.deep_view(),
                notes.deep_view(),
            ),
        decreases n - i,
    {
        let arg: &String = &args[i];
        let ghost rem = rest.subrange(i - 1, rest.len() as int);
        proof {
            assert(rem[0] == all[i as int]);
        }
        if text_eq(arg, "--name") {
            if i + 1 < n {
                name = Some(args[i + 1].clone());
                proof {
                    assert(rem[1] == all[i + 1 as int]);
                    assert(rem.subrange(2, rem.len() as int) =~= rest.subrange(
                        i + 1 as int,
                        rest.len() as int,
                    ));
                }
                i = i + 2;
            } else {
                name = None;
                proof {
                    assert(rem.subrange(1, 1) =~= rest.subrange(i as int, rest.len() as int));
                }
                i = i + 1;
            }
        } else if text_eq(arg, "--notes") {
            if i + 1 < n {
                notes = Some(args[i + 1].clone());
                proof {
                    assert(rem[1] == all[i + 1 as int]);
                    assert(rem.subrange(2, rem.len() as int) =~= rest.subrange(
                        i + 1 as int,
                        rest.len() as int,
                    ));
                }
                i = i + 2;
            } else {
                notes = None;
                proof {
                    assert(rem.subrange(1, 1) =~= rest.subrange(i as int, rest.len() as int));
                }
                i = i + 1;
            }
        } else if text_eq(arg, "-h") || text_eq(arg, "--help") {
            return Ok(Invocation::Help);
        } else {
            return Err(ArgError::UnknownArgument(arg.clone()));
        }
    }
    proof {
        assert(rest.subrange(i - 1, rest.len() as int) =~= Seq::<Seq<char>>::empty());
    }
    match name {
        Some(nm) => Ok(Invocation::Create { name: nm, notes }),
        None => Err(ArgError::MissingName),
    }
}

fn dispatch_revoke(args: &Vec<String>) -> (r: Result<Invocation, ArgError>)
    requires
        args@.len() >= 1,
    ensures
        outcome_matches(
            r,
            scan_revoke(args.deep_view().subrange(1, args.deep_view().len() as int), None),
        ),
{
    let ghost all = args.deep_view();
    let ghost rest = all.subrange(1, all.len() as int);
    let n: usize = args.len();
    let mut id_tok: Option<String> = None;
    let mut i: usize = 1;
    proof {
        assert(rest.subrange(0, rest.len() as int) =~= rest);
    }
    while i < n
        invariant
            1 <= i <= n,
            n == args@.len(),
            all == args.deep_view(),
            rest == all.subrange(1, all.len() as int),
            scan_revoke(rest, None) == scan_revoke(
                rest.subrange(i - 1, rest.len() as int),
                id_tok.deep_view(),
            ),
        decreases n - i,
    {
        let arg: &String = &args[i];
        let ghost rem = rest.subrange(i - 1, rest.len() as int);
        proof {
            assert(rem[0] == all[i as int]);
        }
        if text_eq(arg, "--id") {
            if i + 1 < n {
                id_tok = Some(args[i + 1].clone());
                proof {
                    assert(rem[1] == all[i + 1 as int]);
                    assert(rem.subrange(2, rem.len() as int) =~= rest.subrange(
                        i + 1 as int,
                        rest.len() as int,
                    ));
                }
                i = i + 2;
            } else {
                id_tok = None;
                proof {
                    assert(rem.subrange(1, 1) =~= rest.subrange(i as int, rest.len() as int));
                }
                i = i + 1;
            }
        } else if text_eq(arg, "-h") || text_eq(arg, "--help") {
            return Ok(Invocation::Help);
        } else {
            return Err(ArgError::UnknownArgument(arg.clone()));
        }
    }
    proof {
        assert(rest.subrange(i - 1, rest.len() as int) =~= Seq::<Seq<char>>::empty());
    }
    match id_tok {
        Some(tok) => match parse_i64(tok.as_str()) {
            Some(v) => Ok(Invocation::Revoke { id: v }),
            None => Err(ArgError::InvalidId),
        },
        None => Err(ArgError::MissingId),
    }
}

/// The diagnostic line for an argument error; the missing-command case
/// has no line of its own, only the usage text.
pub open spec fn spec_arg_error_message(e: ArgError) -> Seq<char> {
    match e {
        ArgError::NoCommand => Seq::<char>::empty(),
        ArgError::UnknownCommand(c) => "Unknown command: "@ + c@,
        ArgError::UnknownArgument(a) => "Unknown argument: "@ + a@,
        ArgError::MissingName => "--name is required for create."@,
        ArgError::MissingId => "--id is required for revoke."@,
        ArgError::InvalidId => "--id must be a number."@,
    }
}

impl ArgError {
    /// The diagnostic line for this argument error.
    pub fn message(&self) -> (r: String)
        ensures
            r@ == spec_arg_error_message(*self),
    {
        match self {
            ArgError::NoCommand => String::new(),
            ArgError::UnknownCommand(c) => {
                let mut out = String::from_str("Unknown command: ");
                out.append(c.as_str());
                out
            },
            ArgError::UnknownArgument(a) => {
                let mut out = String::from_str("Unknown argument: ");
                out.append(a.as_str());
                out
            },
            ArgError::MissingName => String::from_str("--name is required for create."),
            ArgError::MissingId => String::from_str("--id is required for revoke."),
            ArgError::InvalidId => String::from_str("--id must be a number."),
        }
    }

    /// Whether this diagnostic is followed by the usage text.
    pub fn shows_usage(&self) -> (r: bool)
        ensures
            r == (*self is NoCommand || *self is UnknownCommand || *self is UnknownArgument),
    {
        match self {
            ArgError::NoCommand => true,
            ArgError::UnknownCommand(_) => true,
            ArgError::UnknownArgument(_) => true,
            _ => false,
        }
    }
}

/// The usage text, as one block.
pub fn usage_text() -> (r: String)
    ensures
        r@ == (
        "curtaurl-admin <command> [options]\n\nCommands:\n  create --name <name> [--notes <notes>]\n  list\n  revoke --id <id>\n\nEnvironment variables:\n  CURTAURL_URL (default: http://localhost:4567)\n  CURTAURL_API_KEY (required)"
        )@,
{
    String::from_str(
        "curtaurl-admin <command> [options]\n\nCommands:\n  create --name <name> [--notes <notes>]\n  list\n  revoke --id <id>\n\nEnvironment variables:\n  CURTAURL_URL (default: http://localhost:4567)\n  CURTAURL_API_KEY (required)",
    )
}

} // verus!

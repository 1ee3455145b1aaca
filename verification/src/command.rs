//! The command parser: one line of user input becomes a structured
//! [`Command`] or a descriptive [`CommandLineError`].
//!
//! Parsing is total: the line is trimmed, split on single spaces, and the
//! first token is dispatched against a fixed table of primary names and
//! short aliases. The `add`/`add-auto` argument tokens are merged into a
//! habit name and an optional numeric goal, where the last numeric token
//! wins.

use vstd::prelude::*;

use crate::numbers::dec_digits;
use crate::numbers::dec_str;
use crate::numbers::parse_u32_spec;
use crate::numbers::parse_u32_str;
use crate::text::split_spaces;
use crate::text::split_str;
use crate::text::str_eq;
use crate::text::trim_spec;
use crate::text::trim_str;

verus! {

/// The structured result of parsing one line of user input.
#[derive(PartialEq, Debug)]
pub enum Command {
    /// Add a habit: name, optional goal, and whether tracking is automatic.
    Add(String, Option<u32>, bool),
    MonthPrev,
    MonthNext,
    Delete(String),
    TrackUp(String),
    TrackDown(String),
    Help(Option<String>),
    Write,
    Quit,
    Blank,
}

/// A parse failure; carries only what is needed to render a message.
#[derive(Debug)]
pub enum CommandLineError {
    /// The first word of the input names no known command.
    InvalidCommand(String),
    /// The named command requires at least this many arguments and got none.
    NotEnoughArgs(String, u32),
}

/// The mathematical value of a [`Command`]: the same shape over `Seq<char>`.
pub enum CommandModel {
    Add { name: Seq<char>, goal: Option<u32>, auto: bool },
    MonthPrev,
    MonthNext,
    Delete { name: Seq<char> },
    TrackUp { name: Seq<char> },
    TrackDown { name: Seq<char> },
    Help { topic: Option<Seq<char>> },
    Write,
    Quit,
    Blank,
}

/// The mathematical value of a [`CommandLineError`].
pub enum ErrorModel {
    InvalidCommand(Seq<char>),
    NotEnoughArgs(Seq<char>, u32),
}

impl View for Command {
    type V = CommandModel;

    open spec fn view(&self) -> CommandModel {
        match self {
            Command::Add(name, goal, auto) => CommandModel::Add {
                name: name@,
                goal: *goal,
                auto: *auto,
            },
            Command::MonthPrev => CommandModel::MonthPrev,
            Command::MonthNext => CommandModel::MonthNext,
            Command::Delete(name) => CommandModel::Delete { name: name@ },
            Command::TrackUp(name) => CommandModel::TrackUp { name: name@ },
            Command::TrackDown(name) => CommandModel::TrackDown { name: name@ },
            Command::Help(topic) => CommandModel::Help {
                topic: match topic {
                    Some(t) => Some(t@),
                    None => None,
                },
            },
            Command::Write => CommandModel::Write,
            Command::Quit => CommandModel::Quit,
            Command::Blank => CommandModel::Blank,
        }
    }
}

impl View for CommandLineError {
    type V = ErrorModel;

    open spec fn view(&self) -> ErrorModel {
        match self {
            CommandLineError::InvalidCommand(t) => ErrorModel::InvalidCommand(t@),
            CommandLineError::NotEnoughArgs(name, n) => ErrorModel::NotEnoughArgs(name@, *n),
        }
    }
}

/// The model of a whole parse result.
pub open spec fn result_view(r: Result<Command, CommandLineError>) -> Result<
    CommandModel,
    ErrorModel,
> {
    match r {
        Ok(c) => Ok(c@),
        Err(e) => Err(e@),
    }
}

/// The name/goal merge over the argument tokens after the first: a numeric
/// token becomes the goal (a later one overwrites an earlier one), any other
/// token is appended to the name with a single separating space.
pub open spec fn merge_rest(args: Seq<Seq<char>>) -> (Seq<char>, Option<u32>)
    decreases args.len(),
{
    if args.len() == 0 {
        (Seq::<char>::empty(), None::<u32>)
    } else {
        let prev = merge_rest(args.drop_last());
        let t = args.last();
        if parse_u32_spec(t) is Some {
            (prev.0, parse_u32_spec(t))
        } else {
            (prev.0 + seq![' '] + t, prev.1)
        }
    }
}

/// The full argument merge of `add`/`add-auto`: the first token always opens
/// the habit name, the rest go through [`merge_rest`].
pub open spec fn merge_args(args: Seq<Seq<char>>) -> (Seq<char>, Option<u32>)
    recommends
        args.len() >= 1,
{
    let rest = merge_rest(args.drop_first());
    (args[0] + rest.0, rest.1)
}

/// What parsing an `add`/`add-auto` line returns, given the typed command
/// word, its argument tokens, and the auto flag.
pub open spec fn parse_add_spec(verb: Seq<char>, args: Seq<Seq<char>>, auto: bool) -> Result<
    CommandModel,
    ErrorModel,
> {
    if args.len() == 0 {
        Err(ErrorModel::NotEnoughArgs(verb, 1))
    } else {
        let m = merge_args(args);
        Ok(CommandModel::Add { name: m.0, goal: m.1, auto })
    }
}

/// Dispatch of the first token against the fixed alias table. Commands that
/// take no arguments ignore trailing tokens; commands that require one fail
/// with `NotEnoughArgs` carrying the token as typed.
pub open spec fn dispatch_spec(first: Seq<char>, args: Seq<Seq<char>>) -> Result<
    CommandModel,
    ErrorModel,
> {
    if first == "add"@ || first == "a"@ {
        parse_add_spec(first, args, false)
    } else if first == "add-auto"@ || first == "aa"@ {
        parse_add_spec(first, args, true)
    } else if first == "delete"@ || first == "d"@ {
        if args.len() == 0 {
            Err(ErrorModel::NotEnoughArgs(first, 1))
        } else {
            Ok(CommandModel::Delete { name: args[0] })
        }
    } else if first == "track-up"@ || first == "tup"@ {
        if args.len() == 0 {
            Err(ErrorModel::NotEnoughArgs(first, 1))
        } else {
            Ok(CommandModel::TrackUp { name: args[0] })
        }
    } else if first == "track-down"@ || first == "tdown"@ {
        if args.len() == 0 {
            Err(ErrorModel::NotEnoughArgs(first, 1))
        } else {
            Ok(CommandModel::TrackDown { name: args[0] })
        }
    } else if first == "h"@ || first == "?"@ || first == "help"@ {
        if args.len() == 0 {
            Ok(CommandModel::Help { topic: None })
        } else {
            Ok(CommandModel::Help { topic: Some(args[0]) })
        }
    } else if first == "mprev"@ || first == "month-prev"@ {
        Ok(CommandModel::MonthPrev)
    } else if first == "mnext"@ || first == "month-next"@ {
        Ok(CommandModel::MonthNext)
    } else if first == "q"@ || first == "quit"@ {
        Ok(CommandModel::Quit)
    } else if first == "w"@ || first == "write"@ {
        Ok(CommandModel::Write)
    } else if first.len() == 0 {
        Ok(CommandModel::Blank)
    } else {
        Err(ErrorModel::InvalidCommand(first))
    }
}

/// What parsing a whole input line returns: trim, split on spaces, dispatch
/// the first token with the rest as arguments.
pub open spec fn parse_spec(input: Seq<char>) -> Result<CommandModel, ErrorModel> {
    let toks = split_spaces(trim_spec(input));
    dispatch_spec(toks[0], toks.drop_first())
}

/// Merges the argument tokens of `add`/`add-auto` into a habit name and an
/// optional goal; `verb` is the command word as typed, used only in the
/// `NotEnoughArgs` error.
pub fn parse_add(verb: String, args: Vec<String>, auto: bool) -> (r: Result<
    Command,
    CommandLineError,
>)
    ensures
        result_view(r) == parse_add_spec(verb@, args.deep_view(), auto),
{
    let ghost dv = args.deep_view();
    if args.len() == 0 {
        return Err(CommandLineError::NotEnoughArgs(verb, 1));
    }
    let mut acc: String = String::new();
    acc.append(args[0].as_str());
    let mut goal: Option<u32> = None;
    let mut i: usize = 1;
    proof {
        assert(dv.take(1).drop_first() =~~= Seq::<Seq<char>>::empty());
        assert(acc@ =~= dv[0] + merge_rest(dv.take(1).drop_first()).0);
    }
    while i < args.len()
        invariant
            1 <= i <= args@.len(),
            dv == args.deep_view(),
            dv.len() == args@.len(),
            acc@ == dv[0] + merge_rest(dv.take(i as int).drop_first()).0,
            goal == merge_rest(dv.take(i as int).drop_first()).1,
        decreases args@.len() - i,
    {
        let ghost pre = dv.take(i as int).drop_first();
        match parse_u32_str(args[i].as_str()) {
            Some(n) => {
                goal = Some(n);
            },
            None => {
                acc.append(" ");
                acc.append(args[i].as_str());
            },
        }
        proof {
            reveal_strlit(" ");
            let post = dv.take(i + 1).drop_first();
            assert(post.drop_last() =~~= pre);
            assert(post.last() == dv[i as int]);
            if parse_u32_spec(dv[i as int]) is None {
                assert(" "@ =~= seq![' ']);
                assert(acc@ =~= dv[0] + merge_rest(post).0);
            }
        }
        i = i + 1;
    }
    proof {
        assert(dv.take(dv.len() as int) =~~= dv);
    }
    Ok(Command::Add(acc, goal, auto))
}

impl Command {
    /// Parses one line of user input into a command or an error; total over
    /// all strings.
    pub fn from_string(input: &str) -> (r: Result<Command, CommandLineError>)
        ensures
            result_view(r) == parse_spec(input@),
    {
        let trimmed = trim_str(input);
        let mut toks = split_str(trimmed);
        let ghost tv = split_spaces(trim_spec(input@));
        let first: String = toks.remove(0);
        let args: Vec<String> = toks;
        proof {
            assert(first@ == tv[0]);
            assert(args.deep_view() =~~= tv.drop_first());
        }
        if str_eq(first.as_str(), "add") || str_eq(first.as_str(), "a") {
            parse_add(first, args, false)
        } else if str_eq(first.as_str(), "add-auto") || str_eq(first.as_str(), "aa") {
            parse_add(first, args, true)
        } else if str_eq(first.as_str(), "delete") || str_eq(first.as_str(), "d") {
            if args.len() == 0 {
                Err(CommandLineError::NotEnoughArgs(first, 1))
            } else {
                Ok(Command::Delete(args[0].clone()))
            }
        } else if str_eq(first.as_str(), "track-up") || str_eq(first.as_str(), "tup") {
            if args.len() == 0 {
                Err(CommandLineError::NotEnoughArgs(first, 1))
            } else {
                Ok(Command::TrackUp(args[0].clone()))
            }
        } else if str_eq(first.as_str(), "track-down") || str_eq(first.as_str(), "tdown") {
            if args.len() == 0 {
                Err(CommandLineError::NotEnoughArgs(first, 1))
            } else {
                Ok(Command::TrackDown(args[0].clone()))
            }
        } else if str_eq(first.as_str(), "h") || str_eq(first.as_str(), "?") || str_eq(
            first.as_str(),
            "help",
        ) {
            if args.len() == 0 {
                Ok(Command::Help(None))
            } else {
                Ok(Command::Help(Some(args[0].clone())))
            }
        } else if str_eq(first.as_str(), "mprev") || str_eq(first.as_str(), "month-prev") {
            Ok(Command::MonthPrev)
        } else if str_eq(first.as_str(), "mnext") || str_eq(first.as_str(), "month-next") {
            Ok(Command::MonthNext)
        } else if str_eq(first.as_str(), "q") || str_eq(first.as_str(), "quit") {
            Ok(Command::Quit)
        } else if str_eq(first.as_str(), "w") || str_eq(first.as_str(), "write") {
            Ok(Command::Write)
        } else if first.as_str().unicode_len() == 0 {
            Ok(Command::Blank)
        } else {
            Err(CommandLineError::InvalidCommand(first))
        }
    }
}

/// The rendered text of an error, as the interactive shell shows it.
pub open spec fn message_spec(e: ErrorModel) -> Seq<char> {
    match e {
        ErrorModel::InvalidCommand(t) => "Invalid command: `"@ + t + "`"@,
        ErrorModel::NotEnoughArgs(name, n) => "Command `"@ + name + "` requires atleast "@
            + dec_digits(n as int) + " argument(s)!"@,
    }
}

impl CommandLineError {
    /// The user-facing message for this error.
    pub fn message(&self) -> (s: String)
        ensures
            s@ == message_spec(self@),
    {
        match self {
            CommandLineError::InvalidCommand(t) => {
                let mut s = String::from_str("Invalid command: `");
                s.append(t.as_str());
                s.append("`");
                proof {
                    assert(s@ =~= message_spec(self@));
                }
                s
            },
            CommandLineError::NotEnoughArgs(name, n) => {
                let mut s = String::from_str("Command `");
                s.append(name.as_str());
                s.append("` requires atleast ");
                let num = dec_str(*n);
                s.append(num.as_str());
                s.append(" argument(s)!");
                proof {
                    assert(s@ =~= message_spec(self@));
                }
                s
            },
        }
    }
}

/// An alias and its primary name agree: with the same argument tokens they
/// succeed on exactly the same inputs and then produce the same command.
/// (The `NotEnoughArgs` error carries the command word as typed, so only the
/// successful results are compared.)
pub open spec fn alias_agrees(alias: Seq<char>, primary: Seq<char>, args: Seq<Seq<char>>) -> bool {
    &&& (dispatch_spec(alias, args) is Ok <==> dispatch_spec(primary, args) is Ok)
    &&& (dispatch_spec(alias, args) is Ok ==> dispatch_spec(alias, args)->Ok_0 == dispatch_spec(
        primary,
        args,
    )->Ok_0)
}

/// Alias equivalence: for every row of the alias table, parsing the alias
/// and the primary name with identical arguments yields an identical
/// command value.
pub proof fn lemma_alias_equivalence(args: Seq<Seq<char>>)
    ensures
        alias_agrees("a"@, "add"@, args),
        alias_agrees("aa"@, "add-auto"@, args),
        alias_agrees("d"@, "delete"@, args),
        alias_agrees("tup"@, "track-up"@, args),
        alias_agrees("tdown"@, "track-down"@, args),
        alias_agrees("h"@, "help"@, args),
        alias_agrees("?"@, "help"@, args),
        alias_agrees("mprev"@, "month-prev"@, args),
        alias_agrees("mnext"@, "month-next"@, args),
        alias_agrees("q"@, "quit"@, args),
        alias_agrees("w"@, "write"@, args),
{
    reveal_strlit("add");
    reveal_strlit("a");
    reveal_strlit("add-auto");
    reveal_strlit("aa");
    reveal_strlit("delete");
    reveal_strlit("d");
    reveal_strlit("track-up");
    reveal_strlit("tup");
    reveal_strlit("track-down");
    reveal_strlit("tdown");
    reveal_strlit("help");
    reveal_strlit("h");
    reveal_strlit("?");
    reveal_strlit("mprev");
    reveal_strlit("month-prev");
    reveal_strlit("mnext");
    reveal_strlit("month-next");
    reveal_strlit("q");
    reveal_strlit("quit");
    reveal_strlit("w");
    reveal_strlit("write");
    assert("add"@.len() == 3 && "add"@[0] == 'a');
    assert("a"@.len() == 1 && "a"@[0] == 'a');
    assert("add-auto"@.len() == 8 && "add-auto"@[0] == 'a');
    assert("aa"@.len() == 2);
    assert("delete"@.len() == 6);
    assert("d"@.len() == 1 && "d"@[0] == 'd');
    assert("track-up"@.len() == 8 && "track-up"@[0] == 't');
    assert("tup"@.len() == 3 && "tup"@[0] == 't');
    assert("track-down"@.len() == 10 && "track-down"@[0] == 't');
    assert("tdown"@.len() == 5 && "tdown"@[0] == 't');
    assert("help"@.len() == 4 && "help"@[0] == 'h');
    assert("h"@.len() == 1 && "h"@[0] == 'h');
    assert("?"@.len() == 1 && "?"@[0] == '?');
    assert("mprev"@.len() == 5 && "mprev"@[0] == 'm' && "mprev"@[1] == 'p');
    assert("month-prev"@.len() == 10 && "month-prev"@[0] == 'm' && "month-prev"@[6] == 'p');
    assert("mnext"@.len() == 5 && "mnext"@[0] == 'm' && "mnext"@[1] == 'n');
    assert("month-next"@.len() == 10 && "month-next"@[0] == 'm' && "month-next"@[6] == 'n');
    assert("q"@.len() == 1 && "q"@[0] == 'q');
    assert("quit"@.len() == 4 && "quit"@[0] == 'q');
    assert("w"@.len() == 1 && "w"@[0] == 'w');
    assert("write"@.len() == 5 && "write"@[0] == 'w');
}

} // verus!

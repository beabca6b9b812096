//! The command-language parser.
//!
//! A raw input line is first tokenized: fragments are split on whitespace,
//! and a fragment that opens with a quote character starts a quoted span
//! that swallows following fragments (rejoined with single spaces) until a
//! fragment ends with a quote character.  Leading and trailing quote
//! characters are stripped from every completed token; a quoted span that
//! strips to nothing still yields an empty token, which is how `""` passes
//! an empty description.  (An unquoted fragment is never empty, so no
//! other token can be empty.)  A quoted span still open at the end of the
//! line is a hard parse error.
//!
//! The first token then selects the command family and the rest are
//! consumed positionally; every failure names the missing or malformed
//! field.  An empty line parses to [`Command::NoOp`], never to an error.

use vstd::prelude::*;

use crate::task::{parse_priority_spec, parse_status_spec, Priority, Status};
use crate::text::{
    chars_of, clone_string, is_space, is_space_char, is_u32_numeral, numeral_digits, numeral_val,
    parse_u32_chars, str_eq, string_from_chars, strip_quotes, strip_quotes_spec,
};

verus! {

/// One parsed command, ready for the dispatcher.
#[derive(Debug)]
pub enum Command {
    Help,
    Show(u32),
    Add(String, String, Priority, Status),
    Remove(u32),
    Priority(u32, Priority),
    Status(u32, Status),
    Save,
    Quit,
    NoOp,
}

/// The mathematical shape of a [`Command`]: its text fields as character
/// sequences.
pub ghost enum CommandV {
    Help,
    Show(u32),
    Add(Seq<char>, Seq<char>, Priority, Status),
    Remove(u32),
    Priority(u32, Priority),
    Status(u32, Status),
    Save,
    Quit,
    NoOp,
}

impl View for Command {
    type V = CommandV;

    open spec fn view(&self) -> CommandV {
        match self {
            Command::Help => CommandV::Help,
            Command::Show(id) => CommandV::Show(*id),
            Command::Add(t, d, p, s) => CommandV::Add(t@, d@, *p, *s),
            Command::Remove(id) => CommandV::Remove(*id),
            Command::Priority(id, p) => CommandV::Priority(*id, *p),
            Command::Status(id, s) => CommandV::Status(*id, *s),
            Command::Save => CommandV::Save,
            Command::Quit => CommandV::Quit,
            Command::NoOp => CommandV::NoOp,
        }
    }
}

/// The positional fields a command can miss or reject.
#[derive(Clone, Copy, PartialEq, Eq, Structural, Debug)]
pub enum ArgField {
    TaskId,
    Title,
    PriorityArg,
    StatusArg,
    NewPriority,
    NewStatus,
}

/// A rejected input line, with the field or token at fault.
#[derive(Debug)]
pub enum ParseError {
    Missing(ArgField),
    Invalid(ArgField),
    UnexpectedArgs(String),
    UnknownCommand(String),
    NotImplemented,
    UnterminatedQuote,
}

/// The mathematical shape of a [`ParseError`].
pub ghost enum ParseErrorV {
    Missing(ArgField),
    Invalid(ArgField),
    UnexpectedArgs(Seq<char>),
    UnknownCommand(Seq<char>),
    NotImplemented,
    UnterminatedQuote,
}

impl View for ParseError {
    type V = ParseErrorV;

    open spec fn view(&self) -> ParseErrorV {
        match self {
            ParseError::Missing(f) => ParseErrorV::Missing(*f),
            ParseError::Invalid(f) => ParseErrorV::Invalid(*f),
            ParseError::UnexpectedArgs(cmd) => ParseErrorV::UnexpectedArgs(cmd@),
            ParseError::UnknownCommand(cmd) => ParseErrorV::UnknownCommand(cmd@),
            ParseError::NotImplemented => ParseErrorV::NotImplemented,
            ParseError::UnterminatedQuote => ParseErrorV::UnterminatedQuote,
        }
    }
}

/// The human-readable description of a parse error.
pub open spec fn parse_error_message(e: ParseErrorV) -> Seq<char> {
    match e {
        ParseErrorV::Missing(ArgField::TaskId) => "Missing <task_id> argument..."@,
        ParseErrorV::Invalid(ArgField::TaskId) => "Invalid <task_id> argument..."@,
        ParseErrorV::Missing(ArgField::Title) => "Missing <title> argument..."@,
        ParseErrorV::Invalid(ArgField::Title) => "Invalid <title> argument..."@,
        ParseErrorV::Missing(ArgField::PriorityArg) => "Missing priority argument..."@,
        ParseErrorV::Invalid(ArgField::PriorityArg) => "Invalid priority argument..."@,
        ParseErrorV::Missing(ArgField::StatusArg) => "Missing status argument..."@,
        ParseErrorV::Invalid(ArgField::StatusArg) => "Invalid status argument..."@,
        ParseErrorV::Missing(ArgField::NewPriority) => "Missing <new_priority> argument..."@,
        ParseErrorV::Invalid(ArgField::NewPriority) => "Invalid <new_priority> argument..."@,
        ParseErrorV::Missing(ArgField::NewStatus) => "Missing <new_status> argument..."@,
        ParseErrorV::Invalid(ArgField::NewStatus) => "Invalid <new_status> argument..."@,
        ParseErrorV::UnexpectedArgs(cmd) => "Unexpected arguments for command '"@ + cmd + "'..."@,
        ParseErrorV::UnknownCommand(cmd) => "Invalid command '"@ + cmd + "'..."@,
        ParseErrorV::NotImplemented => "Command 'description' not implemented yet..."@,
        ParseErrorV::UnterminatedQuote => "Unterminated quote in input..."@,
    }
}

impl ParseError {
    /// The human-readable description pushed into the error history.
    pub fn message(&self) -> (r: String)
        ensures
            r@ == parse_error_message(self@),
    {
        match self {
            ParseError::Missing(ArgField::TaskId) => String::from_str(
                "Missing <task_id> argument...",
            ),
            ParseError::Invalid(ArgField::TaskId) => String::from_str(
                "Invalid <task_id> argument...",
            ),
            ParseError::Missing(ArgField::Title) => String::from_str("Missing <title> argument..."),
            ParseError::Invalid(ArgField::Title) => String::from_str("Invalid <title> argument..."),
            ParseError::Missing(ArgField::PriorityArg) => String::from_str(
                "Missing priority argument...",
            ),
            ParseError::Invalid(ArgField::PriorityArg) => String::from_str(
                "Invalid priority argument...",
            ),
            ParseError::Missing(ArgField::StatusArg) => String::from_str(
                "Missing status argument...",
            ),
            ParseError::Invalid(ArgField::StatusArg) => String::from_str(
                "Invalid status argument...",
            ),
            ParseError::Missing(ArgField::NewPriority) => String::from_str(
                "Missing <new_priority> argument...",
            ),
            ParseError::Invalid(ArgField::NewPriority) => String::from_str(
                "Invalid <new_priority> argument...",
            ),
            ParseError::Missing(ArgField::NewStatus) => String::from_str(
                "Missing <new_status> argument...",
            ),
            ParseError::Invalid(ArgField::NewStatus) => String::from_str(
                "Invalid <new_status> argument...",
            ),
            ParseError::UnexpectedArgs(cmd) => {
                let mut r = String::from_str("Unexpected arguments for command '");
                r.append(cmd.as_str());
                r.append("'...");
                r
            },
            ParseError::UnknownCommand(cmd) => {
                let mut r = String::from_str("Invalid command '");
                r.append(cmd.as_str());
                r.append("'...");
                r
            },
            ParseError::NotImplemented => String::from_str(
                "Command 'description' not implemented yet...",
            ),
            ParseError::UnterminatedQuote => String::from_str("Unterminated quote in input..."),
        }
    }
}

/// Where the tokenizer stands in the middle of a line.
#[derive(Clone, Copy, PartialEq, Eq, Structural, Debug)]
pub enum TokMode {
    /// Outside any fragment.
    Between,
    /// Inside an unquoted fragment.
    Plain,
    /// Inside a quoted span.
    Quoted,
    /// Inside a quoted span, on whitespace between fragments.
    QuotedGap,
}

/// The tokenizer's whole state: tokens already completed, the span being
/// accumulated, and the mode.
pub ghost struct TokState {
    pub toks: Seq<Seq<char>>,
    pub cur: Seq<char>,
    pub mode: TokMode,
}

/// Complete the span `cur`: strip its leading and trailing quote
/// characters and append it to `toks`.
pub open spec fn push_token(toks: Seq<Seq<char>>, cur: Seq<char>) -> Seq<Seq<char>> {
    toks.push(strip_quotes_spec(cur))
}

/// The tokenizer's state before any character is read.
pub open spec fn tok_init() -> TokState {
    TokState { toks: Seq::empty(), cur: Seq::empty(), mode: TokMode::Between }
}

/// One step of the tokenizer: how state `st` changes on reading `c`.
pub open spec fn tok_step(st: TokState, c: char) -> TokState {
    match st.mode {
        TokMode::Between => if is_space(c) {
            st
        } else if c == '"' {
            TokState { toks: st.toks, cur: seq!['"'], mode: TokMode::Quoted }
        } else {
            TokState { toks: st.toks, cur: seq![c], mode: TokMode::Plain }
        },
        TokMode::Plain => if is_space(c) {
            TokState {
                toks: push_token(st.toks, st.cur),
                cur: Seq::empty(),
                mode: TokMode::Between,
            }
        } else {
            TokState { toks: st.toks, cur: st.cur.push(c), mode: TokMode::Plain }
        },
        TokMode::Quoted => if is_space(c) {
            if st.cur.len() > 0 && st.cur.last() == '"' {
                TokState {
                    toks: push_token(st.toks, st.cur),
                    cur: Seq::empty(),
                    mode: TokMode::Between,
                }
            } else {
                TokState { toks: st.toks, cur: st.cur, mode: TokMode::QuotedGap }
            }
        } else {
            TokState { toks: st.toks, cur: st.cur.push(c), mode: TokMode::Quoted }
        },
        TokMode::QuotedGap => if is_space(c) {
            st
        } else {
            TokState { toks: st.toks, cur: st.cur.push(' ').push(c), mode: TokMode::Quoted }
        },
    }
}

/// The tokenizer's state after reading the first `i` characters of `s`.
pub open spec fn tok_state_at(s: Seq<char>, i: nat) -> TokState
    decreases i,
{
    if i == 0 {
        tok_init()
    } else {
        tok_step(tok_state_at(s, (i - 1) as nat), s[i - 1])
    }
}

/// The tokens of the whole line `s`, or `None` when a quoted span is still
/// open at the end of the line.
pub open spec fn tokenize_spec(s: Seq<char>) -> Option<Seq<Seq<char>>> {
    let st = tok_state_at(s, s.len());
    match st.mode {
        TokMode::Between => Some(st.toks),
        TokMode::Plain => Some(push_token(st.toks, st.cur)),
        TokMode::Quoted => if st.cur.len() > 0 && st.cur.last() == '"' {
            Some(push_token(st.toks, st.cur))
        } else {
            None
        },
        TokMode::QuotedGap => None,
    }
}

/// Complete the accumulated span into the token list, as [`push_token`]
/// describes.
fn push_token_exec(tokens: &mut Vec<String>, cur: &Vec<char>)
    ensures
        final(tokens).deep_view() == push_token(old(tokens).deep_view(), cur@),
{
    let stripped = strip_quotes(cur);
    let s = string_from_chars(&stripped);
    tokens.push(s);
    proof {
        assert(final(tokens).deep_view() =~= push_token(old(tokens).deep_view(), cur@));
    }
}

/// Split an input line into its tokens, or reject it for a quoted span
/// that never closes.
#[verifier::loop_isolation(false)]
pub fn tokenize(input: &str) -> (r: Result<Vec<String>, ParseError>)
    ensures
        match r {
            Ok(toks) => tokenize_spec(input@) == Some(toks.deep_view()),
            Err(e) => tokenize_spec(input@) is None && e@ == ParseErrorV::UnterminatedQuote,
        },
{
    let cs = chars_of(input);
    let mut tokens: Vec<String> = Vec::new();
    let mut cur: Vec<char> = Vec::new();
    let mut mode = TokMode::Between;
    let mut i: usize = 0;
    proof {
        assert(tokens.deep_view() =~= tok_init().toks);
    }
    while i < cs.len()
        invariant
            i <= cs@.len(),
            tokens.deep_view() == tok_state_at(cs@, i as nat).toks,
            cur@ == tok_state_at(cs@, i as nat).cur,
            mode == tok_state_at(cs@, i as nat).mode,
            mode == TokMode::Between ==> cur@.len() == 0,
        decreases cs@.len() - i,
    {
        let ghost pre = tok_state_at(cs@, i as nat);
        let c = cs[i];
        match mode {
            TokMode::Between => {
                if is_space_char(c) {
                } else if c == '"' {
                    cur.push('"');
                    mode = TokMode::Quoted;
                    proof {
                        assert(cur@ =~= seq!['"']);
                    }
                } else {
                    cur.push(c);
                    mode = TokMode::Plain;
                    proof {
                        assert(cur@ =~= seq![c]);
                    }
                }
            },
            TokMode::Plain => {
                if is_space_char(c) {
                    push_token_exec(&mut tokens, &cur);
                    cur = Vec::new();
                    mode = TokMode::Between;
                } else {
                    cur.push(c);
                }
            },
            TokMode::Quoted => {
                if is_space_char(c) {
                    if cur.len() > 0 && cur[cur.len() - 1] == '"' {
                        push_token_exec(&mut tokens, &cur);
                        cur = Vec::new();
                        mode = TokMode::Between;
                    } else {
                        mode = TokMode::QuotedGap;
                    }
                } else {
                    cur.push(c);
                }
            },
            TokMode::QuotedGap => {
                if is_space_char(c) {
                } else {
                    cur.push(' ');
                    cur.push(c);
                    mode = TokMode::Quoted;
                }
            },
        }
        proof {
            assert(tok_state_at(cs@, (i + 1) as nat) == tok_step(pre, cs@[i as int]));
        }
        i += 1;
    }
    let ghost st = tok_state_at(input@, input@.len());
    match mode {
        TokMode::Between => Ok(tokens),
        TokMode::Plain => {
            push_token_exec(&mut tokens, &cur);
            Ok(tokens)
        },
        TokMode::Quoted => {
            if cur.len() > 0 && cur[cur.len() - 1] == '"' {
                push_token_exec(&mut tokens, &cur);
                Ok(tokens)
            } else {
                Err(ParseError::UnterminatedQuote)
            }
        },
        TokMode::QuotedGap => Err(ParseError::UnterminatedQuote),
    }
}

/// The command or error that a completed token list yields.
pub open spec fn parse_tokens_spec(toks: Seq<Seq<char>>) -> Result<CommandV, ParseErrorV> {
    if toks.len() == 0 {
        Ok(CommandV::NoOp)
    } else {
        let cmd = toks[0];
        if cmd == "help"@ {
            if toks.len() > 1 {
                Err(ParseErrorV::UnexpectedArgs(cmd))
            } else {
                Ok(CommandV::Help)
            }
        } else if cmd == "show"@ {
            match id_arg_spec(toks, 1) {
                Ok(id) => Ok(CommandV::Show(id)),
                Err(e) => Err(e),
            }
        } else if cmd == "add"@ {
            parse_add_spec(toks)
        } else if cmd == "description"@ {
            Err(ParseErrorV::NotImplemented)
        } else if cmd == "remove"@ {
            match id_arg_spec(toks, 1) {
                Ok(id) => Ok(CommandV::Remove(id)),
                Err(e) => Err(e),
            }
        } else if cmd == "priority"@ {
            match id_arg_spec(toks, 1) {
                Ok(id) => if toks.len() < 3 {
                    Err(ParseErrorV::Missing(ArgField::NewPriority))
                } else {
                    match parse_priority_spec(toks[2]) {
                        Ok(p) => Ok(CommandV::Priority(id, p)),
                        Err(_) => Err(ParseErrorV::Invalid(ArgField::NewPriority)),
                    }
                },
                Err(e) => Err(e),
            }
        } else if cmd == "status"@ {
            match id_arg_spec(toks, 1) {
                Ok(id) => if toks.len() < 3 {
                    Err(ParseErrorV::Missing(ArgField::NewStatus))
                } else {
                    match parse_status_spec(toks[2]) {
                        Ok(s) => Ok(CommandV::Status(id, s)),
                        Err(_) => Err(ParseErrorV::Invalid(ArgField::NewStatus)),
                    }
                },
                Err(e) => Err(e),
            }
        } else if cmd == "save"@ {
            if toks.len() > 1 {
                Err(ParseErrorV::UnexpectedArgs(cmd))
            } else {
                Ok(CommandV::Save)
            }
        } else if cmd == "quit"@ {
            if toks.len() > 1 {
                Err(ParseErrorV::UnexpectedArgs(cmd))
            } else {
                Ok(CommandV::Quit)
            }
        } else {
            Err(ParseErrorV::UnknownCommand(cmd))
        }
    }
}

/// The task identifier at position `at`, or the parse error for a missing
/// or malformed one.
pub open spec fn id_arg_spec(toks: Seq<Seq<char>>, at: int) -> Result<u32, ParseErrorV> {
    if toks.len() <= at {
        Err(ParseErrorV::Missing(ArgField::TaskId))
    } else if is_u32_numeral(toks[at]) {
        Ok(numeral_val(numeral_digits(toks[at])) as u32)
    } else {
        Err(ParseErrorV::Invalid(ArgField::TaskId))
    }
}

/// The `add` command's arguments: a mandatory title, then an optional
/// description, priority and status, with defaults for the absent ones.
pub open spec fn parse_add_spec(toks: Seq<Seq<char>>) -> Result<CommandV, ParseErrorV> {
    if toks.len() < 2 {
        Err(ParseErrorV::Missing(ArgField::Title))
    } else {
        let title = toks[1];
        let description = if toks.len() >= 3 {
            toks[2]
        } else {
            Seq::<char>::empty()
        };
        let priority = if toks.len() >= 4 {
            parse_priority_spec(toks[3])
        } else {
            Ok(Priority::Low)
        };
        let status = if toks.len() >= 5 {
            parse_status_spec(toks[4])
        } else {
            Ok(Status::ToDo)
        };
        match priority {
            Err(_) => Err(ParseErrorV::Invalid(ArgField::PriorityArg)),
            Ok(p) => match status {
                Err(_) => Err(ParseErrorV::Invalid(ArgField::StatusArg)),
                Ok(s) => Ok(CommandV::Add(title, description, p, s)),
            },
        }
    }
}

/// The command or error that the whole input line yields: tokenization,
/// then positional argument parsing.
pub open spec fn parse_spec(input: Seq<char>) -> Result<CommandV, ParseErrorV> {
    match tokenize_spec(input) {
        None => Err(ParseErrorV::UnterminatedQuote),
        Some(toks) => parse_tokens_spec(toks),
    }
}

/// The identifier argument at position `at` of the token list.
fn parse_id_arg(tokens: &Vec<String>, at: usize) -> (r: Result<u32, ParseError>)
    ensures
        match r {
            Ok(id) => id_arg_spec(tokens.deep_view(), at as int) == Ok::<u32, ParseErrorV>(id),
            Err(e) => id_arg_spec(tokens.deep_view(), at as int) == Err::<u32, ParseErrorV>(e@),
        },
{
    if tokens.len() <= at {
        Err(ParseError::Missing(ArgField::TaskId))
    } else {
        let cs = chars_of(tokens[at].as_str());
        match parse_u32_chars(&cs) {
            Some(id) => Ok(id),
            None => Err(ParseError::Invalid(ArgField::TaskId)),
        }
    }
}

/// Turn one raw input line into a command, or into the error that
/// describes what is wrong with it.
pub fn process_input(input: &str) -> (r: Result<Command, ParseError>)
    ensures
        match r {
            Ok(c) => parse_spec(input@) == Ok::<CommandV, ParseErrorV>(c@),
            Err(e) => parse_spec(input@) == Err::<CommandV, ParseErrorV>(e@),
        },
{
    let tokens = match tokenize(input) {
        Ok(t) => t,
        Err(e) => {
            return Err(e);
        },
    };
    let ghost toks = tokens.deep_view();
    if tokens.len() == 0 {
        return Ok(Command::NoOp);
    }
    let cmd = &tokens[0];
    if str_eq_kw(cmd, "help") {
        if tokens.len() > 1 {
            Err(ParseError::UnexpectedArgs(clone_string(cmd)))
        } else {
            Ok(Command::Help)
        }
    } else if str_eq_kw(cmd, "show") {
        match parse_id_arg(&tokens, 1) {
            Ok(id) => Ok(Command::Show(id)),
            Err(e) => Err(e),
        }
    } else if str_eq_kw(cmd, "add") {
        parse_add(&tokens)
    } else if str_eq_kw(cmd, "description") {
        Err(ParseError::NotImplemented)
    } else if str_eq_kw(cmd, "remove") {
        match parse_id_arg(&tokens, 1) {
            Ok(id) => Ok(Command::Remove(id)),
            Err(e) => Err(e),
        }
    } else if str_eq_kw(cmd, "priority") {
        match parse_id_arg(&tokens, 1) {
            Ok(id) => {
                if tokens.len() < 3 {
                    Err(ParseError::Missing(ArgField::NewPriority))
                } else {
                    match Priority::from_str(tokens[2].as_str()) {
                        Ok(p) => Ok(Command::Priority(id, p)),
                        Err(_) => Err(ParseError::Invalid(ArgField::NewPriority)),
                    }
                }
            },
            Err(e) => Err(e),
        }
    } else if str_eq_kw(cmd, "status") {
        match parse_id_arg(&tokens, 1) {
            Ok(id) => {
                if tokens.len() < 3 {
                    Err(ParseError::Missing(ArgField::NewStatus))
                } else {
                    match Status::from_str(tokens[2].as_str()) {
                        Ok(s) => Ok(Command::Status(id, s)),
                        Err(_) => Err(ParseError::Invalid(ArgField::NewStatus)),
                    }
                }
            },
            Err(e) => Err(e),
        }
    } else if str_eq_kw(cmd, "save") {
        if tokens.len() > 1 {
            Err(ParseError::UnexpectedArgs(clone_string(cmd)))
        } else {
            Ok(Command::Save)
        }
    } else if str_eq_kw(cmd, "quit") {
        if tokens.len() > 1 {
            Err(ParseError::UnexpectedArgs(clone_string(cmd)))
        } else {
            Ok(Command::Quit)
        }
    } else {
        Err(ParseError::UnknownCommand(clone_string(cmd)))
    }
}

/// The `add` command's positional arguments.
fn parse_add(tokens: &Vec<String>) -> (r: Result<Command, ParseError>)
    requires
        tokens.deep_view().len() >= 1,
    ensures
        match r {
            Ok(c) => parse_add_spec(tokens.deep_view()) == Ok::<CommandV, ParseErrorV>(c@),
            Err(e) => parse_add_spec(tokens.deep_view()) == Err::<CommandV, ParseErrorV>(e@),
        },
{
    if tokens.len() < 2 {
        return Err(ParseError::Missing(ArgField::Title));
    }
    let title = clone_string(&tokens[1]);
    let description = if tokens.len() >= 3 {
        clone_string(&tokens[2])
    } else {
        String::new()
    };
    let priority = if tokens.len() >= 4 {
        match Priority::from_str(tokens[3].as_str()) {
            Ok(p) => p,
            Err(_) => {
                return Err(ParseError::Invalid(ArgField::PriorityArg));
            },
        }
    } else {
        Priority::Low
    };
    let status = if tokens.len() >= 5 {
        match Status::from_str(tokens[4].as_str()) {
            Ok(s) => s,
            Err(_) => {
                return Err(ParseError::Invalid(ArgField::StatusArg));
            },
        }
    } else {
        Status::ToDo
    };
    Ok(Command::Add(title, description, priority, status))
}

/// Whether the token `s` is the keyword `kw`.
fn str_eq_kw(s: &String, kw: &str) -> (r: bool)
    ensures
        r == (s@ == kw@),
{
    str_eq(s.as_str(), kw)
}

} // verus!

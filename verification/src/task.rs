//! Tasks and their two ordered attributes.
//!
//! A [`Task`] couples an identifier with a title, a free-form description,
//! a [`Priority`] and a [`Status`].  The attribute enums parse from their
//! lower-case names, compared case-insensitively over ASCII letters, and
//! every task renders to the one-line form `id. [glyph] title` that the
//! panels show.

use vstd::prelude::*;

use crate::text::{
    chars_eq_str, chars_of, dec_rep, lower_char, lower_char_exec, lower_seq, u32_to_string,
};

verus! {

/// How urgent a task is; `Low < Medium < High`.
#[derive(Clone, Copy, PartialEq, Eq, PartialOrd, Ord, Debug, Structural)]
pub enum Priority {
    Low,
    Medium,
    High,
}

/// The rejection of a priority token that names no [`Priority`].
#[derive(Clone, Copy, PartialEq, Eq, Debug, Structural)]
pub struct ParsePriorityError;

/// How far along a task is; `ToDo < Doing < Done`.
#[derive(Clone, Copy, PartialEq, Eq, PartialOrd, Ord, Debug, Structural)]
pub enum Status {
    ToDo,
    Doing,
    Done,
}

/// The rejection of a status token that names no [`Status`].
#[derive(Clone, Copy, PartialEq, Eq, Debug, Structural)]
pub struct ParseStatusError;

impl Default for Priority {
    /// The priority an `add` command assumes when none is given.
    fn default() -> (r: Self)
        ensures
            r == Priority::Low,
    {
        Priority::Low
    }
}

impl Default for Status {
    /// The status an `add` command assumes when none is given.
    fn default() -> (r: Self)
        ensures
            r == Status::ToDo,
    {
        Status::ToDo
    }
}

/// The priority named by `s`, compared case-insensitively: `low`, `medium`
/// or `high`.
pub open spec fn parse_priority_spec(s: Seq<char>) -> Result<Priority, ParsePriorityError> {
    if lower_seq(s) == "low"@ {
        Ok(Priority::Low)
    } else if lower_seq(s) == "medium"@ {
        Ok(Priority::Medium)
    } else if lower_seq(s) == "high"@ {
        Ok(Priority::High)
    } else {
        Err(ParsePriorityError)
    }
}

/// The status named by `s`, compared case-insensitively: `todo`, `doing`
/// or `done`.
pub open spec fn parse_status_spec(s: Seq<char>) -> Result<Status, ParseStatusError> {
    if lower_seq(s) == "todo"@ {
        Ok(Status::ToDo)
    } else if lower_seq(s) == "doing"@ {
        Ok(Status::Doing)
    } else if lower_seq(s) == "done"@ {
        Ok(Status::Done)
    } else {
        Err(ParseStatusError)
    }
}

/// The ASCII-lowercased characters of `s`.
fn lower_chars(s: &str) -> (r: Vec<char>)
    ensures
        r@ == lower_seq(s@),
{
    let cs = chars_of(s);
    let mut r: Vec<char> = Vec::new();
    let mut i: usize = 0;
    while i < cs.len()
        invariant
            i <= cs@.len(),
            cs@ == s@,
            r@ == lower_seq(s@).take(i as int),
        decreases cs@.len() - i,
    {
        let c = lower_char_exec(cs[i]);
        r.push(c);
        proof {
            assert(lower_seq(s@).take(i + 1) =~= lower_seq(s@).take(i as int).push(c));
        }
        i += 1;
    }
    proof {
        assert(lower_seq(s@).take(s@.len() as int) =~= lower_seq(s@));
    }
    r
}

impl Priority {
    /// Parse a priority name, ignoring ASCII case.
    pub fn from_str(s: &str) -> (r: Result<Priority, ParsePriorityError>)
        ensures
            r == parse_priority_spec(s@),
    {
        let low = lower_chars(s);
        if chars_eq_str(&low, "low") {
            Ok(Priority::Low)
        } else if chars_eq_str(&low, "medium") {
            Ok(Priority::Medium)
        } else if chars_eq_str(&low, "high") {
            Ok(Priority::High)
        } else {
            Err(ParsePriorityError)
        }
    }
}

impl Status {
    /// Parse a status name, ignoring ASCII case.
    pub fn from_str(s: &str) -> (r: Result<Status, ParseStatusError>)
        ensures
            r == parse_status_spec(s@),
    {
        let low = lower_chars(s);
        if chars_eq_str(&low, "todo") {
            Ok(Status::ToDo)
        } else if chars_eq_str(&low, "doing") {
            Ok(Status::Doing)
        } else if chars_eq_str(&low, "done") {
            Ok(Status::Done)
        } else {
            Err(ParseStatusError)
        }
    }
}

/// One tracked task.  The identifier is handed out by the store as the
/// store's size at creation time and is not stable under deletion.
#[derive(Debug)]
pub struct Task {
    pub id: u32,
    pub title: String,
    pub description: String,
    pub priority: Priority,
    pub status: Status,
}

/// The three-star glyph a panel row shows for `p`.
pub open spec fn glyph(p: Priority) -> Seq<char> {
    match p {
        Priority::Low => "[*  ]"@,
        Priority::Medium => "[** ]"@,
        Priority::High => "[***]"@,
    }
}

/// The one-line rendering of `t`: `id. [glyph] title`.
pub open spec fn display_line_spec(t: Task) -> Seq<char> {
    dec_rep(t.id as int) + ". "@ + glyph(t.priority) + " "@ + t.title@
}

/// The two-part detail rendering of `t`: its display line, a line break,
/// and its description.
pub open spec fn log_spec(t: Task) -> Seq<char> {
    display_line_spec(t) + "\n"@ + t.description@
}

impl Task {
    /// A task with exactly the given fields.
    pub fn new(id: u32, title: &str, description: &str, priority: Priority, status: Status) -> (t:
        Task)
        ensures
            t.id == id,
            t.title@ == title@,
            t.description@ == description@,
            t.priority == priority,
            t.status == status,
    {
        Task { id, title: title.to_owned(), description: description.to_owned(), priority, status }
    }

    /// The task's identifier.
    pub fn id(&self) -> (r: u32)
        ensures
            r == self.id,
    {
        self.id
    }

    /// The one-line rendering shown in the status panels.
    pub fn display_line(&self) -> (r: String)
        ensures
            r@ == display_line_spec(*self),
    {
        let mut r = u32_to_string(self.id);
        r.append(". ");
        match self.priority {
            Priority::Low => r.append("[*  ]"),
            Priority::Medium => r.append("[** ]"),
            Priority::High => r.append("[***]"),
        }
        r.append(" ");
        r.append(self.title.as_str());
        r
    }

    /// The detail rendering shown by the `show` command: the display line,
    /// a line break, and the description.
    pub fn log(&self) -> (r: String)
        ensures
            r@ == log_spec(*self),
    {
        let mut r = self.display_line();
        r.append("\n");
        r.append(self.description.as_str());
        r
    }
}

} // verus!

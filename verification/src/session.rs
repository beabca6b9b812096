//! The interactive session: one owning context for the store, the two
//! history buffers, the panels and the quit flag.
//!
//! The session is a two-state machine: it is running until a `quit`
//! command is dispatched, and nothing else ends it — every parse or
//! dispatch failure is caught, written into the error history, and the
//! loop goes on.  Each cycle the surrounding program refreshes the panel
//! contents, draws the frame this module computes, reads one line, and
//! hands it to [`TUI::handle_line`]; the returned [`Action`] names the one
//! piece of outside work (printing the help text, persisting the store)
//! the program performs before the next cycle.

use vstd::prelude::*;

use crate::history::{ring_push, Queue};
use crate::parser::{process_input, Command, CommandV, ParseErrorV, parse_error_message, parse_spec};
use crate::render::{block_wf, draw_frame, frame_ops_spec, Block, BlockV, DrawOp};
use crate::store::{find_id, next_id, sel_matches, TaskManager, TaskSelector};
use crate::task::{display_line_spec, log_spec, Status, Task};
use crate::text::{
    chars_of, clone_string, dec_rep, split_lines, split_lines_spec, str_views, string_from_chars,
    u32_to_chars, wrap_chars, wrap_spec,
};

verus! {

/// The outside work a dispatched command asks of the surrounding program.
pub enum Action {
    /// Nothing beyond the next redraw.
    Nothing,
    /// Print the help text.
    PrintHelp,
    /// Persist the store to the save file.
    SaveStore,
}

/// The failure of a dispatch: the command named a task identifier that the
/// store does not hold.
#[derive(Clone, Copy, PartialEq, Eq, Structural, Debug)]
pub struct LookupError {
    pub id: u32,
}

/// The human-readable description of a failed lookup.
pub open spec fn lookup_message(id: u32) -> Seq<char> {
    "could not find task with id '"@ + dec_rep(id as int) + "'..."@
}

impl LookupError {
    /// The human-readable description pushed into the error history.
    pub fn message(&self) -> (r: String)
        ensures
            r@ == lookup_message(self.id),
    {
        let mut r = String::from_str("could not find task with id '");
        let digits = u32_to_chars(self.id);
        let num = string_from_chars(&digits);
        r.append(num.as_str());
        r.append("'...");
        r
    }
}

/// The rejection of a terminal too small to lay the six panels out.
#[derive(Clone, Copy, PartialEq, Eq, Structural, Debug)]
pub struct GeometryError;

/// The six panel rectangles computed from the terminal size, in order:
/// the three status lists across the top half, the error and command
/// histories in the middle band, and the full-width detail panel below.
pub open spec fn layout_spec(cols: int, rows: int) -> Seq<BlockV> {
    seq![
        BlockV {
            x: 0,
            y: 1,
            width: cols / 3 - 1,
            height: rows / 2,
            title: "ToDo"@,
            content: Seq::empty(),
        },
        BlockV {
            x: cols / 3,
            y: 1,
            width: cols / 3,
            height: rows / 2,
            title: "Doing"@,
            content: Seq::empty(),
        },
        BlockV {
            x: 2 * cols / 3,
            y: 1,
            width: cols / 3,
            height: rows / 2,
            title: "Done"@,
            content: Seq::empty(),
        },
        BlockV {
            x: 0,
            y: rows / 2 + 1,
            width: cols / 2 - 1,
            height: rows / 6,
            title: "Errors"@,
            content: Seq::empty(),
        },
        BlockV {
            x: cols / 2,
            y: rows / 2 + 1,
            width: cols / 2 - 1,
            height: rows / 6,
            title: "Commands"@,
            content: Seq::empty(),
        },
        BlockV {
            x: 0,
            y: 2 * rows / 3,
            width: cols,
            height: rows / 3 - 1,
            title: "Show"@,
            content: Seq::empty(),
        },
    ]
}

/// How many lines each history keeps: a sixth of the terminal height less
/// the border overhead, floored at one.
pub open spec fn queue_cap_spec(rows: int) -> int {
    if rows / 6 >= 3 {
        rows / 6 - 2
    } else {
        1
    }
}

/// The smallest terminal the layout fits in.
pub open spec fn size_ok(cols: int, rows: int) -> bool {
    cols >= 24 && rows >= 12
}

/// The one-line renderings of the tasks with status `s`, in store order:
/// a status panel's content.
pub open spec fn status_lines(tasks: Seq<Task>, s: Status) -> Seq<Seq<char>> {
    tasks.filter(|t: Task| t.status == s).map_values(|t: Task| display_line_spec(t))
}

/// The detail panel's content for task `t` at interior width `w`: the
/// task's log, wrapped, split on line breaks, empties dropped.
pub open spec fn show_lines(t: Task, w: int) -> Seq<Seq<char>> {
    split_lines_spec(wrap_spec(log_spec(t), w))
}

/// The whole session state.
pub struct TUI {
    /// The task store.
    pub tm: TaskManager,
    /// Set by a dispatched `quit`; ends the session loop.
    pub quit: bool,
    /// The reported errors, newest last.
    pub err_hist: Queue<String>,
    /// The executed command lines, newest last.
    pub cmd_hist: Queue<String>,
    /// The detail panel's current content: the last `show` output.
    pub log_buf: Vec<String>,
    /// The six panels, in layout order.
    pub blocks: Vec<Block>,
    /// The terminal's column count.
    pub width: usize,
    /// The terminal's row count.
    pub height: usize,
}

/// All fields agree but the detail buffer.
pub open spec fn same_but_log(a: TUI, b: TUI) -> bool {
    &&& b.tm == a.tm
    &&& b.quit == a.quit
    &&& b.err_hist == a.err_hist
    &&& b.cmd_hist == a.cmd_hist
    &&& b.blocks == a.blocks
    &&& b.width == a.width
    &&& b.height == a.height
}

/// All fields agree but the store.
pub open spec fn same_but_tm(a: TUI, b: TUI) -> bool {
    &&& b.quit == a.quit
    &&& b.err_hist == a.err_hist
    &&& b.cmd_hist == a.cmd_hist
    &&& b.log_buf == a.log_buf
    &&& b.blocks == a.blocks
    &&& b.width == a.width
    &&& b.height == a.height
}

/// All fields agree but the quit flag.
pub open spec fn same_but_quit(a: TUI, b: TUI) -> bool {
    &&& b.tm == a.tm
    &&& b.err_hist == a.err_hist
    &&& b.cmd_hist == a.cmd_hist
    &&& b.log_buf == a.log_buf
    &&& b.blocks == a.blocks
    &&& b.width == a.width
    &&& b.height == a.height
}

impl TUI {
    /// The session invariant: six well-formed panels and well-formed
    /// history buffers.
    pub open spec fn wf(&self) -> bool {
        &&& self.blocks@.len() == 6
        &&& forall|i: int| 0 <= i < self.blocks@.len() ==> block_wf(#[trigger] self.blocks@[i]@)
        &&& self.err_hist.wf()
        &&& self.cmd_hist.wf()
    }

    /// Set up a session from the terminal size and the outcome of loading
    /// the save file: a failed load starts with an empty store and the
    /// failure in the error history.  A terminal below the minimum size is
    /// rejected outright.
    pub fn new(cols: u16, rows: u16, load: Result<Vec<Task>, String>) -> (r: Result<
        TUI,
        GeometryError,
    >)
        ensures
            r is Ok <==> size_ok(cols as int, rows as int),
            r matches Ok(t) ==> {
                &&& t.wf()
                &&& t.blocks.deep_view() == layout_spec(cols as int, rows as int)
                &&& t.width == cols as int
                &&& t.height == rows as int
                &&& t.quit == false
                &&& t.log_buf@.len() == 0
                &&& t.cmd_hist@ =~= Seq::<String>::empty()
                &&& t.cmd_hist.cap() == queue_cap_spec(rows as int)
                &&& t.err_hist.cap() == queue_cap_spec(rows as int)
                &&& match load {
                    Ok(tasks) => t.tm@ == tasks@ && t.err_hist@ =~= Seq::<String>::empty(),
                    Err(msg) => t.tm@ =~= Seq::<Task>::empty() && t.err_hist@ =~= seq![msg],
                }
            },
    {
        if cols < 24 || rows < 12 {
            return Err(GeometryError);
        }
        let c = cols as usize;
        let h = rows as usize;
        let cap: usize = if h / 6 >= 3 {
            h / 6 - 2
        } else {
            1
        };
        let mut err_hist = Queue::<String>::new(cap);
        let tm = match load {
            Ok(tasks) => TaskManager::from_tasks(tasks),
            Err(msg) => {
                err_hist.push(msg);
                TaskManager::default()
            },
        };
        let mut blocks: Vec<Block> = Vec::new();
        blocks.push(Block::new(0, 1, c / 3 - 1, h / 2, "ToDo"));
        blocks.push(Block::new(c / 3, 1, c / 3, h / 2, "Doing"));
        blocks.push(Block::new(2 * c / 3, 1, c / 3, h / 2, "Done"));
        blocks.push(Block::new(0, h / 2 + 1, c / 2 - 1, h / 6, "Errors"));
        blocks.push(Block::new(c / 2, h / 2 + 1, c / 2 - 1, h / 6, "Commands"));
        blocks.push(Block::new(0, 2 * h / 3, c, h / 3 - 1, "Show"));
        proof {
            reveal_strlit("ToDo");
            reveal_strlit("Doing");
            reveal_strlit("Done");
            reveal_strlit("Errors");
            reveal_strlit("Commands");
            reveal_strlit("Show");
            assert(blocks.deep_view() =~~= layout_spec(cols as int, rows as int));
        }
        let t = TUI {
            tm,
            quit: false,
            err_hist,
            cmd_hist: Queue::new(cap),
            log_buf: Vec::new(),
            blocks,
            width: c,
            height: h,
        };
        proof {
            assert forall|i: int| 0 <= i < t.blocks@.len() implies block_wf(
                #[trigger] t.blocks@[i]@,
            ) by {
                assert(t.blocks.deep_view()[i] == t.blocks@[i]@);
            }
        }
        Ok(t)
    }

    /// Whether a dispatched `quit` has ended the session.
    pub fn should_quit(&self) -> (r: bool)
        ensures
            r == self.quit,
    {
        self.quit
    }

    /// Report an error from outside work (a failed save): push its
    /// description into the error history.
    pub fn push_error(&mut self, msg: String)
        requires
            old(self).wf(),
        ensures
            final(self).wf(),
            final(self).err_hist@ == ring_push(old(self).err_hist@, old(self).err_hist.cap(), msg),
            final(self).err_hist.cap() == old(self).err_hist.cap(),
            final(self).tm == old(self).tm,
            final(self).quit == old(self).quit,
            final(self).cmd_hist == old(self).cmd_hist,
            final(self).log_buf == old(self).log_buf,
            final(self).blocks == old(self).blocks,
            final(self).width == old(self).width,
            final(self).height == old(self).height,
    {
        self.err_hist.push(msg);
    }

    /// Replace the content of panel `i`, leaving everything else alone.
    fn set_block_content(&mut self, i: usize, content: Vec<String>)
        requires
            i < old(self).blocks@.len(),
        ensures
            final(self).blocks@.len() == old(self).blocks@.len(),
            final(self).blocks@[i as int]@ == (BlockV {
                content: content.deep_view(),
                ..old(self).blocks@[i as int]@
            }),
            forall|j: int|
                0 <= j < old(self).blocks@.len() && j != i ==> final(self).blocks@[j] == old(
                    self,
                ).blocks@[j],
            final(self).tm == old(self).tm,
            final(self).quit == old(self).quit,
            final(self).err_hist == old(self).err_hist,
            final(self).cmd_hist == old(self).cmd_hist,
            final(self).log_buf == old(self).log_buf,
            final(self).width == old(self).width,
            final(self).height == old(self).height,
    {
        let mut b = self.blocks.remove(i);
        b.content = content;
        self.blocks.insert(i, b);
        proof {
            assert(final(self).blocks@ =~= old(self).blocks@.update(i as int, b));
        }
    }

    /// Recompute every panel's content from the current state: the three
    /// status lists from the store, the two history panels from their
    /// buffers, and the detail panel from the last `show` output.
    pub fn refresh(&mut self)
        requires
            old(self).wf(),
        ensures
            final(self).wf(),
            final(self).blocks@.len() == 6,
            final(self).blocks@[0]@ == (BlockV {
                content: status_lines(old(self).tm@, Status::ToDo),
                ..old(self).blocks@[0]@
            }),
            final(self).blocks@[1]@ == (BlockV {
                content: status_lines(old(self).tm@, Status::Doing),
                ..old(self).blocks@[1]@
            }),
            final(self).blocks@[2]@ == (BlockV {
                content: status_lines(old(self).tm@, Status::Done),
                ..old(self).blocks@[2]@
            }),
            final(self).blocks@[3]@ == (BlockV {
                content: str_views(old(self).err_hist@),
                ..old(self).blocks@[3]@
            }),
            final(self).blocks@[4]@ == (BlockV {
                content: str_views(old(self).cmd_hist@),
                ..old(self).blocks@[4]@
            }),
            final(self).blocks@[5]@ == (BlockV {
                content: old(self).log_buf.deep_view(),
                ..old(self).blocks@[5]@
            }),
            final(self).tm == old(self).tm,
            final(self).quit == old(self).quit,
            final(self).err_hist == old(self).err_hist,
            final(self).cmd_hist == old(self).cmd_hist,
            final(self).log_buf == old(self).log_buf,
            final(self).width == old(self).width,
            final(self).height == old(self).height,
    {
        let c0 = status_content(&self.tm, Status::ToDo);
        self.set_block_content(0, c0);
        let c1 = status_content(&self.tm, Status::Doing);
        self.set_block_content(1, c1);
        let c2 = status_content(&self.tm, Status::Done);
        self.set_block_content(2, c2);
        let c3 = snapshot(&self.err_hist);
        self.set_block_content(3, c3);
        let c4 = snapshot(&self.cmd_hist);
        self.set_block_content(4, c4);
        let c5 = clone_lines(&self.log_buf);
        self.set_block_content(5, c5);
        proof {
            assert forall|i: int| 0 <= i < final(self).blocks@.len() implies block_wf(
                #[trigger] final(self).blocks@[i]@,
            ) by {
                assert(block_wf(old(self).blocks@[i]@));
            }
        }
    }

    /// The draw operations of one full frame: blank every screen row, then
    /// every panel, in order.
    pub fn draw_ui(&self) -> (ops: Vec<DrawOp>)
        requires
            self.wf(),
        ensures
            ops.deep_view() == frame_ops_spec(
                self.width as int,
                self.height as int,
                self.blocks.deep_view(),
            ),
    {
        draw_frame(self.width, self.height, &self.blocks)
    }

    /// Apply one command to the session: mutate the store, fill the detail
    /// buffer, set the quit flag, or ask the surrounding program for its
    /// one piece of outside work.  A lookup miss fails with the offending
    /// identifier and leaves everything unchanged.
    pub fn execute_command(&mut self, cmd: Command) -> (r: Result<Action, LookupError>)
        requires
            old(self).wf(),
        ensures
            final(self).wf(),
            final(self).err_hist == old(self).err_hist,
            final(self).cmd_hist == old(self).cmd_hist,
            final(self).blocks == old(self).blocks,
            final(self).width == old(self).width,
            final(self).height == old(self).height,
            match cmd {
                Command::Help => r == Ok::<Action, LookupError>(Action::PrintHelp) && *final(self)
                    == *old(self),
                Command::Show(id) => match find_id(old(self).tm@, id) {
                    Some(i) => {
                        &&& r == Ok::<Action, LookupError>(Action::Nothing)
                        &&& same_but_log(*old(self), *final(self))
                        &&& final(self).log_buf.deep_view() == show_lines(
                            old(self).tm@[i as int],
                            old(self).blocks@[5]@.width - 2,
                        )
                    },
                    None => r == Err::<Action, LookupError>(LookupError { id }) && *final(self)
                        == *old(self),
                },
                Command::Add(title, description, priority, status) => {
                    &&& r == Ok::<Action, LookupError>(Action::Nothing)
                    &&& same_but_tm(*old(self), *final(self))
                    &&& final(self).tm@.len() == old(self).tm@.len() + 1
                    &&& final(self).tm@.drop_last() == old(self).tm@
                    &&& final(self).tm@.last().id == next_id(old(self).tm@)
                    &&& final(self).tm@.last().title@ == title@
                    &&& final(self).tm@.last().description@ == description@
                    &&& final(self).tm@.last().priority == priority
                    &&& final(self).tm@.last().status == status
                },
                Command::Remove(id) => {
                    &&& r == Ok::<Action, LookupError>(Action::Nothing)
                    &&& same_but_tm(*old(self), *final(self))
                    &&& final(self).tm@ == old(self).tm@.filter(
                        |t: Task| !sel_matches(TaskSelector::Id(id), t),
                    )
                },
                Command::Priority(id, p) => match find_id(old(self).tm@, id) {
                    Some(i) => {
                        &&& r == Ok::<Action, LookupError>(Action::Nothing)
                        &&& same_but_tm(*old(self), *final(self))
                        &&& final(self).tm@ == old(self).tm@.update(
                            i as int,
                            Task { priority: p, ..old(self).tm@[i as int] },
                        )
                    },
                    None => r == Err::<Action, LookupError>(LookupError { id }) && *final(self)
                        == *old(self),
                },
                Command::Status(id, s) => match find_id(old(self).tm@, id) {
                    Some(i) => {
                        &&& r == Ok::<Action, LookupError>(Action::Nothing)
                        &&& same_but_tm(*old(self), *final(self))
                        &&& final(self).tm@ == old(self).tm@.update(
                            i as int,
                            Task { status: s, ..old(self).tm@[i as int] },
                        )
                    },
                    None => r == Err::<Action, LookupError>(LookupError { id }) && *final(self)
                        == *old(self),
                },
                Command::Save => r == Ok::<Action, LookupError>(Action::SaveStore) && *final(self)
                    == *old(self),
                Command::Quit => {
                    &&& r == Ok::<Action, LookupError>(Action::Nothing)
                    &&& final(self).quit == true
                    &&& same_but_quit(*old(self), *final(self))
                },
                Command::NoOp => r == Ok::<Action, LookupError>(Action::Nothing) && *final(self)
                    == *old(self),
            },
    {
        match cmd {
            Command::Help => {
                return Ok(Action::PrintHelp);
            },
            Command::Show(id) => {
                let logtext = match self.tm.get_task_by_id(id) {
                    Some(t) => t.log(),
                    None => {
                        return Err(LookupError { id });
                    },
                };
                let cs = chars_of(logtext.as_str());
                proof {
                    assert(block_wf(self.blocks@[5]@));
                }
                let w = self.blocks[5].width - 2;
                let wrapped = wrap_chars(&cs, w);
                let lines = split_lines(&wrapped);
                self.log_buf = lines;
                return Ok(Action::Nothing);
            },
            Command::Add(title, description, priority, status) => {
                self.tm.new_task(title.as_str(), description.as_str(), priority, status);
                return Ok(Action::Nothing);
            },
            Command::Remove(id) => {
                self.tm.remove_task(TaskSelector::Id(id));
                return Ok(Action::Nothing);
            },
            Command::Priority(id, p) => {
                match self.tm.change_task_priority(TaskSelector::Id(id), p) {
                    Ok(_) => {
                        return Ok(Action::Nothing);
                    },
                    Err(_) => {
                        return Err(LookupError { id });
                    },
                }
            },
            Command::Status(id, s) => {
                match self.tm.change_task_status(TaskSelector::Id(id), s) {
                    Ok(_) => {
                        return Ok(Action::Nothing);
                    },
                    Err(_) => {
                        return Err(LookupError { id });
                    },
                }
            },
            Command::Save => {
                return Ok(Action::SaveStore);
            },
            Command::Quit => {
                self.quit = true;
                return Ok(Action::Nothing);
            },
            Command::NoOp => {
                return Ok(Action::Nothing);
            },
        }
    }
}

/// The error history of `b` is that of `a` with `msg` pushed, under the
/// unchanged capacity.
pub open spec fn errs_pushed(a: TUI, b: TUI, msg: Seq<char>) -> bool {
    &&& str_views(b.err_hist@) == ring_push(str_views(a.err_hist@), a.err_hist.cap(), msg)
    &&& b.err_hist.cap() == a.err_hist.cap()
}

/// Pushing into a history buffer and taking the views commute.
proof fn lemma_ring_push_views(q: Seq<String>, cap: nat, s: String)
    requires
        cap >= 1,
    ensures
        str_views(ring_push(q, cap, s)) == ring_push(str_views(q), cap, s@),
{
    if q.len() < cap {
        assert(str_views(q.push(s)) =~= str_views(q).push(s@));
    } else {
        assert(str_views(q.drop_first().push(s)) =~= str_views(q).drop_first().push(s@));
    }
}

impl TUI {
    /// Drive one cycle's command handling: record the raw line in the
    /// command history, parse it, dispatch the parsed command, and record
    /// any parse or dispatch failure in the error history.  The returned
    /// [`Action`] is the outside work the surrounding program owes for
    /// this cycle.
    pub fn handle_line(&mut self, input: &str) -> (r: Action)
        requires
            old(self).wf(),
        ensures
            final(self).wf(),
            final(self).blocks == old(self).blocks,
            final(self).width == old(self).width,
            final(self).height == old(self).height,
            str_views(final(self).cmd_hist@) == ring_push(
                str_views(old(self).cmd_hist@),
                old(self).cmd_hist.cap(),
                input@,
            ),
            final(self).cmd_hist.cap() == old(self).cmd_hist.cap(),
            match parse_spec(input@) {
                Err(e) => {
                    &&& errs_pushed(*old(self), *final(self), parse_error_message(e))
                    &&& final(self).tm == old(self).tm
                    &&& final(self).quit == old(self).quit
                    &&& final(self).log_buf == old(self).log_buf
                    &&& r == Action::Nothing
                },
                Ok(cv) => match cv {
                    CommandV::Help => {
                        &&& final(self).err_hist == old(self).err_hist
                        &&& final(self).tm == old(self).tm
                        &&& final(self).quit == old(self).quit
                        &&& final(self).log_buf == old(self).log_buf
                        &&& r == Action::PrintHelp
                    },
                    CommandV::Show(id) => match find_id(old(self).tm@, id) {
                        Some(i) => {
                            &&& final(self).err_hist == old(self).err_hist
                            &&& final(self).tm == old(self).tm
                            &&& final(self).quit == old(self).quit
                            &&& final(self).log_buf.deep_view() == show_lines(
                                old(self).tm@[i as int],
                                old(self).blocks@[5]@.width - 2,
                            )
                            &&& r == Action::Nothing
                        },
                        None => {
                            &&& errs_pushed(*old(self), *final(self), lookup_message(id))
                            &&& final(self).tm == old(self).tm
                            &&& final(self).quit == old(self).quit
                            &&& final(self).log_buf == old(self).log_buf
                            &&& r == Action::Nothing
                        },
                    },
                    CommandV::Add(title, description, priority, status) => {
                        &&& final(self).err_hist == old(self).err_hist
                        &&& final(self).quit == old(self).quit
                        &&& final(self).log_buf == old(self).log_buf
                        &&& final(self).tm@.len() == old(self).tm@.len() + 1
                        &&& final(self).tm@.drop_last() == old(self).tm@
                        &&& final(self).tm@.last().id == next_id(old(self).tm@)
                        &&& final(self).tm@.last().title@ == title
                        &&& final(self).tm@.last().description@ == description
                        &&& final(self).tm@.last().priority == priority
                        &&& final(self).tm@.last().status == status
                        &&& r == Action::Nothing
                    },
                    CommandV::Remove(id) => {
                        &&& final(self).err_hist == old(self).err_hist
                        &&& final(self).quit == old(self).quit
                        &&& final(self).log_buf == old(self).log_buf
                        &&& final(self).tm@ == old(self).tm@.filter(
                            |t: Task| !sel_matches(TaskSelector::Id(id), t),
                        )
                        &&& r == Action::Nothing
                    },
                    CommandV::Priority(id, p) => match find_id(old(self).tm@, id) {
                        Some(i) => {
                            &&& final(self).err_hist == old(self).err_hist
                            &&& final(self).quit == old(self).quit
                            &&& final(self).log_buf == old(self).log_buf
                            &&& final(self).tm@ == old(self).tm@.update(
                                i as int,
                                Task { priority: p, ..old(self).tm@[i as int] },
                            )
                            &&& r == Action::Nothing
                        },
                        None => {
                            &&& errs_pushed(*old(self), *final(self), lookup_message(id))
                            &&& final(self).tm == old(self).tm
                            &&& final(self).quit == old(self).quit
                            &&& final(self).log_buf == old(self).log_buf
                            &&& r == Action::Nothing
                        },
                    },
                    CommandV::Status(id, s) => match find_id(old(self).tm@, id) {
                        Some(i) => {
                            &&& final(self).err_hist == old(self).err_hist
                            &&& final(self).quit == old(self).quit
                            &&& final(self).log_buf == old(self).log_buf
                            &&& final(self).tm@ == old(self).tm@.update(
                                i as int,
                                Task { status: s, ..old(self).tm@[i as int] },
                            )
                            &&& r == Action::Nothing
                        },
                        None => {
                            &&& errs_pushed(*old(self), *final(self), lookup_message(id))
                            &&& final(self).tm == old(self).tm
                            &&& final(self).quit == old(self).quit
                            &&& final(self).log_buf == old(self).log_buf
                            &&& r == Action::Nothing
                        },
                    },
                    CommandV::Save => {
                        &&& final(self).err_hist == old(self).err_hist
                        &&& final(self).tm == old(self).tm
                        &&& final(self).quit == old(self).quit
                        &&& final(self).log_buf == old(self).log_buf
                        &&& r == Action::SaveStore
                    },
                    CommandV::Quit => {
                        &&& final(self).err_hist == old(self).err_hist
                        &&& final(self).tm == old(self).tm
                        &&& final(self).quit == true
                        &&& final(self).log_buf == old(self).log_buf
                        &&& r == Action::Nothing
                    },
                    CommandV::NoOp => {
                        &&& final(self).err_hist == old(self).err_hist
                        &&& final(self).tm == old(self).tm
                        &&& final(self).quit == old(self).quit
                        &&& final(self).log_buf == old(self).log_buf
                        &&& r == Action::Nothing
                    },
                },
            },
    {
        let owned = input.to_owned();
        let ghost q0 = self.cmd_hist@;
        let ghost c0 = self.cmd_hist.cap();
        let ghost s0 = owned;
        self.cmd_hist.push(owned);
        proof {
            lemma_ring_push_views(q0, c0, s0);
        }
        match process_input(input) {
            Err(e) => {
                let m = e.message();
                let ghost eq0 = self.err_hist@;
                let ghost ec0 = self.err_hist.cap();
                let ghost m0 = m;
                self.err_hist.push(m);
                proof {
                    lemma_ring_push_views(eq0, ec0, m0);
                }
                Action::Nothing
            },
            Ok(cmd) => {
                match self.execute_command(cmd) {
                    Ok(a) => a,
                    Err(le) => {
                        let m = le.message();
                        let ghost eq0 = self.err_hist@;
                        let ghost ec0 = self.err_hist.cap();
                        let ghost m0 = m;
                        self.err_hist.push(m);
                        proof {
                            lemma_ring_push_views(eq0, ec0, m0);
                        }
                        Action::Nothing
                    },
                }
            },
        }
    }
}

/// The one-line renderings of the tasks with status `status`, in store
/// order.
#[verifier::loop_isolation(false)]
fn status_content(tm: &TaskManager, status: Status) -> (r: Vec<String>)
    ensures
        r.deep_view() == status_lines(tm@, status),
{
    let filtered = tm.filter_task_status(status);
    let ghost seqf = tm@.filter(|t: Task| t.status == status);
    let ghost lines = seqf.map_values(|t: Task| display_line_spec(t));
    let mut r: Vec<String> = Vec::new();
    let mut k: usize = 0;
    proof {
        assert(r.deep_view() =~= lines.take(0));
    }
    while k < filtered.len()
        invariant
            k <= filtered@.len(),
            filtered@.map_values(|t: &Task| *t) == seqf,
            filtered@.len() == seqf.len(),
            r.deep_view() == lines.take(k as int),
        decreases filtered@.len() - k,
    {
        proof {
            assert(*filtered@[k as int] == seqf[k as int]);
        }
        let line = filtered[k].display_line();
        r.push(line);
        proof {
            assert(lines[k as int] == display_line_spec(seqf[k as int]));
            assert(r.deep_view() =~= lines.take(k + 1));
        }
        k += 1;
    }
    proof {
        assert(lines.take(seqf.len() as int) =~= lines);
    }
    r
}

/// A read-only copy of a history buffer's contents, oldest first.
fn snapshot(q: &Queue<String>) -> (r: Vec<String>)
    ensures
        r.deep_view() == str_views(q@),
{
    let r = q.clone_elements();
    proof {
        assert forall|i: int| 0 <= i < r@.len() implies r@[i]@ == q@[i]@ by {
            assert(cloned(q@[i], r@[i]));
        }
        assert(r.deep_view() =~= str_views(q@));
    }
    r
}

/// A copy of the detail buffer's lines.
fn clone_lines(v: &Vec<String>) -> (r: Vec<String>)
    ensures
        r.deep_view() == v.deep_view(),
{
    let mut r: Vec<String> = Vec::new();
    let mut i: usize = 0;
    while i < v.len()
        invariant
            i <= v@.len(),
            r@.len() == i,
            forall|j: int| 0 <= j < i ==> r@[j]@ == #[trigger] v@[j]@,
        decreases v@.len() - i,
    {
        let line = clone_string(&v[i]);
        r.push(line);
        i += 1;
    }
    proof {
        assert(r.deep_view() =~= v.deep_view());
    }
    r
}

} // verus!

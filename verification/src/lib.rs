//! An interactive, terminal-rendered task tracker.
//!
//! The library holds the verified core: the quote-aware command parser, the
//! task store with its mutations, the bounded `Queue` history buffers, the
//! panel layout and the rendering engine that turns the session state into a
//! list of positioned draw operations.  All input and output — reading the
//! terminal size, reading command lines, writing frames, loading and saving
//! the task file — stays outside, in the thin program around the library.

pub mod history;
pub mod parser;
pub mod render;
pub mod session;
pub mod store;
pub mod task;
pub mod text;

pub use history::Queue;
pub use parser::{ArgField, Command, ParseError};
pub use render::{Block, DrawOp};
pub use session::{Action, GeometryError, LookupError, TUI};
pub use store::{SortBy, TaskManager, TaskNotFountError, TaskSelector};
pub use task::{ParsePriorityError, ParseStatusError, Priority, Status, Task};

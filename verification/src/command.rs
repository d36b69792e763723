//! The commands that the event loop and the task actions are named by.
use vstd::prelude::*;

verus! {

/// A command of the event loop.
#[derive(Debug, Clone, PartialEq, Eq)]
pub enum Command {
    Tick,
    Render,
    Resize(u16, u16),
    Suspend,
    Resume,
    Quit,
    Refresh,
    Error(String),
    Help,
    MoveDown,
    MoveUp,
    MoveBottom,
    MoveTop,
    MoveLeft,
    MoveRight,
    MoveHome,
    MoveEnd,
    ToggleMark,
    ToggleMarkAll,
    Select,
    SelectAll,
    ToggleZoom,
    Context,
    RunShortcut(usize),
    RunShell,
    Task,
    ShowTaskReport,
}

/// A taskwarrior command that acts on tasks.
#[derive(Debug, Clone, Copy, PartialEq, Eq, Structural)]
pub enum Task {
    Undo,
    Edit,
    Tag,
    Start,
    Stop,
    Modify,
    Log,
    Annotate,
    Filter,
    Add,
}

} // verus!

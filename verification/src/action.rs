//! The actions that key bindings and the event loop send, and how their
//! names are read.
use vstd::prelude::*;

use crate::text::{
    chars_eq_str, chars_of, has_prefix, parse_unsigned, parse_unsigned_chars, push_all, push_str,
    split_char, split_chars, starts_with, string_of, strip_all_prefix, strip_all_prefix_chars,
    strip_all_suffix, strip_all_suffix_chars, trim, trim_chars,
};

verus! {

/// An action of the application.
#[derive(Debug, Clone, PartialEq, Eq)]
pub enum Action {
    Tick,
    Render,
    Resize(u16, u16),
    Suspend,
    Resume,
    Quit,
    Refresh,
    Error(String),
    Help,
    MoveDown,
    MoveUp,
    MoveBottom,
    MoveTop,
    MoveLeft,
    MoveRight,
    MoveHome,
    MoveEnd,
    ToggleMark,
    ToggleMarkAll,
    Select,
    SelectAll,
    ToggleZoom,
    Context,
    ExecuteShortcut(usize),
    ExecuteTask(TaskCommand),
    RunShell,
    ShowTaskReport,
    /// A task, by the 128 bits of its UUID.
    TaskDetailsUpdateUuid(u128),
    /// A task, by the 128 bits of its UUID, and its details.
    TaskDetailsUpdateData(u128, String),
}

/// A taskwarrior command that acts on tasks.
#[derive(Debug, Clone, Copy, PartialEq, Eq, Structural)]
pub enum TaskCommand {
    Undo,
    Edit,
    Tag,
    Start,
    Stop,
    Modify,
    Log,
    Annotate,
    Filter,
    Add,
}

/// Why a name does not name an action.
#[derive(Debug, Clone, PartialEq, Eq)]
pub enum ActionError {
    /// A number in the name is not an unsigned decimal that fits.
    InvalidNumber(String),
    /// `Resize(..)` does not hold two numbers separated by a comma.
    InvalidResize(String),
    /// `ExecuteTask(..)` names no task command.
    UnknownTask(String),
    /// The name names no action.
    UnknownAction(String),
}

impl ActionError {
    /// The message that tells what went wrong.
    pub fn to_string(&self) -> (r: String)
        ensures
            r@ == error_message(*self),
    {
        match self {
            ActionError::InvalidNumber(s) => {
                let mut m = chars_of(INVALID_NUMBER);
                push_str(&mut m, s.as_str());
                string_of(m.as_slice())
            },
            ActionError::InvalidResize(s) => {
                let mut m = chars_of(INVALID_RESIZE);
                push_str(&mut m, s.as_str());
                string_of(m.as_slice())
            },
            ActionError::UnknownTask(s) => {
                let mut m = chars_of(UNKNOWN_TASK);
                push_str(&mut m, s.as_str());
                string_of(m.as_slice())
            },
            ActionError::UnknownAction(s) => {
                let mut m = chars_of(UNKNOWN_ACTION);
                push_str(&mut m, s.as_str());
                string_of(m.as_slice())
            },
        }
    }
}

/// Message for a number that does not parse.
pub const INVALID_NUMBER: &'static str = "invalid number: ";

/// Message for a malformed `Resize(..)`.
pub const INVALID_RESIZE: &'static str = "Invalid Resize format: ";

/// Message for an unknown task command.
pub const UNKNOWN_TASK: &'static str = "Unknown ExecuteTask variant: ";

/// Message for an unknown action.
pub const UNKNOWN_ACTION: &'static str = "Unknown Action variant: ";

/// The message of an error.
pub open spec fn error_message(e: ActionError) -> Seq<char> {
    match e {
        ActionError::InvalidNumber(s) => INVALID_NUMBER@ + s@,
        ActionError::InvalidResize(s) => INVALID_RESIZE@ + s@,
        ActionError::UnknownTask(s) => UNKNOWN_TASK@ + s@,
        ActionError::UnknownAction(s) => UNKNOWN_ACTION@ + s@,
    }
}

/// How an error action begins.
pub const ERROR_OPEN: &'static str = "Error(";

/// How a resize action begins.
pub const RESIZE_OPEN: &'static str = "Resize(";

/// How a shortcut action begins.
pub const SHORTCUT_OPEN: &'static str = "ExecuteShortcut(";

/// How a task action begins.
pub const TASK_OPEN: &'static str = "ExecuteTask(";

/// What closes an action with arguments.
pub const CLOSE: &'static str = ")";

/// The action without arguments that `v` names.
#[verifier::opaque]
pub open spec fn plain_action(v: Seq<char>) -> Option<Action> {
    if v == "Tick"@ {
        Some(Action::Tick)
    } else if v == "Render"@ {
        Some(Action::Render)
    } else if v == "Suspend"@ {
        Some(Action::Suspend)
    } else if v == "Resume"@ {
        Some(Action::Resume)
    } else if v == "Quit"@ {
        Some(Action::Quit)
    } else if v == "Refresh"@ {
        Some(Action::Refresh)
    } else if v == "Help"@ {
        Some(Action::Help)
    } else if v == "MoveDown"@ {
        Some(Action::MoveDown)
    } else if v == "MoveUp"@ {
        Some(Action::MoveUp)
    } else if v == "MoveBottom"@ {
        Some(Action::MoveBottom)
    } else if v == "MoveTop"@ {
        Some(Action::MoveTop)
    } else if v == "MoveLeft"@ {
        Some(Action::MoveLeft)
    } else if v == "MoveRight"@ {
        Some(Action::MoveRight)
    } else if v == "MoveHome"@ {
        Some(Action::MoveHome)
    } else if v == "MoveEnd"@ {
        Some(Action::MoveEnd)
    } else if v == "ToggleMark"@ {
        Some(Action::ToggleMark)
    } else if v == "ToggleMarkAll"@ {
        Some(Action::ToggleMarkAll)
    } else if v == "Select"@ {
        Some(Action::Select)
    } else if v == "SelectAll"@ {
        Some(Action::SelectAll)
    } else if v == "ToggleZoom"@ {
        Some(Action::ToggleZoom)
    } else if v == "Context"@ {
        Some(Action::Context)
    } else if v == "RunShell"@ {
        Some(Action::RunShell)
    } else if v == "ShowTaskReport"@ {
        Some(Action::ShowTaskReport)
    } else {
        None
    }
}

/// The task command that `v`, a whole `ExecuteTask(..)` name, names.
#[verifier::opaque]
pub open spec fn task_action(v: Seq<char>) -> Option<TaskCommand> {
    if v == "ExecuteTask(Undo)"@ {
        Some(TaskCommand::Undo)
    } else if v == "ExecuteTask(Edit)"@ {
        Some(TaskCommand::Edit)
    } else if v == "ExecuteTask(Tag)"@ {
        Some(TaskCommand::Tag)
    } else if v == "ExecuteTask(Start)"@ {
        Some(TaskCommand::Start)
    } else if v == "ExecuteTask(Stop)"@ {
        Some(TaskCommand::Stop)
    } else if v == "ExecuteTask(Modify)"@ {
        Some(TaskCommand::Modify)
    } else if v == "ExecuteTask(Log)"@ {
        Some(TaskCommand::Log)
    } else if v == "ExecuteTask(Annotate)"@ {
        Some(TaskCommand::Annotate)
    } else if v == "ExecuteTask(Filter)"@ {
        Some(TaskCommand::Filter)
    } else if v == "ExecuteTask(Add)"@ {
        Some(TaskCommand::Add)
    } else {
        None
    }
}

/// The argument text of `v` after the opening `open`: without leading copies
/// of `open` and trailing `)`.
pub open spec fn argument(v: Seq<char>, open: Seq<char>) -> Seq<char> {
    strip_all_suffix(strip_all_prefix(v, open), CLOSE@)
}

/// `r` is what reading `v` as the name of an action gives.
pub open spec fn parsed_as(v: Seq<char>, r: Result<Action, ActionError>) -> bool {
    match plain_action(v) {
        Some(a) => r == Ok::<Action, ActionError>(a),
        None => if starts_with(v, ERROR_OPEN@) {
            r matches Ok(Action::Error(m)) && m@ == argument(v, ERROR_OPEN@)
        } else if starts_with(v, RESIZE_OPEN@) {
            let parts = split_char(argument(v, RESIZE_OPEN@), ',');
            if parts.len() == 2 {
                let w = trim(parts[0]);
                let h = trim(parts[1]);
                match parse_unsigned(w, 65535) {
                    Some(a) => match parse_unsigned(h, 65535) {
                        Some(b) => r == Ok::<Action, ActionError>(Action::Resize(a as u16, b as u16)),
                        None => r matches Err(ActionError::InvalidNumber(m)) && m@ == h,
                    },
                    None => r matches Err(ActionError::InvalidNumber(m)) && m@ == w,
                }
            } else {
                r matches Err(ActionError::InvalidResize(m)) && m@ == v
            }
        } else if starts_with(v, SHORTCUT_OPEN@) {
            let a = argument(v, SHORTCUT_OPEN@);
            match parse_unsigned(a, usize::MAX as nat) {
                Some(n) => r == Ok::<Action, ActionError>(Action::ExecuteShortcut(n as usize)),
                None => r matches Err(ActionError::InvalidNumber(m)) && m@ == a,
            }
        } else if starts_with(v, TASK_OPEN@) {
            match task_action(v) {
                Some(t) => r == Ok::<Action, ActionError>(Action::ExecuteTask(t)),
                None => r matches Err(ActionError::UnknownTask(m)) && m@ == v,
            }
        } else {
            r matches Err(ActionError::UnknownAction(m)) && m@ == v
        },
    }
}

fn plain_action_of(v: &[char]) -> (r: Option<Action>)
    ensures
        r == plain_action(v@),
{
    proof {
        reveal(plain_action);
    }
    if chars_eq_str(v, "Tick") {
        return Some(Action::Tick);
    }
    if chars_eq_str(v, "Render") {
        return Some(Action::Render);
    }
    if chars_eq_str(v, "Suspend") {
        return Some(Action::Suspend);
    }
    if chars_eq_str(v, "Resume") {
        return Some(Action::Resume);
    }
    if chars_eq_str(v, "Quit") {
        return Some(Action::Quit);
    }
    if chars_eq_str(v, "Refresh") {
        return Some(Action::Refresh);
    }
    if chars_eq_str(v, "Help") {
        return Some(Action::Help);
    }
    if chars_eq_str(v, "MoveDown") {
        return Some(Action::MoveDown);
    }
    if chars_eq_str(v, "MoveUp") {
        return Some(Action::MoveUp);
    }
    if chars_eq_str(v, "MoveBottom") {
        return Some(Action::MoveBottom);
    }
    if chars_eq_str(v, "MoveTop") {
        return Some(Action::MoveTop);
    }
    if chars_eq_str(v, "MoveLeft") {
        return Some(Action::MoveLeft);
    }
    if chars_eq_str(v, "MoveRight") {
        return Some(Action::MoveRight);
    }
    if chars_eq_str(v, "MoveHome") {
        return Some(Action::MoveHome);
    }
    if chars_eq_str(v, "MoveEnd") {
        return Some(Action::MoveEnd);
    }
    if chars_eq_str(v, "ToggleMark") {
        return Some(Action::ToggleMark);
    }
    if chars_eq_str(v, "ToggleMarkAll") {
        return Some(Action::ToggleMarkAll);
    }
    if chars_eq_str(v, "Select") {
        return Some(Action::Select);
    }
    if chars_eq_str(v, "SelectAll") {
        return Some(Action::SelectAll);
    }
    if chars_eq_str(v, "ToggleZoom") {
        return Some(Action::ToggleZoom);
    }
    if chars_eq_str(v, "Context") {
        return Some(Action::Context);
    }
    if chars_eq_str(v, "RunShell") {
        return Some(Action::RunShell);
    }
    if chars_eq_str(v, "ShowTaskReport") {
        return Some(Action::ShowTaskReport);
    }
    None
}

fn task_action_of(v: &[char]) -> (r: Option<TaskCommand>)
    ensures
        r == task_action(v@),
{
    proof {
        reveal(task_action);
    }
    if chars_eq_str(v, "ExecuteTask(Undo)") {
        return Some(TaskCommand::Undo);
    }
    if chars_eq_str(v, "ExecuteTask(Edit)") {
        return Some(TaskCommand::Edit);
    }
    if chars_eq_str(v, "ExecuteTask(Tag)") {
        return Some(TaskCommand::Tag);
    }
    if chars_eq_str(v, "ExecuteTask(Start)") {
        return Some(TaskCommand::Start);
    }
    if chars_eq_str(v, "ExecuteTask(Stop)") {
        return Some(TaskCommand::Stop);
    }
    if chars_eq_str(v, "ExecuteTask(Modify)") {
        return Some(TaskCommand::Modify);
    }
    if chars_eq_str(v, "ExecuteTask(Log)") {
        return Some(TaskCommand::Log);
    }
    if chars_eq_str(v, "ExecuteTask(Annotate)") {
        return Some(TaskCommand::Annotate);
    }
    if chars_eq_str(v, "ExecuteTask(Filter)") {
        return Some(TaskCommand::Filter);
    }
    if chars_eq_str(v, "ExecuteTask(Add)") {
        return Some(TaskCommand::Add);
    }
    None
}

fn argument_of(v: &[char], open: &str) -> (r: Vec<char>)
    ensures
        r@ == argument(v@, open@),
{
    let o = chars_of(open);
    let a = strip_all_prefix_chars(v, o.as_slice());
    let c = chars_of(CLOSE);
    strip_all_suffix_chars(a.as_slice(), c.as_slice())
}

impl Action {
    /// The action that `value` names: a plain name such as `MoveDown`, or
    /// `Error(message)`, `Resize(width, height)`, `ExecuteShortcut(index)`,
    /// `ExecuteTask(command)`.
    pub fn from_name(value: &str) -> (r: Result<Action, ActionError>)
        ensures
            parsed_as(value@, r),
    {
        let v = chars_of(value);
        if let Some(a) = plain_action_of(v.as_slice()) {
            return Ok(a);
        }
        if has_prefix(v.as_slice(), chars_of(ERROR_OPEN).as_slice()) {
            let m = argument_of(v.as_slice(), ERROR_OPEN);
            return Ok(Action::Error(string_of(m.as_slice())));
        }
        if has_prefix(v.as_slice(), chars_of(RESIZE_OPEN).as_slice()) {
            let arg = argument_of(v.as_slice(), RESIZE_OPEN);
            let parts = split_chars(arg.as_slice(), ',');
            if parts.len() == 2 {
                let w = trim_chars(parts[0].as_slice());
                let h = trim_chars(parts[1].as_slice());
                match parse_unsigned_chars(w.as_slice(), 65535) {
                    Some(a) => match parse_unsigned_chars(h.as_slice(), 65535) {
                        Some(b) => {
                            return Ok(Action::Resize(a as u16, b as u16));
                        },
                        None => {
                            return Err(ActionError::InvalidNumber(string_of(h.as_slice())));
                        },
                    },
                    None => {
                        return Err(ActionError::InvalidNumber(string_of(w.as_slice())));
                    },
                }
            } else {
                return Err(ActionError::InvalidResize(string_of(v.as_slice())));
            }
        }
        if has_prefix(v.as_slice(), chars_of(SHORTCUT_OPEN).as_slice()) {
            let arg = argument_of(v.as_slice(), SHORTCUT_OPEN);
            let max = usize::MAX as u64;
            return match parse_unsigned_chars(arg.as_slice(), max) {
                Some(n) => Ok(Action::ExecuteShortcut(n as usize)),
                None => Err(ActionError::InvalidNumber(string_of(arg.as_slice()))),
            };
        }
        if has_prefix(v.as_slice(), chars_of(TASK_OPEN).as_slice()) {
            return match task_action_of(v.as_slice()) {
                Some(t) => Ok(Action::ExecuteTask(t)),
                None => Err(ActionError::UnknownTask(string_of(v.as_slice()))),
            };
        }
        Err(ActionError::UnknownAction(string_of(v.as_slice())))
    }
}

} // verus!

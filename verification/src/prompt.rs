//! The label of the command line in each mode, and the text of the prompts
//! that ask to confirm a change.
use vstd::prelude::*;

use crate::app::{Mode, TaskwarriorTui};
use crate::event::KeyCode;
use crate::keyconfig::KeyConfig;
use crate::table::TableMode;
use crate::task::{first_index_with_uuid, first_with_uuid, TaskRecord};
use crate::text::{char_vecs, chars_of, decimal_chars, decimal_of, join, join_chars, push_all, push_str, string_of};

verus! {

/// `word`, then `Task ` for one task or `Tasks ` for several, the task ids
/// joined by `,`, then `end`.
pub open spec fn tasks_label(word: Seq<char>, ids: Seq<Seq<char>>, end: Seq<char>) -> Seq<char> {
    word + (if ids.len() > 1 {
        "Tasks "@
    } else {
        "Task "@
    }) + join(ids, ',') + end
}

/// The label of the command line in `mode`, for the tasks with ids `ids`;
/// `None` in the modes that draw no command line.
pub open spec fn mode_label(mode: Mode, ids: Seq<Seq<char>>) -> Option<Seq<char>> {
    match mode {
        Mode::TaskError => Some("Error"@),
        Mode::TaskReport | Mode::TaskFilter | Mode::TaskHelpPopup | Mode::TaskContextMenu => Some("Filter Tasks"@),
        Mode::TaskJump => Some("Jump to Task"@),
        Mode::TaskLog => Some("Log Task"@),
        Mode::TaskSubprocess => Some("Shell Command"@),
        Mode::TaskAdd => Some("Add Task"@),
        Mode::TaskModify => Some(tasks_label("Modify "@, ids, ""@)),
        Mode::TaskAnnotate => Some(tasks_label("Annotate "@, ids, ""@)),
        Mode::TaskDonePrompt => Some(tasks_label("Done "@, ids, "?"@)),
        Mode::TaskDeletePrompt => Some(tasks_label("Delete "@, ids, "?"@)),
        Mode::TaskUndoPrompt => Some("Run `task undo`?"@),
        Mode::Projects | Mode::Calendar => None,
    }
}

/// How a prompt names a key: a character key by its character, any other
/// key by `other`.
pub open spec fn key_name(k: KeyCode, other: Seq<char>) -> Seq<char> {
    match k {
        KeyCode::Char(c) => seq![c],
        _ => other,
    }
}

/// The text of a prompt that asks to press `confirm` or `quit`.
pub open spec fn confirm_text(confirm: KeyCode, quit: KeyCode) -> Seq<char> {
    "Press <"@ + key_name(confirm, "Enter"@) + "> to confirm or <"@ + key_name(quit, "Esc"@) + "> to abort."@
}

/// The key that confirms the prompt of `mode`, if `mode` is a prompt.
pub open spec fn confirm_key(mode: Mode, kc: KeyConfig) -> Option<KeyCode> {
    match mode {
        Mode::TaskDonePrompt => Some(kc.done),
        Mode::TaskDeletePrompt => Some(kc.delete),
        Mode::TaskUndoPrompt => Some(kc.undo),
        _ => None,
    }
}

fn strings_chars(v: &Vec<String>) -> (r: Vec<Vec<char>>)
    ensures
        char_vecs(r@) == v@.map_values(|s: String| s@),
{
    let mut r: Vec<Vec<char>> = Vec::new();
    let mut i: usize = 0;
    while i < v.len()
        invariant
            i <= v@.len(),
            char_vecs(r@) == v@.take(i as int).map_values(|s: String| s@),
        decreases v.len() - i,
    {
        let ghost before = char_vecs(r@);
        r.push(chars_of(v[i].as_str()));
        assert(char_vecs(r@) =~= before.push(v@[i as int]@));
        assert(v@.take(i + 1).map_values(|s: String| s@) =~= v@.take(i as int).map_values(|s: String| s@).push(
            v@[i as int]@,
        ));
        i += 1;
    }
    assert(v@.take(v@.len() as int) =~= v@);
    r
}

fn tasks_label_string(word: &str, ids: &Vec<String>, end: &str) -> (r: String)
    ensures
        r@ == tasks_label(word@, ids@.map_values(|s: String| s@), end@),
{
    let mut r = chars_of(word);
    if ids.len() > 1 {
        push_str(&mut r, "Tasks ");
    } else {
        push_str(&mut r, "Task ");
    }
    let cv = strings_chars(ids);
    let j = join_chars(&cv, ',');
    push_all(&mut r, j.as_slice());
    push_str(&mut r, end);
    string_of(r.as_slice())
}

/// The label of the command line in `mode`, for the tasks with ids `ids`.
pub fn command_label(mode: Mode, ids: &Vec<String>) -> (r: Option<String>)
    ensures
        match mode_label(mode, ids@.map_values(|s: String| s@)) {
            Some(l) => r matches Some(s) && s@ == l,
            None => r is None,
        },
{
    match mode {
        Mode::TaskError => Some(String::from_str("Error")),
        Mode::TaskReport | Mode::TaskFilter | Mode::TaskHelpPopup | Mode::TaskContextMenu => Some(
            String::from_str("Filter Tasks"),
        ),
        Mode::TaskJump => Some(String::from_str("Jump to Task")),
        Mode::TaskLog => Some(String::from_str("Log Task")),
        Mode::TaskSubprocess => Some(String::from_str("Shell Command")),
        Mode::TaskAdd => Some(String::from_str("Add Task")),
        Mode::TaskModify => Some(tasks_label_string("Modify ", ids, "")),
        Mode::TaskAnnotate => Some(tasks_label_string("Annotate ", ids, "")),
        Mode::TaskDonePrompt => Some(tasks_label_string("Done ", ids, "?")),
        Mode::TaskDeletePrompt => Some(tasks_label_string("Delete ", ids, "?")),
        Mode::TaskUndoPrompt => Some(String::from_str("Run `task undo`?")),
        Mode::Projects | Mode::Calendar => None,
    }
}

fn push_key_name(r: &mut Vec<char>, k: KeyCode, other: &str)
    ensures
        final(r)@ == old(r)@ + key_name(k, other@),
{
    match k {
        KeyCode::Char(c) => {
            r.push(c);
        },
        _ => {
            push_str(r, other);
        },
    }
}

/// The text of the prompt of `mode`, which asks to press the key that
/// confirms it or the quit key; `None` when `mode` is no prompt.
pub fn prompt_text(mode: Mode, kc: &KeyConfig) -> (r: Option<String>)
    ensures
        match confirm_key(mode, *kc) {
            Some(k) => r matches Some(s) && s@ == confirm_text(k, kc.quit),
            None => r is None,
        },
{
    let k = match mode {
        Mode::TaskDonePrompt => kc.done,
        Mode::TaskDeletePrompt => kc.delete,
        Mode::TaskUndoPrompt => kc.undo,
        _ => {
            return None;
        },
    };
    let mut r = chars_of("Press <");
    push_key_name(&mut r, k, "Enter");
    push_str(&mut r, "> to confirm or <");
    push_key_name(&mut r, kc.quit, "Esc");
    push_str(&mut r, "> to abort.");
    Some(string_of(r.as_slice()))
}


/// How a task is named in a label: its id, 0 when it has none.
pub open spec fn id_text(t: TaskRecord) -> Seq<char> {
    decimal_of(
        match t.id {
            Some(i) => i as nat,
            None => 0nat,
        },
    )
}

/// The ids of the marked tasks, in the order they were marked, leaving out
/// those no task has any more.
pub open spec fn marked_ids(tasks: Seq<TaskRecord>, marked: Seq<u128>) -> Seq<Seq<char>>
    decreases marked.len(),
{
    if marked.len() == 0 {
        Seq::empty()
    } else {
        let prev = marked_ids(tasks, marked.drop_last());
        match first_with_uuid(tasks, marked.last()) {
            Some(r) => prev.push(id_text(tasks[r])),
            None => prev,
        }
    }
}

/// The ids that the labels name: `0` when there are no tasks, else the task
/// under the cursor, or the marked tasks when several can be selected.
pub open spec fn shown_ids(tasks: Seq<TaskRecord>, selected: int, mode: TableMode, marked: Seq<u128>) -> Seq<
    Seq<char>,
> {
    if tasks.len() == 0 {
        seq!["0"@]
    } else {
        match mode {
            TableMode::SingleSelection => seq![id_text(tasks[selected])],
            TableMode::MultipleSelection => marked_ids(tasks, marked),
        }
    }
}

fn id_string(t: &TaskRecord) -> (r: String)
    ensures
        r@ == id_text(*t),
{
    let n: u64 = match t.id {
        Some(i) => i,
        None => 0,
    };
    string_of(decimal_chars(n).as_slice())
}

impl TaskwarriorTui {
    /// The ids of the tasks that the command labels and prompts name.
    pub fn shown_task_ids(&self) -> (r: Vec<String>)
        requires
            self.tasks@.len() > 0 ==> self.current_selection < self.tasks@.len(),
        ensures
            r@.map_values(|s: String| s@) == shown_ids(
                self.tasks@,
                self.current_selection as int,
                self.task_table_state.table_mode(),
                self.marked@,
            ),
    {
        let mut r: Vec<String> = Vec::new();
        if self.tasks.len() == 0 {
            r.push(String::from_str("0"));
            assert(r@.map_values(|s: String| s@) =~= seq!["0"@]);
            return r;
        }
        match self.task_table_state.mode() {
            TableMode::SingleSelection => {
                r.push(id_string(&self.tasks[self.current_selection]));
                assert(r@.map_values(|s: String| s@) =~= seq![id_text(self.tasks@[self.current_selection as int])]);
            },
            TableMode::MultipleSelection => {
                let mut i: usize = 0;
                while i < self.marked.len()
                    invariant
                        i <= self.marked@.len(),
                        r@.map_values(|s: String| s@) == marked_ids(self.tasks@, self.marked@.take(i as int)),
                    decreases self.marked.len() - i,
                {
                    let ghost before = r@.map_values(|s: String| s@);
                    assert(self.marked@.take(i + 1).drop_last() =~= self.marked@.take(i as int));
                    assert(self.marked@.take(i + 1).last() == self.marked@[i as int]);
                    match first_index_with_uuid(&self.tasks, self.marked[i]) {
                        Some(k) => {
                            let s = id_string(&self.tasks[k]);
                            r.push(s);
                            assert(r@.map_values(|s: String| s@) =~= before.push(id_text(self.tasks@[k as int])));
                        },
                        None => {},
                    }
                    i += 1;
                }
                assert(self.marked@.take(self.marked@.len() as int) =~= self.marked@);
            },
        }
        r
    }
}


/// The setting that asks for a pair of double quotes on an empty command line
/// in `mode`: `on_add`, `on_annotate` or `on_log`, and none in other modes.
pub open spec fn quotes_wanted(mode: Mode, on_add: bool, on_annotate: bool, on_log: bool) -> bool {
    match mode {
        Mode::TaskAdd => on_add,
        Mode::TaskAnnotate => on_annotate,
        Mode::TaskLog => on_log,
        _ => false,
    }
}

/// The command line as a prompt of `mode` shows it: `""` in place of an
/// empty line where the setting for the mode asks for it, else `current`.
pub fn initial_command(mode: Mode, on_add: bool, on_annotate: bool, on_log: bool, current: &str) -> (r: String)
    ensures
        r@ == if quotes_wanted(mode, on_add, on_annotate, on_log) && current@.len() == 0 {
            seq!['"', '"']
        } else {
            current@
        },
{
    let wanted = match mode {
        Mode::TaskAdd => on_add,
        Mode::TaskAnnotate => on_annotate,
        Mode::TaskLog => on_log,
        _ => false,
    };
    let c = chars_of(current);
    if wanted && c.len() == 0 {
        let mut q: Vec<char> = Vec::new();
        q.push('"');
        q.push('"');
        string_of(q.as_slice())
    } else {
        string_of(c.as_slice())
    }
}

} // verus!

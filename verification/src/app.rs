//! The state of the interface around the task report: the row under the
//! cursor, the marked tasks, and how the keys that move them change them.
use vstd::prelude::*;

use crate::completion::{candidates_view, distinct_items, CompletionList};
use crate::config::Config;
use crate::pane::context::ContextsState;
use crate::table::{TableMode, TaskwarriorTuiTableState};
use crate::task::{first_index_with_uuid, first_with_uuid, TaskRecord};
use crate::task_report::TaskReportTable;

verus! {

/// What the interface is doing.
#[derive(Debug, Clone, Copy, PartialEq, Eq, Structural)]
pub enum Mode {
    TaskReport,
    TaskFilter,
    TaskAdd,
    TaskAnnotate,
    TaskSubprocess,
    TaskLog,
    TaskModify,
    TaskHelpPopup,
    TaskContextMenu,
    TaskJump,
    TaskDeletePrompt,
    TaskUndoPrompt,
    TaskDonePrompt,
    TaskError,
    Projects,
    Calendar,
}

/// A line being typed: its text and the cursor's byte offset in it.
pub struct TextInput {
    pub value: String,
    pub cursor: usize,
}

/// The state of the interface that its keys act on.
pub struct TaskwarriorTui {
    pub task_table_state: TaskwarriorTuiTableState,
    pub command: TextInput,
    pub filter: TextInput,
    pub modify: TextInput,
    pub tasks: Vec<TaskRecord>,
    pub all_tasks: Vec<TaskRecord>,
    /// The UUIDs of the marked tasks, each once.
    pub marked: Vec<u128>,
    pub current_selection: usize,
    pub current_selection_uuid: Option<u128>,
    pub current_selection_id: Option<u64>,
    pub task_report_table: TaskReportTable,
    pub mode: Mode,
    pub config: Config,
    pub task_report_height: u16,
    pub completion_list: CompletionList,
    pub contexts: ContextsState,
    pub projects: crate::pane::project::ProjectsState,
    /// What was typed as a filter.
    pub filter_history: crate::history::HistoryContext,
    /// What was typed as a command.
    pub command_history: crate::history::HistoryContext,
    /// What `task <uuid>` printed for tasks of the report, by task.
    pub task_details: Vec<(u128, String)>,
    /// The offset of the local time zone from UTC, in seconds.
    pub utc_offset: i32,
}

/// The row after `cur` among `len` rows: the first after the last when
/// `looping`, else the last stays.
pub open spec fn next_index(cur: int, len: int, looping: bool) -> int {
    if cur >= len - 1 {
        if looping {
            0
        } else {
            cur
        }
    } else {
        cur + 1
    }
}

/// The row before `cur` among `len` rows: the last before the first when
/// `looping`, else the first stays.
pub open spec fn previous_index(cur: int, len: int, looping: bool) -> int {
    if cur == 0 {
        if looping {
            len - 1
        } else {
            0
        }
    } else {
        cur - 1
    }
}

/// The row a page of `h` rows after `cur`: no further than the last, and
/// from the last to the first when `looping`.
pub open spec fn next_page_index(cur: int, len: int, h: int, looping: bool) -> int {
    if cur == len - 1 {
        if looping {
            0
        } else {
            len - 1
        }
    } else if cur + h < len - 1 {
        cur + h
    } else {
        len - 1
    }
}

/// The row a page of `h` rows before `cur`: no further than the first, and
/// from the first to the last when `looping`.
pub open spec fn previous_page_index(cur: int, len: int, h: int, looping: bool) -> int {
    if cur == 0 {
        if looping {
            len - 1
        } else {
            0
        }
    } else if cur - h > 0 {
        cur - h
    } else {
        0
    }
}

/// The marked UUIDs as a set.
pub open spec fn marked_set(marked: Seq<u128>) -> Set<u128> {
    marked.to_set()
}

/// `s` with `u` taken out if it is in, put in if not.
pub open spec fn toggled(s: Set<u128>, u: u128) -> Set<u128> {
    if s.contains(u) {
        s.remove(u)
    } else {
        s.insert(u)
    }
}

/// `s` with the UUID of each of the first `n` tasks toggled in turn.
pub open spec fn toggled_all(s: Set<u128>, tasks: Seq<TaskRecord>, n: int) -> Set<u128>
    decreases n,
{
    if n <= 0 {
        s
    } else {
        toggled(toggled_all(s, tasks, n - 1), tasks[n - 1].uuid)
    }
}

/// The first task with id `id`.
pub open spec fn first_with_id(tasks: Seq<TaskRecord>, id: u64) -> Option<int> {
    if exists|k: int| 0 <= k < tasks.len() && tasks[k].id == Some(id) {
        Some(
            choose|k: int|
                0 <= k < tasks.len() && tasks[k].id == Some(id) && forall|m: int|
                    0 <= m < k ==> tasks[m].id != Some(id),
        )
    } else {
        None
    }
}

/// The cursor moved to the first task with the remembered id, if the task
/// under it has another id and one has it; the id forgotten once used.
pub open spec fn id_fixed(tasks: Seq<TaskRecord>, cur: int, id: Option<u64>) -> (int, Option<u64>) {
    match id {
        Some(i) => if tasks.len() > 0 && tasks[cur].id != Some(i) && first_with_id(tasks, i) is Some {
            (first_with_id(tasks, i)->0, None)
        } else {
            (cur, id)
        },
        None => (cur, None),
    }
}

/// The cursor moved to the first task with the remembered UUID, if the task
/// under it has another and one has it; the UUID forgotten once used.
pub open spec fn uuid_fixed(tasks: Seq<TaskRecord>, cur: int, u: Option<u128>) -> (int, Option<u128>) {
    match u {
        Some(x) => if tasks.len() > 0 && tasks[cur].uuid != x && first_with_uuid(tasks, x) is Some {
            (first_with_uuid(tasks, x)->0, None)
        } else {
            (cur, u)
        },
        None => (cur, None),
    }
}

/// The row the cursor jumps to for the task in row `k`: the first row with
/// its UUID.
pub open spec fn jump_index(tasks: Seq<TaskRecord>, k: int) -> int {
    match first_with_uuid(tasks, tasks[k].uuid) {
        Some(j) => j,
        None => 0,
    }
}

fn index_by_id(tasks: &Vec<TaskRecord>, id: u64) -> (r: Option<usize>)
    ensures
        match r {
            Some(k) => k < tasks@.len() && first_with_id(tasks@, id) == Some(k as int),
            None => first_with_id(tasks@, id) is None,
        },
{
    let mut k: usize = 0;
    while k < tasks.len()
        invariant
            k <= tasks@.len(),
            forall|m: int| 0 <= m < k ==> tasks@[m].id != Some(id),
        decreases tasks.len() - k,
    {
        if tasks[k].id == Some(id) {
            proof {
                let c = choose|c: int|
                    0 <= c < tasks@.len() && tasks@[c].id == Some(id) && forall|m: int|
                        0 <= m < c ==> tasks@[m].id != Some(id);
                if c < k {
                } else if c > k {
                    assert(tasks@[k as int].id == Some(id));
                }
            }
            return Some(k);
        }
        k += 1;
    }
    None
}

fn marked_position(marked: &Vec<u128>, u: u128) -> (r: Option<usize>)
    ensures
        match r {
            Some(k) => k < marked@.len() && marked@[k as int] == u,
            None => !marked@.contains(u),
        },
{
    let mut k: usize = 0;
    while k < marked.len()
        invariant
            k <= marked@.len(),
            forall|m: int| 0 <= m < k ==> marked@[m] != u,
        decreases marked.len() - k,
    {
        if marked[k] == u {
            return Some(k);
        }
        k += 1;
    }
    None
}

/// Take `u` out of the set of `marked` if it is in, put it in if not.
fn toggle_uuid(marked: &mut Vec<u128>, u: u128)
    requires
        old(marked)@.no_duplicates(),
    ensures
        final(marked)@.no_duplicates(),
        marked_set(final(marked)@) == toggled(marked_set(old(marked)@), u),
{
    match marked_position(marked, u) {
        Some(k) => {
            let ghost before = marked@;
            marked.remove(k);
            proof {
                assert(marked@ =~= before.remove(k as int));
                assert forall|a: int, b: int| 0 <= a < marked@.len() && 0 <= b < marked@.len() && a != b implies marked@[a]
                    != marked@[b] by {
                    let a2 = if a < k { a } else { a + 1 };
                    let b2 = if b < k { b } else { b + 1 };
                    assert(marked@[a] == before[a2]);
                    assert(marked@[b] == before[b2]);
                }
                assert(marked_set(marked@) =~= marked_set(before).remove(u)) by {
                    assert forall|x: u128| marked_set(marked@).contains(x) <==> marked_set(before).remove(u).contains(x) by {
                        if marked_set(before).contains(x) && x != u {
                            let i = choose|i: int| 0 <= i < before.len() && before[i] == x;
                            if i < k {
                                assert(marked@[i] == x);
                            } else {
                                assert(marked@[i - 1] == x);
                            }
                        }
                        if marked_set(marked@).contains(x) {
                            let i = choose|i: int| 0 <= i < marked@.len() && marked@[i] == x;
                            if i < k {
                                assert(before[i] == x);
                            } else {
                                assert(before[i + 1] == x);
                            }
                            if x == u {
                                assert(before[k as int] == u);
                            }
                        }
                    }
                }
            }
        },
        None => {
            let ghost before = marked@;
            marked.push(u);
            proof {
                assert(marked_set(marked@) =~= marked_set(before).insert(u)) by {
                    assert forall|x: u128| marked_set(marked@).contains(x) <==> marked_set(before).insert(u).contains(x) by {
                        if marked_set(before).contains(x) {
                            let i = choose|i: int| 0 <= i < before.len() && before[i] == x;
                            assert(marked@[i] == x);
                        }
                        if marked_set(marked@).contains(x) {
                            let i = choose|i: int| 0 <= i < marked@.len() && marked@[i] == x;
                            if i < before.len() {
                                assert(before[i] == x);
                            }
                        }
                        if x == u {
                            assert(marked@[before.len() as int] == u);
                        }
                    }
                }
                assert forall|a: int, b: int| 0 <= a < marked@.len() && 0 <= b < marked@.len() && a != b implies marked@[a]
                    != marked@[b] by {
                    if a < before.len() && b < before.len() {
                    } else if a < before.len() {
                        assert(before.contains(before[a]));
                    } else {
                        assert(before.contains(before[b]));
                    }
                }
            }
        },
    }
}

impl TaskwarriorTui {
    /// The task under the cursor, if there are tasks.
    pub fn task_current(&self) -> (r: Option<&TaskRecord>)
        requires
            self.tasks@.len() > 0 ==> self.current_selection < self.tasks@.len(),
        ensures
            r is Some <==> self.tasks@.len() > 0,
            r matches Some(t) ==> *t == self.tasks@[self.current_selection as int],
    {
        if self.tasks.len() == 0 {
            return None;
        }
        Some(&self.tasks[self.current_selection])
    }

    /// Move the cursor to the first task.
    pub fn task_report_top(&mut self)
        ensures
            old(self).tasks@.len() == 0 ==> *final(self) == *old(self),
            old(self).tasks@.len() > 0 ==> *final(self) == (TaskwarriorTui {
                current_selection: 0,
                current_selection_id: None,
                current_selection_uuid: None,
                ..*old(self)
            }),
    {
        if self.tasks.len() == 0 {
            return;
        }
        self.current_selection = 0;
        self.current_selection_id = None;
        self.current_selection_uuid = None;
    }

    /// Move the cursor to the last task.
    pub fn task_report_bottom(&mut self)
        ensures
            old(self).tasks@.len() == 0 ==> *final(self) == *old(self),
            old(self).tasks@.len() > 0 ==> *final(self) == (TaskwarriorTui {
                current_selection: (old(self).tasks@.len() - 1) as usize,
                current_selection_id: None,
                current_selection_uuid: None,
                ..*old(self)
            }),
    {
        if self.tasks.len() == 0 {
            return;
        }
        self.current_selection = self.tasks.len() - 1;
        self.current_selection_id = None;
        self.current_selection_uuid = None;
    }

    /// Move the cursor to the next task.
    pub fn task_report_next(&mut self)
        ensures
            old(self).tasks@.len() == 0 ==> *final(self) == *old(self),
            old(self).tasks@.len() > 0 ==> *final(self) == (TaskwarriorTui {
                current_selection: next_index(
                    old(self).current_selection as int,
                    old(self).tasks@.len() as int,
                    old(self).config.uda_task_report_looping,
                ) as usize,
                current_selection_id: None,
                current_selection_uuid: None,
                ..*old(self)
            }),
    {
        if self.tasks.len() == 0 {
            return;
        }
        let i = if self.current_selection >= self.tasks.len() - 1 {
            if self.config.uda_task_report_looping {
                0
            } else {
                self.current_selection
            }
        } else {
            self.current_selection + 1
        };
        self.current_selection = i;
        self.current_selection_id = None;
        self.current_selection_uuid = None;
    }

    /// Move the cursor to the previous task.
    pub fn task_report_previous(&mut self)
        ensures
            old(self).tasks@.len() == 0 ==> *final(self) == *old(self),
            old(self).tasks@.len() > 0 ==> *final(self) == (TaskwarriorTui {
                current_selection: previous_index(
                    old(self).current_selection as int,
                    old(self).tasks@.len() as int,
                    old(self).config.uda_task_report_looping,
                ) as usize,
                current_selection_id: None,
                current_selection_uuid: None,
                ..*old(self)
            }),
    {
        if self.tasks.len() == 0 {
            return;
        }
        let i = if self.current_selection == 0 {
            if self.config.uda_task_report_looping {
                self.tasks.len() - 1
            } else {
                0
            }
        } else {
            self.current_selection - 1
        };
        self.current_selection = i;
        self.current_selection_id = None;
        self.current_selection_uuid = None;
    }

    /// Move the cursor a page of rows down.
    pub fn task_report_next_page(&mut self)
        ensures
            old(self).tasks@.len() == 0 ==> *final(self) == *old(self),
            old(self).tasks@.len() > 0 ==> *final(self) == (TaskwarriorTui {
                current_selection: next_page_index(
                    old(self).current_selection as int,
                    old(self).tasks@.len() as int,
                    old(self).task_report_height as int,
                    old(self).config.uda_task_report_looping,
                ) as usize,
                current_selection_id: None,
                current_selection_uuid: None,
                ..*old(self)
            }),
    {
        if self.tasks.len() == 0 {
            return;
        }
        let last = self.tasks.len() - 1;
        let i = if self.current_selection == last {
            if self.config.uda_task_report_looping {
                0
            } else {
                last
            }
        } else {
            match self.current_selection.checked_add(self.task_report_height as usize) {
                Some(j) => if j < last {
                    j
                } else {
                    last
                },
                None => last,
            }
        };
        self.current_selection = i;
        self.current_selection_id = None;
        self.current_selection_uuid = None;
    }

    /// Move the cursor a page of rows up.
    pub fn task_report_previous_page(&mut self)
        ensures
            old(self).tasks@.len() == 0 ==> *final(self) == *old(self),
            old(self).tasks@.len() > 0 ==> *final(self) == (TaskwarriorTui {
                current_selection: previous_page_index(
                    old(self).current_selection as int,
                    old(self).tasks@.len() as int,
                    old(self).task_report_height as int,
                    old(self).config.uda_task_report_looping,
                ) as usize,
                current_selection_id: None,
                current_selection_uuid: None,
                ..*old(self)
            }),
    {
        if self.tasks.len() == 0 {
            return;
        }
        let i = if self.current_selection == 0 {
            if self.config.uda_task_report_looping {
                self.tasks.len() - 1
            } else {
                0
            }
        } else {
            self.current_selection.saturating_sub(self.task_report_height as usize)
        };
        self.current_selection = i;
        self.current_selection_id = None;
        self.current_selection_uuid = None;
    }

    /// Bring a cursor past the last task back to the last task.
    pub fn cursor_fix(&mut self)
        ensures
            old(self).tasks@.len() > 0 && old(self).current_selection >= old(self).tasks@.len() ==> *final(self) == (
            TaskwarriorTui {
                current_selection: (old(self).tasks@.len() - 1) as usize,
                current_selection_id: None,
                current_selection_uuid: None,
                ..*old(self)
            }),
            !(old(self).tasks@.len() > 0 && old(self).current_selection >= old(self).tasks@.len()) ==> *final(self)
                == *old(self),
    {
        let ghost start = *self;
        while self.tasks.len() > 0 && self.current_selection >= self.tasks.len()
            invariant
                self.tasks@ == start.tasks@,
                *self == start || (start.tasks@.len() > 0 && start.current_selection >= start.tasks@.len()
                    && self.current_selection >= self.tasks@.len() - 1 && *self == (TaskwarriorTui {
                    current_selection: self.current_selection,
                    current_selection_id: None,
                    current_selection_uuid: None,
                    ..start
                })),
            decreases self.current_selection,
        {
            self.task_report_previous();
        }
    }

    /// Move the cursor back to the task it was on (by id, then by UUID)
    /// when the list of tasks has changed under it.
    pub fn selection_fix(&mut self)
        requires
            old(self).tasks@.len() > 0 ==> old(self).current_selection < old(self).tasks@.len(),
        ensures
            final(self).tasks@.len() > 0 ==> final(self).current_selection < final(self).tasks@.len(),
            *final(self) == (TaskwarriorTui {
                current_selection: final(self).current_selection,
                current_selection_id: final(self).current_selection_id,
                current_selection_uuid: final(self).current_selection_uuid,
                ..*old(self)
            }),
            ({
                let m = id_fixed(old(self).tasks@, old(self).current_selection as int, old(self).current_selection_id);
                let f = uuid_fixed(old(self).tasks@, m.0, old(self).current_selection_uuid);
                &&& final(self).current_selection == f.0
                &&& final(self).current_selection_id == m.1
                &&& final(self).current_selection_uuid == f.1
            }),
    {
        if self.tasks.len() > 0 {
            if let Some(id) = self.current_selection_id {
                if self.tasks[self.current_selection].id != Some(id) {
                    if let Some(i) = index_by_id(&self.tasks, id) {
                        self.current_selection = i;
                        self.current_selection_id = None;
                    }
                }
            }
        }
        if self.tasks.len() > 0 {
            if let Some(u) = self.current_selection_uuid {
                if self.tasks[self.current_selection].uuid != u {
                    if let Some(i) = first_index_with_uuid(&self.tasks, u) {
                        self.current_selection = i;
                        self.current_selection_uuid = None;
                    }
                }
            }
        }
    }

    /// Mark the task under the cursor, or unmark it if it is marked.
    pub fn toggle_mark(&mut self)
        requires
            old(self).marked@.no_duplicates(),
            old(self).tasks@.len() > 0 ==> old(self).current_selection < old(self).tasks@.len(),
        ensures
            final(self).marked@.no_duplicates(),
            marked_set(final(self).marked@) == if old(self).tasks@.len() > 0 {
                toggled(
                    marked_set(old(self).marked@),
                    old(self).tasks@[old(self).current_selection as int].uuid,
                )
            } else {
                marked_set(old(self).marked@)
            },
            *final(self) == (TaskwarriorTui { marked: final(self).marked, ..*old(self) }),
    {
        if self.tasks.len() > 0 {
            let u = self.tasks[self.current_selection].uuid;
            toggle_uuid(&mut self.marked, u);
        }
    }

    /// Toggle the mark of every task, in turn.
    pub fn toggle_mark_all(&mut self)
        requires
            old(self).marked@.no_duplicates(),
        ensures
            final(self).marked@.no_duplicates(),
            marked_set(final(self).marked@) == toggled_all(
                marked_set(old(self).marked@),
                old(self).tasks@,
                old(self).tasks@.len() as int,
            ),
            *final(self) == (TaskwarriorTui { marked: final(self).marked, ..*old(self) }),
    {
        let ghost start = marked_set(self.marked@);
        let ghost before = *self;
        let mut i: usize = 0;
        while i < self.tasks.len()
            invariant
                *self == (TaskwarriorTui { marked: self.marked, ..before }),
                i <= self.tasks@.len(),
                self.marked@.no_duplicates(),
                marked_set(self.marked@) == toggled_all(start, self.tasks@, i as int),
            decreases self.tasks.len() - i,
        {
            let u = self.tasks[i].uuid;
            toggle_uuid(&mut self.marked, u);
            i += 1;
        }
    }
}

/// The marks of tasks that are still in the list.
pub open spec fn kept_marks(m: Set<u128>, tasks: Seq<TaskRecord>) -> Set<u128> {
    m.filter(|u: u128| first_with_uuid(tasks, u) is Some)
}

/// The rows of the tasks whose UUIDs are marked.
pub open spec fn rows_of_marks(m: Set<u128>, tasks: Seq<TaskRecord>) -> Set<usize> {
    Set::new(|i: usize| exists|u: u128| m.contains(u) && first_with_uuid(tasks, u) == Some(i as int))
}

/// The UUIDs of the tasks in the rows `rows`.
pub open spec fn uuids_of_rows(rows: Set<usize>, tasks: Seq<TaskRecord>) -> Set<u128> {
    rows.map(|i: usize| tasks[i as int].uuid)
}

/// The context after `i` among `len`, the first after the last.
pub open spec fn next_context(i: Option<usize>, len: int) -> int {
    match i {
        Some(k) => if k >= len - 1 {
            0
        } else {
            k + 1
        },
        None => 0,
    }
}

/// The context before `i` among `len`, the last before the first.
pub open spec fn previous_context(i: Option<usize>, len: int) -> int {
    match i {
        Some(k) => if k == 0 {
            len - 1
        } else {
            k - 1
        },
        None => 0,
    }
}

/// The longest run of decimal digits at the front of `s`.
pub open spec fn digit_run(s: Seq<char>) -> int
    decreases s.len(),
{
    if s.len() > 0 && crate::text::is_digit(s[0]) {
        1 + digit_run(s.drop_first())
    } else {
        0
    }
}

/// Why `str::parse` refuses `s` as an unsigned number no larger than `max`:
/// nothing written, a number too large (found before any character that is
/// no digit), or such a character.
pub open spec fn parse_error_message(s: Seq<char>, max: nat) -> Seq<char> {
    let d = crate::text::unsigned_digits(s);
    if s.len() == 0 {
        "cannot parse integer from empty string"@
    } else if d.len() > 0 && crate::text::decimal_value(d.take(digit_run(d))) > max {
        "number too large to fit in target type"@
    } else {
        "invalid digit found in string"@
    }
}

fn parse_error_text(s: &[char], max: u64) -> (r: String)
    ensures
        r@ == parse_error_message(s@, max as nat),
{
    let start: usize = if s.len() > 0 && s[0] == '+' { 1 } else { 0 };
    let ghost d = crate::text::unsigned_digits(s@);
    assert(d =~= s@.subrange(start as int, s@.len() as int));
    if s.len() == 0 {
        return crate::text::string_of(crate::text::chars_of("cannot parse integer from empty string").as_slice());
    }
    let mut value: u128 = 0;
    let mut i = start;
    let mut over = false;
    assert(d.skip(0) =~= d);
    assert(d.take(0) =~= Seq::<char>::empty());
    while i < s.len() && '0' <= s[i] && s[i] <= '9'
        invariant
            start <= i <= s@.len(),
            d =~= s@.subrange(start as int, s@.len() as int),
            digit_run(d) == (i - start) + digit_run(d.skip(i - start)),
            !over ==> value as nat == crate::text::decimal_value(d.take(i - start)) && value <= max,
            over ==> crate::text::decimal_value(d.take(i - start)) > max,
            max <= u64::MAX,
        decreases s.len() - i,
    {
        let ghost k = i - start;
        assert(d.skip(k)[0] == s@[i as int]);
        assert(d.skip(k).drop_first() =~= d.skip(k + 1));
        assert(d.take(k + 1).drop_last() =~= d.take(k));
        assert(d.take(k + 1).last() == s@[i as int]);
        if !over {
            let dv = (s[i] as u128) - ('0' as u128);
            value = value * 10 + dv;
            if value > max as u128 {
                over = true;
            }
        }
        i += 1;
    }
    let ghost k = i - start;
    assert(digit_run(d.skip(k)) == 0) by {
        if d.skip(k).len() > 0 {
            assert(d.skip(k)[0] == s@[i as int]);
        }
    }
    if over && i > start {
        crate::text::string_of(crate::text::chars_of("number too large to fit in target type").as_slice())
    } else {
        crate::text::string_of(crate::text::chars_of("invalid digit found in string").as_slice())
    }
}

fn retain_listed(marked: &Vec<u128>, tasks: &Vec<TaskRecord>) -> (r: Vec<u128>)
    requires
        marked@.no_duplicates(),
    ensures
        r@.no_duplicates(),
        marked_set(r@) == kept_marks(marked_set(marked@), tasks@),
{
    let mut kept: Vec<u128> = Vec::new();
    let mut k: usize = 0;
    while k < marked.len()
        invariant
            k <= marked@.len(),
            marked@.no_duplicates(),
            kept@.no_duplicates(),
            forall|x: u128| kept@.contains(x) <==> (marked@.take(k as int).contains(x) && first_with_uuid(tasks@, x) is Some),
        decreases marked.len() - k,
    {
        let u = marked[k];
        let ghost pre = marked@.take(k as int);
        let ghost t1 = marked@.take(k + 1);
        assert(t1 =~= pre.push(u));
        assert forall|x: u128| t1.contains(x) <==> (pre.contains(x) || x == u) by {
            if t1.contains(x) {
                let j = choose|j: int| 0 <= j < t1.len() && t1[j] == x;
                if j < pre.len() {
                    assert(pre[j] == x);
                }
            }
            if pre.contains(x) {
                let j = choose|j: int| 0 <= j < pre.len() && pre[j] == x;
                assert(t1[j] == x);
            }
            if x == u {
                assert(t1[k as int] == u);
            }
        }
        assert(!pre.contains(u)) by {
            if pre.contains(u) {
                let j = choose|j: int| 0 <= j < pre.len() && pre[j] == u;
                assert(marked@[j] == marked@[k as int]);
            }
        }
        let ghost old_kept = kept@;
        if first_index_with_uuid(tasks, u).is_some() {
            kept.push(u);
            proof {
                assert(!old_kept.contains(u));
                assert forall|x: u128| kept@.contains(x) <==> (old_kept.contains(x) || x == u) by {
                    if kept@.contains(x) {
                        let j = choose|j: int| 0 <= j < kept@.len() && kept@[j] == x;
                        if j < old_kept.len() {
                            assert(old_kept[j] == x);
                        }
                    }
                    if old_kept.contains(x) {
                        let j = choose|j: int| 0 <= j < old_kept.len() && old_kept[j] == x;
                        assert(kept@[j] == x);
                    }
                    if x == u {
                        assert(kept@[old_kept.len() as int] == u);
                    }
                }
                assert forall|a: int, b: int| 0 <= a < kept@.len() && 0 <= b < kept@.len() && a != b implies kept@[a]
                    != kept@[b] by {
                    if a == old_kept.len() {
                        assert(old_kept.contains(kept@[b]));
                    } else if b == old_kept.len() {
                        assert(old_kept.contains(kept@[a]));
                    }
                }
            }
        }
        assert forall|x: u128| kept@.contains(x) <==> (t1.contains(x) && first_with_uuid(tasks@, x) is Some) by {
            if x == u {
                if !(first_with_uuid(tasks@, u) is Some) {
                    assert(!old_kept.contains(u));
                }
            } else {
                assert(old_kept.contains(x) <==> (pre.contains(x) && first_with_uuid(tasks@, x) is Some));
            }
        }
        k += 1;
    }
    assert(marked@.take(marked@.len() as int) =~= marked@);
    assert(marked_set(kept@) =~= kept_marks(marked_set(marked@), tasks@));
    kept
}

impl TaskwarriorTui {
    /// Forget the marks of tasks no longer listed; select the row under the
    /// cursor; mark the rows of the marked tasks; and, with no task marked,
    /// act on the row under the cursor.
    pub fn update_task_table_state(&mut self)
        requires
            old(self).marked@.no_duplicates(),
            old(self).task_table_state.wf(),
        ensures
            final(self).marked@.no_duplicates(),
            marked_set(final(self).marked@) == kept_marks(marked_set(old(self).marked@), old(self).tasks@),
            final(self).task_table_state.wf(),
            final(self).task_table_state.selection() == Some(old(self).current_selection),
            final(self).task_table_state.marked_rows() == rows_of_marks(
                marked_set(final(self).marked@),
                old(self).tasks@,
            ),
            final(self).task_table_state.table_mode() == if final(self).marked@.len() == 0 {
                TableMode::SingleSelection
            } else {
                old(self).task_table_state.table_mode()
            },
            *final(self) == (TaskwarriorTui {
                marked: final(self).marked,
                task_table_state: final(self).task_table_state,
                ..*old(self)
            }),
    {
        let ghost before = *self;
        self.task_table_state.select(Some(self.current_selection));
        let kept = retain_listed(&self.marked, &self.tasks);
        self.marked = kept;
        if self.marked.len() == 0 {
            self.task_table_state.single_selection();
        }
        self.task_table_state.clear();
        let mut j: usize = 0;
        while j < self.marked.len()
            invariant
                *self == (TaskwarriorTui { marked: self.marked, task_table_state: self.task_table_state, ..before }),
                self.tasks@ == before.tasks@,
                j <= self.marked@.len(),
                self.marked@.no_duplicates(),
                marked_set(self.marked@) == kept_marks(marked_set(before.marked@), before.tasks@),
                self.task_table_state.wf(),
                self.task_table_state.selection() == Some(before.current_selection),
                self.task_table_state.table_mode() == if self.marked@.len() == 0 {
                    TableMode::SingleSelection
                } else {
                    before.task_table_state.table_mode()
                },
                self.task_table_state.marked_rows() == rows_of_marks(marked_set(self.marked@.take(j as int)), self.tasks@),
            decreases self.marked.len() - j,
        {
            let u = self.marked[j];
            let pos = first_index_with_uuid(&self.tasks, u);
            let ghost old_rows = self.task_table_state.marked_rows();
            assert(kept_marks(marked_set(before.marked@), before.tasks@).contains(u)) by {
                assert(marked_set(self.marked@).contains(u));
            }
            self.task_table_state.mark(pos);
            proof {
                let pre = self.marked@.take(j as int);
                let t2 = self.marked@.take(j + 1);
                assert(t2 =~= pre.push(u));
                assert(self.task_table_state.marked_rows() =~= rows_of_marks(
                    marked_set(t2),
                    self.tasks@,
                )) by {
                    assert forall|i: usize| self.task_table_state.marked_rows().contains(i) <==> rows_of_marks(
                        marked_set(t2),
                        self.tasks@,
                    ).contains(i) by {
                        if old_rows.contains(i) {
                            let w = choose|w: u128| marked_set(pre).contains(w) && first_with_uuid(self.tasks@, w) == Some(i as int);
                            let q = choose|q: int| 0 <= q < pre.len() && pre[q] == w;
                            assert(t2[q] == w);
                        }
                        if rows_of_marks(marked_set(t2), self.tasks@).contains(i) {
                            let w = choose|w: u128| marked_set(t2).contains(w) && first_with_uuid(self.tasks@, w) == Some(i as int);
                            let q = choose|q: int| 0 <= q < t2.len() && t2[q] == w;
                            if q < j {
                                assert(pre[q] == w);
                                assert(marked_set(pre).contains(w));
                            }
                        }
                        if pos == Some(i) {
                            assert(marked_set(t2).contains(u)) by {
                                assert(t2[j as int] == u);
                            }
                        }
                    }
                }
            }
            j += 1;
        }
        assert(self.marked@.take(self.marked@.len() as int) =~= self.marked@);
    }

    /// The UUIDs of the tasks a command acts on: the task under the cursor,
    /// or, in multiple selection, the tasks of the marked rows.
    pub fn selected_task_uuids(&self) -> (r: Vec<u128>)
        requires
            self.task_table_state.wf(),
            self.tasks@.len() > 0 && self.task_table_state.table_mode() == TableMode::SingleSelection
                ==> self.current_selection < self.tasks@.len(),
            self.tasks@.len() > 0 && self.task_table_state.table_mode() == TableMode::MultipleSelection
                ==> forall|i: usize| self.task_table_state.marked_rows().contains(i) ==> i < self.tasks@.len(),
        ensures
            self.tasks@.len() == 0 ==> r@.len() == 0,
            self.tasks@.len() > 0 && self.task_table_state.table_mode() == TableMode::SingleSelection ==> r@ == seq![
                self.tasks@[self.current_selection as int].uuid,
            ],
            self.tasks@.len() > 0 && self.task_table_state.table_mode() == TableMode::MultipleSelection ==> {
                &&& r@.len() == self.task_table_state.marked_rows().len()
                &&& r@.to_set() == uuids_of_rows(self.task_table_state.marked_rows(), self.tasks@)
            },
    {
        let mut out: Vec<u128> = Vec::new();
        if self.tasks.len() == 0 {
            return out;
        }
        match self.task_table_state.mode() {
            TableMode::SingleSelection => {
                out.push(self.tasks[self.current_selection].uuid);
            },
            TableMode::MultipleSelection => {
                let rows = self.task_table_state.marked();
                let mut k: usize = 0;
                while k < rows.len()
                    invariant
                        k <= rows@.len(),
                        rows@.to_set() == self.task_table_state.marked_rows(),
                        forall|i: usize| self.task_table_state.marked_rows().contains(i) ==> i < self.tasks@.len(),
                        out@.len() == k,
                        forall|q: int| 0 <= q < k ==> #[trigger] out@[q] == self.tasks@[rows@[q] as int].uuid,
                    decreases rows.len() - k,
                {
                    assert(rows@.to_set().contains(rows@[k as int]));
                    out.push(self.tasks[rows[k]].uuid);
                    k += 1;
                }
                proof {
                    rows@.unique_seq_to_set();
                    assert(out@.to_set() =~= uuids_of_rows(self.task_table_state.marked_rows(), self.tasks@)) by {
                        assert forall|x: u128| out@.to_set().contains(x) <==> uuids_of_rows(
                            self.task_table_state.marked_rows(),
                            self.tasks@,
                        ).contains(x) by {
                            if out@.to_set().contains(x) {
                                let q = choose|q: int| 0 <= q < out@.len() && out@[q] == x;
                                assert(rows@.to_set().contains(rows@[q]));
                            }
                            if uuids_of_rows(self.task_table_state.marked_rows(), self.tasks@).contains(x) {
                                let i = choose|i: usize| self.task_table_state.marked_rows().contains(i) && self.tasks@[i as int].uuid == x;
                                let q = choose|q: int| 0 <= q < rows@.len() && rows@[q] == i;
                                assert(out@[q] == x);
                            }
                        }
                    }
                }
            },
        }
        out
    }

    /// Move the context menu's cursor to the next context.
    pub fn context_next(&mut self)
        requires
            old(self).contexts.table_state.wf(),
            old(self).contexts.table_state.selection() is Some ==> old(self).contexts.rows@.len() > 0,
        ensures
            final(self).contexts.table_state.wf(),
            final(self).contexts.table_state.selection() == Some(
                next_context(old(self).contexts.table_state.selection(), old(self).contexts.rows@.len() as int) as usize,
            ),
            final(self).contexts.rows@ == old(self).contexts.rows@,
            final(self).contexts.table_state.marked_rows() == old(self).contexts.table_state.marked_rows(),
            final(self).contexts.table_state.table_mode() == old(self).contexts.table_state.table_mode(),
            final(self).tasks@ == old(self).tasks@,
    {
        let i = match self.contexts.table_state.current_selection() {
            Some(i) => if i >= self.contexts.len() - 1 {
                0
            } else {
                i + 1
            },
            None => 0,
        };
        self.contexts.table_state.select(Some(i));
    }

    /// Move the context menu's cursor to the previous context.
    pub fn context_previous(&mut self)
        requires
            old(self).contexts.table_state.wf(),
            old(self).contexts.table_state.selection() is Some ==> old(self).contexts.rows@.len() > 0,
        ensures
            final(self).contexts.table_state.wf(),
            final(self).contexts.table_state.selection() == Some(
                previous_context(old(self).contexts.table_state.selection(), old(self).contexts.rows@.len() as int) as usize,
            ),
            final(self).contexts.rows@ == old(self).contexts.rows@,
            final(self).contexts.table_state.marked_rows() == old(self).contexts.table_state.marked_rows(),
            final(self).contexts.table_state.table_mode() == old(self).contexts.table_state.table_mode(),
            final(self).tasks@ == old(self).tasks@,
    {
        let i = match self.contexts.table_state.current_selection() {
            Some(i) => if i == 0 {
                self.contexts.len() - 1
            } else {
                i - 1
            },
            None => 0,
        };
        self.contexts.table_state.select(Some(i));
    }

    /// Move the cursor to the task whose id is typed on the command line.
    pub fn task_report_jump(&mut self) -> (r: Result<(), String>)
        ensures
            old(self).tasks@.len() == 0 ==> r is Ok && *final(self) == *old(self),
            old(self).tasks@.len() > 0 ==> match crate::text::parse_unsigned(old(self).command.value@, usize::MAX as nat) {
                None => r matches Err(m) && m@ == parse_error_message(old(self).command.value@, usize::MAX as nat)
                    && *final(self) == *old(self),
                Some(n) => if n <= u64::MAX && first_with_id(old(self).tasks@, n as u64) is Some {
                    r is Ok && *final(self) == (TaskwarriorTui {
                        current_selection: jump_index(old(self).tasks@, first_with_id(old(self).tasks@, n as u64)->0)
                            as usize,
                        current_selection_id: None,
                        current_selection_uuid: None,
                        ..*old(self)
                    })
                } else {
                    r matches Err(m) && m@ == "Cannot locate task id "@ + crate::text::decimal_of(n) + " in report"@
                        && *final(self) == *old(self)
                },
            },
    {
        if self.tasks.len() == 0 {
            return Ok(());
        }
        let text = crate::text::chars_of(self.command.value.as_str());
        let n = match crate::text::parse_unsigned_chars(text.as_slice(), usize::MAX as u64) {
            Some(n) => n,
            None => {
                return Err(parse_error_text(text.as_slice(), usize::MAX as u64));
            },
        };
        match index_by_id(&self.tasks, n) {
            Some(k) => {
                let u = self.tasks[k].uuid;
                let j = match first_index_with_uuid(&self.tasks, u) {
                    Some(j) => j,
                    None => 0,
                };
                self.current_selection = j;
                self.current_selection_id = None;
                self.current_selection_uuid = None;
                Ok(())
            },
            None => {
                let mut m = crate::text::chars_of("Cannot locate task id ");
                crate::text::push_all(&mut m, crate::text::decimal_chars(n).as_slice());
                crate::text::push_str(&mut m, " in report");
                Err(crate::text::string_of(m.as_slice()))
            },
        }
    }
}

/// The characters of `s`, each double quote preceded by a backslash.
pub open spec fn escaped_body(s: Seq<char>) -> Seq<char>
    decreases s.len(),
{
    if s.len() == 0 {
        Seq::empty()
    } else {
        (if s[0] == '"' {
            seq!['\\', '"']
        } else {
            seq![s[0]]
        }) + escaped_body(s.drop_first())
    }
}

/// `s` in double quotes, each double quote in it escaped by a backslash.
pub open spec fn escaped(s: Seq<char>) -> Seq<char> {
    seq!['"'] + escaped_body(s) + seq!['"']
}

impl TaskwarriorTui {
    /// `s` in double quotes, each double quote in it escaped by a backslash.
    pub fn escape(s: &str) -> (r: String)
        ensures
            r@ == escaped(s@),
    {
        let c = crate::text::chars_of(s);
        let mut body: Vec<char> = Vec::new();
        let mut i = c.len();
        assert(c@.skip(c@.len() as int) =~= Seq::<char>::empty());
        while i > 0
            invariant
                i <= c@.len(),
                body@ == escaped_body(c@.skip(i as int)),
            decreases i,
        {
            i -= 1;
            assert(c@.skip(i as int).drop_first() =~= c@.skip(i + 1));
            assert(c@.skip(i as int)[0] == c@[i as int]);
            let mut piece: Vec<char> = Vec::new();
            if c[i] == '"' {
                piece.push('\\');
            }
            piece.push(c[i]);
            let ghost old_body = body@;
            let mut next = piece;
            crate::text::push_all(&mut next, body.as_slice());
            body = next;
        }
        assert(c@.skip(0) =~= c@);
        let mut out: Vec<char> = Vec::new();
        out.push('"');
        crate::text::push_all(&mut out, body.as_slice());
        out.push('"');
        crate::text::string_of(out.as_slice())
    }
}

/// The sign, hours and minutes that a time zone offset of `off` seconds is
/// written with: hours only above one hour, minutes only above one minute.
pub open spec fn offset_parts(off: int) -> (Seq<char>, int, int) {
    let a = if off >= 0 {
        off
    } else {
        -off
    };
    let rem = a - (a / 3600) * 3600;
    (
        if off >= 0 {
            "+"@
        } else {
            "-"@
        },
        if a > 3600 {
            a / 3600
        } else {
            0
        },
        if rem > 60 {
            rem / 60
        } else {
            0
        },
    )
}

/// The sign, hours and minutes of a time zone offset of `off` seconds.
pub fn get_offset_hour_minute(off: i32) -> (r: (&'static str, i32, i32))
    requires
        off > i32::MIN,
    ensures
        r.0@ == offset_parts(off as int).0,
        r.1 == offset_parts(off as int).1,
        r.2 == offset_parts(off as int).2,
{
    proof {
        reveal_strlit("+");
        reveal_strlit("-");
    }
    let sym = if off >= 0 {
        "+"
    } else {
        "-"
    };
    let a = if off >= 0 {
        off
    } else {
        -off
    };
    let h = if a > 60 * 60 {
        a / 60 / 60
    } else {
        0
    };
    let rem = a - ((a / 60 / 60) * 60 * 60);
    let m = if rem > 60 {
        rem / 60
    } else {
        0
    };
    (sym, h, m)
}

/// `n` in decimal, with zeros in front up to `w` digits.
#[verifier::opaque]
pub open spec fn padded(n: nat, w: nat) -> Seq<char> {
    let d = crate::text::decimal_of(n);
    if d.len() < w {
        Seq::new((w - d.len()) as nat, |i: int| '0') + d
    } else {
        d
    }
}

/// A year written with at least four characters, its sign among them.
pub open spec fn year_text(y: int) -> Seq<char> {
    if y < 0 {
        seq!['-'] + padded((-y) as nat, 3)
    } else {
        padded(y as nat, 4)
    }
}

/// A UTC time in a time zone `off` seconds from UTC, written in quotes as
/// `'YYYY-MM-DDTHH:MM:SS+HH:MM'`, if the calendar holds it.
pub open spec fn formatted_datetime(seconds: int, off: int) -> Option<Seq<char>> {
    match crate::task::civil_datetime(seconds + off) {
        Some((y, mo, d, h, mi, sec)) => {
            let (sym, oh, om) = offset_parts(off);
            Some(
                seq!['\''] + year_text(y) + seq!['-'] + padded(mo as nat, 2) + seq!['-'] + padded(d as nat, 2) + seq![
                    'T',
                ] + padded(h as nat, 2) + seq![':'] + padded(mi as nat, 2) + seq![':'] + padded(sec as nat, 2) + sym
                    + padded(oh as nat, 2) + seq![':'] + padded(om as nat, 2) + seq!['\''],
            )
        },
        None => None,
    }
}

fn push_padded(out: &mut Vec<char>, n: u64, w: usize)
    ensures
        final(out)@ == old(out)@ + padded(n as nat, w as nat),
{
    reveal(padded);
    let d = crate::text::decimal_chars(n);
    if d.len() < w {
        let k = w - d.len();
        let mut i: usize = 0;
        let ghost start = out@;
        while i < k
            invariant
                i <= k,
                out@ == start + Seq::new(i as nat, |j: int| '0'),
            decreases k - i,
        {
            out.push('0');
            i += 1;
            assert(out@ =~= start + Seq::new(i as nat, |j: int| '0'));
        }
        let ghost mid = out@;
        crate::text::push_all(out, d.as_slice());
        assert(out@ =~= start + (Seq::new((w - d@.len()) as nat, |j: int| '0') + d@));
    } else {
        crate::text::push_all(out, d.as_slice());
    }
}

/// A UTC time written in the local time zone, `off` seconds from UTC.
fn get_formatted_datetime(seconds: i64, off: i32) -> (r: Option<String>)
    requires
        off > i32::MIN,
        i64::MIN + i32::MAX <= seconds <= i64::MAX - i32::MAX,
    ensures
        match formatted_datetime(seconds as int, off as int) {
            Some(t) => r matches Some(x) && x@ == t,
            None => r is None,
        },
{
    match crate::task::civil_of(seconds + off as i64) {
        Some((y, mo, d, h, mi, sec)) => {
            let (sym, oh, om) = get_offset_hour_minute(off);
            let mut out: Vec<char> = Vec::new();
            out.push('\'');
            if y < 0 {
                out.push('-');
                push_padded(&mut out, (-(y as i64)) as u64, 3);
            } else {
                push_padded(&mut out, y as u64, 4);
            }
            let ghost p1 = out@;
            assert(p1 =~= seq!['\''] + year_text(y as int));
            out.push('-');
            push_padded(&mut out, mo as u64, 2);
            out.push('-');
            push_padded(&mut out, d as u64, 2);
            out.push('T');
            let ghost p2 = out@;
            assert(p2 =~= p1 + seq!['-'] + padded(mo as nat, 2) + seq!['-'] + padded(d as nat, 2) + seq!['T']);
            push_padded(&mut out, h as u64, 2);
            out.push(':');
            push_padded(&mut out, mi as u64, 2);
            out.push(':');
            push_padded(&mut out, sec as u64, 2);
            let ghost p3 = out@;
            assert(p3 =~= p2 + padded(h as nat, 2) + seq![':'] + padded(mi as nat, 2) + seq![':'] + padded(sec as nat, 2));
            crate::text::push_str(&mut out, sym);
            push_padded(&mut out, oh as u64, 2);
            out.push(':');
            push_padded(&mut out, om as u64, 2);
            out.push('\'');
            let ghost p4 = out@;
            assert(p4 =~= p3 + sym@ + padded(oh as nat, 2) + seq![':'] + padded(om as nat, 2) + seq!['\'']);
            proof {
                let t = formatted_datetime(seconds as int, off as int)->0;
                assert(t =~= seq!['\''] + year_text(y as int) + seq!['-'] + padded(mo as nat, 2) + seq!['-'] + padded(d as nat, 2) + seq![
                    'T',
                ] + padded(h as nat, 2) + seq![':'] + padded(mi as nat, 2) + seq![':'] + padded(sec as nat, 2) + sym@
                    + padded(oh as nat, 2) + seq![':'] + padded(om as nat, 2) + seq!['\'']);
                assert(out@ =~= t);
            }
            Some(crate::text::string_of(out.as_slice()))
        },
        None => None,
    }
}

/// The byte lengths of texts.
pub open spec fn byte_lengths(hs: Seq<Seq<char>>) -> Seq<nat> {
    hs.map_values(|h: Seq<char>| crate::text::byte_len(h))
}

/// The texts of rows of cells.
pub open spec fn rows_view(rows: Seq<Vec<String>>) -> Seq<Seq<Seq<char>>> {
    rows.map_values(|row: Vec<String>| crate::pane::context::strings_view(row@))
}

/// Widths as numbers.
pub open spec fn widths_view(w: Seq<usize>) -> Seq<nat> {
    w.map_values(|x: usize| x as nat)
}

proof fn lemma_elem_le_total(w: Seq<nat>, i: int)
    requires
        0 <= i < w.len(),
    ensures
        w[i] <= total(w),
    decreases w.len(),
{
    if i < w.len() - 1 {
        lemma_elem_le_total(w.drop_last(), i);
    }
}

/// `w` with each width raised to the byte length of the cell of `row` under it.
pub open spec fn widened(w: Seq<nat>, row: Seq<Seq<char>>) -> Seq<nat> {
    Seq::new(
        w.len(),
        |i: int|
            if i < row.len() && crate::text::byte_len(row[i]) > w[i] {
                crate::text::byte_len(row[i])
            } else {
                w[i]
            },
    )
}

/// The byte lengths of the headers, each raised to that of the longest cell
/// under it.
pub open spec fn column_widths(rows: Seq<Seq<Seq<char>>>, headers: Seq<Seq<char>>) -> Seq<nat>
    decreases rows.len(),
{
    if rows.len() == 0 {
        byte_lengths(headers)
    } else {
        widened(column_widths(rows.drop_last(), headers), rows.last())
    }
}

/// The first header that is `Description` or `Definition`.
pub open spec fn description_column(headers: Seq<Seq<char>>) -> Option<int>
    decreases headers.len(),
{
    if headers.len() == 0 {
        None
    } else if headers[0] == "Description"@ || headers[0] == "Definition"@ {
        Some(0)
    } else {
        match description_column(headers.drop_first()) {
            Some(i) => Some(i + 1),
            None => None,
        }
    }
}

/// The sum of the widths.
pub open spec fn total(w: Seq<nat>) -> nat
    decreases w.len(),
{
    if w.len() == 0 {
        0
    } else {
        total(w.drop_last()) + w.last()
    }
}

/// The largest width, 0 for none.
pub open spec fn widest(w: Seq<nat>) -> nat
    decreases w.len(),
{
    if w.len() == 0 {
        0
    } else if w.last() > widest(w.drop_last()) {
        w.last()
    } else {
        widest(w.drop_last())
    }
}

/// The first position of the value `v` in `w`, 0 if it is not there.
pub open spec fn first_position(w: Seq<nat>, v: nat) -> int
    decreases w.len(),
{
    if w.len() == 0 {
        0
    } else if w[0] == v {
        0
    } else if first_position(w.drop_first(), v) + 1 < w.len() {
        first_position(w.drop_first(), v) + 1
    } else {
        0
    }
}

/// The widths narrowed one column at a time, the first widest first, while
/// their sum (as a 16-bit number) reaches `limit` and the widest is wider
/// than one.
pub open spec fn trimmed(w: Seq<nat>, limit: int) -> Seq<nat>
    decreases total(w),
{
    if (total(w) as int) % 65536 >= limit {
        let i = first_position(w, widest(w));
        if 0 <= i < w.len() && w[i] > 1 {
            proof {
                lemma_total_update(w, i, (w[i] - 1) as nat);
            }
            trimmed(w.update(i, (w[i] - 1) as nat), limit)
        } else {
            w
        }
    } else {
        w
    }
}

pub proof fn lemma_total_update(w: Seq<nat>, i: int, v: nat)
    requires
        0 <= i < w.len(),
    ensures
        total(w.update(i, v)) + w[i] == total(w) + v,
    decreases w.len(),
{
    if i == w.len() - 1 {
        assert(w.update(i, v).drop_last() =~= w.drop_last());
    } else {
        lemma_total_update(w.drop_last(), i, v);
        assert(w.update(i, v).drop_last() =~= w.drop_last().update(i, v));
    }
}

/// The widths before narrowing: the columns' widths, the description given
/// `max` columns, and the first column widened by the selection indicator.
pub open spec fn wanted_widths(rows: Seq<Seq<Seq<char>>>, headers: Seq<Seq<char>>, max: nat, indicator: nat) -> Seq<nat> {
    let w = column_widths(rows, headers);
    let w2 = match description_column(headers) {
        Some(i) => w.update(i, max),
        None => w,
    };
    if w2.len() > 0 {
        w2.update(0, w2[0] + indicator)
    } else {
        w2
    }
}

fn sum_of(w: &Vec<usize>) -> (r: usize)
    requires
        total(widths_view(w@)) <= usize::MAX,
    ensures
        r == total(widths_view(w@)),
{
    let ghost ws = widths_view(w@);
    let mut t: usize = 0;
    let mut i: usize = 0;
    while i < w.len()
        invariant
            ws == widths_view(w@),
            total(ws) <= usize::MAX,
            i <= w@.len(),
            t == total(ws.take(i as int)),
        decreases w.len() - i,
    {
        assert(ws.take(i + 1).drop_last() =~= ws.take(i as int));
        proof {
            lemma_total_prefix(ws, i + 1);
        }
        t = t + w[i];
        i += 1;
    }
    assert(ws.take(w@.len() as int) =~= ws);
    t
}

proof fn lemma_total_prefix(w: Seq<nat>, k: int)
    requires
        0 <= k <= w.len(),
    ensures
        total(w.take(k)) <= total(w),
    decreases w.len() - k,
{
    if k < w.len() {
        lemma_total_prefix(w, k + 1);
        assert(w.take(k + 1).drop_last() =~= w.take(k));
    } else {
        assert(w.take(k) =~= w);
    }
}

fn widest_position(w: &Vec<usize>) -> (r: usize)
    ensures
        r as int == first_position(widths_view(w@), widest(widths_view(w@))),
{
    let ghost ws = widths_view(w@);
    let mut m: usize = 0;
    let mut i: usize = 0;
    while i < w.len()
        invariant
            ws == widths_view(w@),
            i <= w@.len(),
            m == widest(ws.take(i as int)),
        decreases w.len() - i,
    {
        assert(ws.take(i + 1).drop_last() =~= ws.take(i as int));
        if w[i] > m {
            m = w[i];
        }
        i += 1;
    }
    assert(ws.take(w@.len() as int) =~= ws);
    let mut j = w.len();
    let mut pos: usize = 0;
    assert(ws.skip(w@.len() as int) =~= Seq::<nat>::empty());
    while j > 0
        invariant
            ws == widths_view(w@),
            j <= w@.len(),
            pos as int == first_position(ws.skip(j as int), m as nat),
            pos < w@.len() || pos == 0,
        decreases j,
    {
        j -= 1;
        assert(ws.skip(j as int).drop_first() =~= ws.skip(j + 1));
        assert(ws.skip(j as int)[0] == ws[j as int]);
        if w[j] == m {
            pos = 0;
        } else if pos < w.len() - j - 1 {
            pos = pos + 1;
        } else {
            pos = 0;
        }
    }
    assert(ws.skip(0) =~= ws);
    pos
}

impl TaskwarriorTui {
    /// The widths the columns want before narrowing, if the widest fits.
    fn wanted_widths_vec(&self, tasks: &Vec<Vec<String>>, headers: &Vec<String>, maximum_column_width: u16) -> (r: Option<
        Vec<usize>,
    >)
        requires
            forall|k: int| 0 <= k < tasks@.len() ==> #[trigger] tasks@[k]@.len() <= headers@.len(),
            forall|k: int, c: int|
                0 <= k < tasks@.len() && 0 <= c < tasks@[k]@.len() ==> crate::text::byte_len(#[trigger] tasks@[k]@[c]@)
                    <= usize::MAX,
            forall|c: int| 0 <= c < headers@.len() ==> crate::text::byte_len(#[trigger] headers@[c]@) <= usize::MAX,
        ensures
            r matches Some(w) ==> widths_view(w@) == wanted_widths(
                    rows_view(tasks@),
                    crate::pane::context::strings_view(headers@),
                    maximum_column_width as nat,
                    crate::utils::text_width(self.config.uda_selection_indicator@),
                ),
            r is None ==> wanted_widths(
                    rows_view(tasks@),
                    crate::pane::context::strings_view(headers@),
                    maximum_column_width as nat,
                    crate::utils::text_width(self.config.uda_selection_indicator@),
                ).len() > 0 && wanted_widths(
                    rows_view(tasks@),
                    crate::pane::context::strings_view(headers@),
                    maximum_column_width as nat,
                    crate::utils::text_width(self.config.uda_selection_indicator@),
                )[0] > usize::MAX,
    {
        let ghost rows = rows_view(tasks@);
        let ghost hs = crate::pane::context::strings_view(headers@);
        let mut widths: Vec<usize> = Vec::new();
        let mut i: usize = 0;
        while i < headers.len()
            invariant
                i <= headers@.len(),
                forall|c: int| 0 <= c < headers@.len() ==> crate::text::byte_len(#[trigger] headers@[c]@) <= usize::MAX,
                hs == crate::pane::context::strings_view(headers@),
                widths_view(widths@) == byte_lengths(hs.take(i as int)),
            decreases headers.len() - i,
        {
            let n = crate::text::byte_len_chars(crate::text::chars_of(headers[i].as_str()).as_slice());
            let ghost before = widths@;
            widths.push(n);
            assert(hs[i as int] == headers@[i as int]@);
            assert(n == crate::text::byte_len(hs[i as int]));
            assert(hs.take(i + 1) =~= hs.take(i as int).push(hs[i as int]));
            assert(widths_view(widths@) =~= widths_view(before).push(n as nat));
            assert(byte_lengths(hs.take(i + 1)) =~= byte_lengths(hs.take(i as int)).push(crate::text::byte_len(hs[i as int])));
            i += 1;
        }
        i = 0;
        assert(rows.take(0) =~= Seq::<Seq<Seq<char>>>::empty());
        assert(hs.take(headers@.len() as int) =~= hs);
        while i < tasks.len()
            invariant
                i <= tasks@.len(),
                rows == rows_view(tasks@),
                hs == crate::pane::context::strings_view(headers@),
                forall|k: int| 0 <= k < tasks@.len() ==> #[trigger] tasks@[k]@.len() <= headers@.len(),
                forall|k: int, c: int|
                    0 <= k < tasks@.len() && 0 <= c < tasks@[k]@.len() ==> crate::text::byte_len(#[trigger] tasks@[k]@[c]@)
                        <= usize::MAX,
                widths_view(widths@) == column_widths(rows.take(i as int), hs),
                widths@.len() == headers@.len(),
            decreases tasks.len() - i,
        {
            assert(rows.take(i + 1).drop_last() =~= rows.take(i as int));
            assert(rows.take(i + 1).last() == rows[i as int]);
            let row = &tasks[i];
            assert(forall|q: int| 0 <= q < row@.len() ==> crate::text::byte_len(#[trigger] row@[q]@) <= usize::MAX) by {
                assert forall|q: int| 0 <= q < row@.len() implies crate::text::byte_len(#[trigger] row@[q]@) <= usize::MAX by {
                    assert(tasks@[i as int]@[q] == row@[q]);
                }
            }
            let ghost before = widths@;
            let mut c: usize = 0;
            while c < row.len()
                invariant
                    c <= row@.len() <= widths@.len(),
                    widths@.len() == before.len(),
                    forall|q: int| 0 <= q < row@.len() ==> crate::text::byte_len(#[trigger] row@[q]@) <= usize::MAX,
                    forall|q: int| 0 <= q < widths@.len() ==> #[trigger] widths@[q] as nat == if q < c && crate::text::byte_len(row@[q]@) > before[q] {
                        crate::text::byte_len(row@[q]@)
                    } else {
                        before[q] as nat
                    },
                decreases row.len() - c,
            {
                let n = crate::text::byte_len_chars(crate::text::chars_of(row[c].as_str()).as_slice());
                if n > widths[c] {
                    widths.set(c, n);
                }
                c += 1;
            }
            proof {
                assert(rows[i as int] == crate::pane::context::strings_view(row@));
                assert(widths_view(widths@) =~= widened(widths_view(before), rows[i as int]));
            }
            i += 1;
        }
        assert(rows.take(tasks@.len() as int) =~= rows);
        let ghost w1 = widths_view(widths@);
        let mut j: usize = 0;
        let mut found = false;
        while j < headers.len() && !found
            invariant
                j <= headers@.len(),
                hs == crate::pane::context::strings_view(headers@),
                widths@.len() == headers@.len(),
                !found ==> widths_view(widths@) == w1,
                !found ==> forall|q: int| 0 <= q < j ==> hs[q] != "Description"@ && hs[q] != "Definition"@,
                found ==> description_column(hs) is Some && widths_view(widths@) == w1.update(description_column(hs)->0, maximum_column_width as nat),
            decreases headers.len() - j + (if found { 0int } else { 1int }),
        {
            let h = crate::text::chars_of(headers[j].as_str());
            if crate::text::chars_eq_str(h.as_slice(), "Description") || crate::text::chars_eq_str(h.as_slice(), "Definition") {
                proof {
                    lemma_description_column(hs, j as int);
                }
                widths.set(j, maximum_column_width as usize);
                found = true;
                assert(widths_view(widths@) =~= w1.update(j as int, maximum_column_width as nat));
            } else {
                j += 1;
            }
        }
        proof {
            if !found {
                lemma_no_description_column(hs);
            }
        }
        let ghost w2 = widths_view(widths@);
        let ghost wanted = wanted_widths(rows, hs, maximum_column_width as nat, crate::utils::text_width(self.config.uda_selection_indicator@));
        if widths.len() > 0 {
            let extra = crate::utils::width_of(self.config.uda_selection_indicator.as_str());
            let first = match widths[0].checked_add(extra) {
                Some(f) => f,
                None => {
                    return None;
                },
            };
            widths.set(0, first);
            assert(widths_view(widths@) =~= w2.update(0, (w2[0] + extra) as nat));
        }
        Some(widths)
    }

    /// Narrow the widest column, the first of the widest, one column at a
    /// time while the widths' sum (as a 16-bit number) reaches `limit`.
    fn trim_widths(start: Vec<usize>, limit: usize) -> (r: Vec<usize>)
        requires
            total(widths_view(start@)) <= usize::MAX,
            limit == 0 ==> total(widths_view(start@)) > 0,
        ensures
            widths_view(r@) == trimmed(widths_view(start@), limit as int),
    {
        let ghost wanted = widths_view(start@);
        let mut widths = start;
        loop
            invariant
                wanted == widths_view(start@),
                trimmed(widths_view(widths@), limit as int) == trimmed(wanted, limit as int),
                total(widths_view(widths@)) <= usize::MAX,
                limit == 0 ==> total(widths_view(widths@)) > 0,
            decreases total(widths_view(widths@)),
        {
            let ghost ws = widths_view(widths@);
            let sum = sum_of(&widths);
            if sum % 65536 < limit {
                assert(trimmed(ws, limit as int) == ws);
                return widths;
            }
            let index = widest_position(&widths);
            if index >= widths.len() || widths[index] <= 1 {
                assert(trimmed(ws, limit as int) == ws);
                return widths;
            }
            proof {
                lemma_total_update(ws, index as int, (ws[index as int] - 1) as nat);
            }
            let v = widths[index] - 1;
            widths.set(index, v);
            assert(widths_view(widths@) =~= ws.update(index as int, (ws[index as int] - 1) as nat));
            proof {
                lemma_elem_le_total(widths_view(widths@), index as int);
            }
        }
    }

    /// The widths of the report's columns on a terminal `maximum_column_width`
    /// columns wide: each column as wide as its widest text, the description
    /// as wide as the terminal, the first widened by the selection indicator,
    /// then the widest narrowed one column at a time until the widths fit.
    pub fn calculate_widths(
        &self,
        tasks: &Vec<Vec<String>>,
        headers: &Vec<String>,
        maximum_column_width: u16,
    ) -> (r: Vec<usize>)
        requires
            forall|k: int| 0 <= k < tasks@.len() ==> #[trigger] tasks@[k]@.len() <= headers@.len(),
            forall|k: int, c: int|
                0 <= k < tasks@.len() && 0 <= c < tasks@[k]@.len() ==> crate::text::byte_len(#[trigger] tasks@[k]@[c]@)
                    <= usize::MAX,
            forall|c: int| 0 <= c < headers@.len() ==> crate::text::byte_len(#[trigger] headers@[c]@) <= usize::MAX,
            headers@.len() <= maximum_column_width,
            total(wanted_widths(
                    rows_view(tasks@),
                    crate::pane::context::strings_view(headers@),
                    maximum_column_width as nat,
                    crate::utils::text_width(self.config.uda_selection_indicator@),
                )) <= usize::MAX,
            headers@.len() == maximum_column_width ==> total(wanted_widths(
                    rows_view(tasks@),
                    crate::pane::context::strings_view(headers@),
                    maximum_column_width as nat,
                    crate::utils::text_width(self.config.uda_selection_indicator@),
                )) > 0,
        ensures
            widths_view(r@) == trimmed(wanted_widths(
                    rows_view(tasks@),
                    crate::pane::context::strings_view(headers@),
                    maximum_column_width as nat,
                    crate::utils::text_width(self.config.uda_selection_indicator@),
                ), maximum_column_width - headers@.len()),
    {
        match self.wanted_widths_vec(tasks, headers, maximum_column_width) {
            Some(w) => Self::trim_widths(w, maximum_column_width as usize - headers.len()),
            None => {
                proof {
                    lemma_elem_le_total(wanted_widths(
                    rows_view(tasks@),
                    crate::pane::context::strings_view(headers@),
                    maximum_column_width as nat,
                    crate::utils::text_width(self.config.uda_selection_indicator@),
                ), 0);
                }
                Vec::new()
            },
        }
    }

    /// The widths of the report's columns, as `calculate_widths` gives them,
    /// or nothing where the widths the columns want do not fit in a `usize`,
    /// or nothing is left to narrow on a terminal no wider than the headers.
    pub fn try_calculate_widths(
        &self,
        tasks: &Vec<Vec<String>>,
        headers: &Vec<String>,
        maximum_column_width: u16,
    ) -> (r: Option<Vec<usize>>)
        requires
            forall|k: int| 0 <= k < tasks@.len() ==> #[trigger] tasks@[k]@.len() <= headers@.len(),
            forall|k: int, c: int|
                0 <= k < tasks@.len() && 0 <= c < tasks@[k]@.len() ==> crate::text::byte_len(#[trigger] tasks@[k]@[c]@)
                    <= usize::MAX,
            forall|c: int| 0 <= c < headers@.len() ==> crate::text::byte_len(#[trigger] headers@[c]@) <= usize::MAX,
            headers@.len() <= maximum_column_width,
        ensures
            r is Some <==> (total(wanted_widths(
                    rows_view(tasks@),
                    crate::pane::context::strings_view(headers@),
                    maximum_column_width as nat,
                    crate::utils::text_width(self.config.uda_selection_indicator@),
                )) <= usize::MAX && (headers@.len() == maximum_column_width ==> total(
                wanted_widths(
                    rows_view(tasks@),
                    crate::pane::context::strings_view(headers@),
                    maximum_column_width as nat,
                    crate::utils::text_width(self.config.uda_selection_indicator@),
                ),
            ) > 0)),
            r matches Some(v) ==> widths_view(v@) == trimmed(wanted_widths(
                    rows_view(tasks@),
                    crate::pane::context::strings_view(headers@),
                    maximum_column_width as nat,
                    crate::utils::text_width(self.config.uda_selection_indicator@),
                ), maximum_column_width - headers@.len()),
    {
        let w = match self.wanted_widths_vec(tasks, headers, maximum_column_width) {
            Some(w) => w,
            None => {
                proof {
                    lemma_elem_le_total(wanted_widths(
                    rows_view(tasks@),
                    crate::pane::context::strings_view(headers@),
                    maximum_column_width as nat,
                    crate::utils::text_width(self.config.uda_selection_indicator@),
                ), 0);
                }
                return None;
            },
        };
        let mut t: u128 = 0;
        let mut i: usize = 0;
        let ghost ws = widths_view(w@);
        while i < w.len()
            invariant
                ws == widths_view(w@),
                i <= w@.len(),
                t == total(ws.take(i as int)),
                t <= i * 0x1_0000_0000_0000_0000,
            decreases w.len() - i,
        {
            assert(ws.take(i + 1).drop_last() =~= ws.take(i as int));
            t = t + w[i] as u128;
            i += 1;
        }
        assert(ws.take(w@.len() as int) =~= ws);
        if t > usize::MAX as u128 {
            return None;
        }
        if headers.len() == maximum_column_width as usize && t == 0 {
            return None;
        }
        Some(self.calculate_widths(tasks, headers, maximum_column_width))
    }
}

proof fn lemma_description_column(hs: Seq<Seq<char>>, j: int)
    requires
        0 <= j < hs.len(),
        hs[j] == "Description"@ || hs[j] == "Definition"@,
        forall|q: int| 0 <= q < j ==> hs[q] != "Description"@ && hs[q] != "Definition"@,
    ensures
        description_column(hs) == Some(j),
    decreases j,
{
    if j > 0 {
        lemma_description_column(hs.drop_first(), j - 1);
    }
}

proof fn lemma_no_description_column(hs: Seq<Seq<char>>)
    requires
        forall|q: int| 0 <= q < hs.len() ==> hs[q] != "Description"@ && hs[q] != "Definition"@,
    ensures
        description_column(hs) is None,
    decreases hs.len(),
{
    if hs.len() > 0 {
        lemma_no_description_column(hs.drop_first());
    }
}

/// A completion candidate: its kind and its text.
pub type Item = (Seq<char>, Seq<char>);

/// `c` with each of `items` added in turn unless it is there already.
pub open spec fn added(c: Seq<Item>, items: Seq<Item>) -> Seq<Item>
    decreases items.len(),
{
    if items.len() == 0 {
        c
    } else {
        added(
            if c.contains(items[0]) {
                c
            } else {
                c.push(items[0])
            },
            items.drop_first(),
        )
    }
}

proof fn lemma_added_concat(c: Seq<Item>, a: Seq<Item>, b: Seq<Item>)
    ensures
        added(c, a + b) == added(added(c, a), b),
    decreases a.len(),
{
    if a.len() == 0 {
        assert(a + b =~= b);
    } else {
        let c2 = if c.contains(a[0]) {
            c
        } else {
            c.push(a[0])
        };
        assert((a + b).drop_first() =~= a.drop_first() + b);
        lemma_added_concat(c2, a.drop_first(), b);
    }
}

proof fn lemma_added_one(c: Seq<Item>, a: Seq<Item>, x: Item)
    ensures
        added(c, a.push(x)) == if added(c, a).contains(x) {
            added(c, a)
        } else {
            added(c, a).push(x)
        },
{
    lemma_added_concat(c, a, seq![x]);
    assert(a.push(x) =~= a + seq![x]);
    assert(seq![x].drop_first() =~= Seq::<Item>::empty());
    let d = added(c, a);
    let d2 = if d.contains(x) {
        d
    } else {
        d.push(x)
    };
    assert(added(d2, Seq::<Item>::empty()) == d2);
    assert(added(d, seq![x]) == added(d2, seq![x].drop_first()));
}

/// The modes in which a line of task arguments is typed.
pub open spec fn editing(m: Mode) -> bool {
    m == Mode::TaskModify || m == Mode::TaskFilter || m == Mode::TaskAnnotate || m == Mode::TaskAdd || m
        == Mode::TaskLog
}

/// The attribute names offered.
pub open spec fn attribute_items() -> Seq<Item> {
    seq![("attribute"@, "project:"@), ("attribute"@, "priority:"@), ("attribute"@, "due:"@), ("attribute"@, "scheduled:"@), ("attribute"@, "wait:"@), ("attribute"@, "depends:"@)]
}

/// The attribute modifiers offered.
pub open spec fn modifier_items() -> Seq<Item> {
    seq![("modifier"@, ".before:"@), ("modifier"@, ".under:"@), ("modifier"@, ".below:"@), ("modifier"@, ".after:"@), ("modifier"@, ".over:"@), ("modifier"@, ".above:"@), ("modifier"@, ".by:"@), ("modifier"@, ".none:"@), ("modifier"@, ".any:"@), ("modifier"@, ".is:"@), ("modifier"@, ".equals:"@), ("modifier"@, ".isnt:"@), ("modifier"@, ".not:"@), ("modifier"@, ".has:"@), ("modifier"@, ".contains:"@), ("modifier"@, ".hasnt:"@), ("modifier"@, ".startswith:"@), ("modifier"@, ".left:"@), ("modifier"@, ".endswith:"@), ("modifier"@, ".right:"@), ("modifier"@, ".word:"@), ("modifier"@, ".noword:"@)]
}

/// The statuses offered when filtering.
pub open spec fn status_items() -> Seq<Item> {
    seq![("status"@, "pending"@), ("status"@, "completed"@), ("status"@, "deleted"@), ("status"@, "recurring"@)]
}

/// The priorities offered.
pub open spec fn priority_items(ps: Seq<Seq<char>>) -> Seq<Item> {
    ps.map_values(|p: Seq<char>| ("priority"@, p))
}

/// The tags of `tags` that are not virtual, as candidates.
pub open spec fn tag_items_of(tags: Option<Seq<Seq<char>>>, vt: Seq<Seq<char>>, kind: Seq<char>, prefix: Seq<char>) -> Seq<Item> {
    match tags {
        Some(ts) => tag_list_items(ts, vt, kind, prefix),
        None => Seq::empty(),
    }
}

/// The tags of `ts` that are not virtual, as candidates.
pub open spec fn tag_list_items(ts: Seq<Seq<char>>, vt: Seq<Seq<char>>, kind: Seq<char>, prefix: Seq<char>) -> Seq<Item>
    decreases ts.len(),
{
    if ts.len() == 0 {
        Seq::empty()
    } else {
        tag_list_items(ts.drop_last(), vt, kind, prefix) + if vt.contains(ts.last()) {
            Seq::empty()
        } else {
            seq![(kind, prefix + ts.last())]
        }
    }
}

/// The tag candidates of the tasks, task by task.
pub open spec fn tag_items(tasks: Seq<TaskRecord>, vt: Seq<Seq<char>>, kind: Seq<char>, prefix: Seq<char>) -> Seq<Item>
    decreases tasks.len(),
{
    if tasks.len() == 0 {
        Seq::empty()
    } else {
        tag_items(tasks.drop_last(), vt, kind, prefix) + tag_items_of(crate::task::tags_of(tasks.last()), vt, kind, prefix)
    }
}

/// A project as offered: in double quotes if it holds a space.
pub open spec fn project_text(p: Seq<char>) -> Seq<char> {
    if p.contains(' ') {
        seq!['"'] + p + seq!['"']
    } else {
        p
    }
}

/// The project candidates of the tasks.
pub open spec fn project_items(tasks: Seq<TaskRecord>) -> Seq<Item>
    decreases tasks.len(),
{
    if tasks.len() == 0 {
        Seq::empty()
    } else {
        project_items(tasks.drop_last()) + match tasks.last().project {
            Some(p) => seq![("project"@, project_text(p@))],
            None => Seq::empty(),
        }
    }
}

/// A date field of a task.
#[derive(Debug, Clone, Copy, PartialEq, Eq, Structural)]
pub enum DateField {
    Due,
    Wait,
    Scheduled,
    End,
}

/// The date of `t` in `field`.
pub open spec fn date_in(t: TaskRecord, field: DateField) -> Option<crate::task::TaskDate> {
    match field {
        DateField::Due => t.due,
        DateField::Wait => t.wait,
        DateField::Scheduled => t.scheduled,
        DateField::End => t.end,
    }
}

/// How a date field is named.
pub open spec fn field_name(field: DateField) -> Seq<char> {
    match field {
        DateField::Due => "due"@,
        DateField::Wait => "wait"@,
        DateField::Scheduled => "scheduled"@,
        DateField::End => "end"@,
    }
}

/// The date candidates of the tasks in `field`, written in the local time
/// zone, `off` seconds from UTC.
pub open spec fn date_items(tasks: Seq<TaskRecord>, field: DateField, off: int) -> Seq<Item>
    decreases tasks.len(),
{
    if tasks.len() == 0 {
        Seq::empty()
    } else {
        date_items(tasks.drop_last(), field, off) + match date_in(tasks.last(), field) {
            Some(d) => match formatted_datetime(d.seconds as int, off) {
                Some(t) => seq![(field_name(field), t)],
                None => Seq::empty(),
            },
            None => Seq::empty(),
        }
    }
}

/// Every date of `t` is within the range of times the library reads.
pub open spec fn task_dates_in_range(t: TaskRecord) -> bool {
    &&& (t.due matches Some(d) ==> -crate::task::TIME_LIMIT < d.seconds < crate::task::TIME_LIMIT)
    &&& (t.wait matches Some(d) ==> -crate::task::TIME_LIMIT < d.seconds < crate::task::TIME_LIMIT)
    &&& (t.scheduled matches Some(d) ==> -crate::task::TIME_LIMIT < d.seconds < crate::task::TIME_LIMIT)
    &&& (t.end matches Some(d) ==> -crate::task::TIME_LIMIT < d.seconds < crate::task::TIME_LIMIT)
}

/// The candidates offered in mode `m`, in the order they are added.
pub open spec fn completion_items(
    m: Mode,
    tasks: Seq<TaskRecord>,
    priorities: Seq<Seq<char>>,
    vt: Seq<Seq<char>>,
    off: int,
) -> Seq<Item> {
    (if editing(m) {
        attribute_items() + modifier_items() + priority_items(priorities) + tag_items(tasks, vt, "tag"@, "tag:"@)
            + tag_items(tasks, vt, "+"@, "+"@) + project_items(tasks) + date_items(tasks, DateField::Due, off)
            + date_items(tasks, DateField::Wait, off) + date_items(tasks, DateField::Scheduled, off) + date_items(
            tasks,
            DateField::End,
            off,
        )
    } else {
        Seq::empty()
    }) + if m == Mode::TaskFilter {
        status_items()
    } else {
        Seq::empty()
    }
}

fn add_item(cl: &mut CompletionList, kind: &str, text: String, Ghost(c0): Ghost<Seq<Item>>, Ghost(items): Ghost<Seq<Item>>)
    requires
        distinct_items(candidates_view(old(cl).helper.candidates@)),
        candidates_view(old(cl).helper.candidates@) == added(c0, items),
    ensures
        distinct_items(candidates_view(final(cl).helper.candidates@)),
        candidates_view(final(cl).helper.candidates@) == added(c0, items.push((kind@, text@))),
        final(cl).helper.context == old(cl).helper.context,
        final(cl).helper.input == old(cl).helper.input,
        final(cl).current == old(cl).current,
        final(cl).pos == old(cl).pos,
        final(cl).state == old(cl).state,
{
    proof {
        lemma_added_one(c0, items, (kind@, text@));
    }
    cl.insert((crate::text::string_of(crate::text::chars_of(kind).as_slice()), text));
}

fn add_attribute_items(cl: &mut CompletionList, Ghost(c0): Ghost<Seq<Item>>, Ghost(items): Ghost<Seq<Item>>)
    requires
        distinct_items(candidates_view(old(cl).helper.candidates@)),
        candidates_view(old(cl).helper.candidates@) == added(c0, items),
    ensures
        distinct_items(candidates_view(final(cl).helper.candidates@)),
        candidates_view(final(cl).helper.candidates@) == added(c0, items + attribute_items()),
        final(cl).helper.context == old(cl).helper.context,
        final(cl).helper.input == old(cl).helper.input,
        final(cl).current == old(cl).current,
        final(cl).pos == old(cl).pos,
        final(cl).state == old(cl).state,
{
    let ghost mut done = items;
    add_item(cl, "attribute", crate::text::string_of(crate::text::chars_of("project:").as_slice()), Ghost(c0), Ghost(done));
    proof {
        done = done.push(("attribute"@, "project:"@));
    }
    add_item(cl, "attribute", crate::text::string_of(crate::text::chars_of("priority:").as_slice()), Ghost(c0), Ghost(done));
    proof {
        done = done.push(("attribute"@, "priority:"@));
    }
    add_item(cl, "attribute", crate::text::string_of(crate::text::chars_of("due:").as_slice()), Ghost(c0), Ghost(done));
    proof {
        done = done.push(("attribute"@, "due:"@));
    }
    add_item(cl, "attribute", crate::text::string_of(crate::text::chars_of("scheduled:").as_slice()), Ghost(c0), Ghost(done));
    proof {
        done = done.push(("attribute"@, "scheduled:"@));
    }
    add_item(cl, "attribute", crate::text::string_of(crate::text::chars_of("wait:").as_slice()), Ghost(c0), Ghost(done));
    proof {
        done = done.push(("attribute"@, "wait:"@));
    }
    add_item(cl, "attribute", crate::text::string_of(crate::text::chars_of("depends:").as_slice()), Ghost(c0), Ghost(done));
    proof {
        done = done.push(("attribute"@, "depends:"@));
    }
    assert(done =~= items + attribute_items());
}

fn add_modifier_items(cl: &mut CompletionList, Ghost(c0): Ghost<Seq<Item>>, Ghost(items): Ghost<Seq<Item>>)
    requires
        distinct_items(candidates_view(old(cl).helper.candidates@)),
        candidates_view(old(cl).helper.candidates@) == added(c0, items),
    ensures
        distinct_items(candidates_view(final(cl).helper.candidates@)),
        candidates_view(final(cl).helper.candidates@) == added(c0, items + modifier_items()),
        final(cl).helper.context == old(cl).helper.context,
        final(cl).helper.input == old(cl).helper.input,
        final(cl).current == old(cl).current,
        final(cl).pos == old(cl).pos,
        final(cl).state == old(cl).state,
{
    let ghost mut done = items;
    add_item(cl, "modifier", crate::text::string_of(crate::text::chars_of(".before:").as_slice()), Ghost(c0), Ghost(done));
    proof {
        done = done.push(("modifier"@, ".before:"@));
    }
    add_item(cl, "modifier", crate::text::string_of(crate::text::chars_of(".under:").as_slice()), Ghost(c0), Ghost(done));
    proof {
        done = done.push(("modifier"@, ".under:"@));
    }
    add_item(cl, "modifier", crate::text::string_of(crate::text::chars_of(".below:").as_slice()), Ghost(c0), Ghost(done));
    proof {
        done = done.push(("modifier"@, ".below:"@));
    }
    add_item(cl, "modifier", crate::text::string_of(crate::text::chars_of(".after:").as_slice()), Ghost(c0), Ghost(done));
    proof {
        done = done.push(("modifier"@, ".after:"@));
    }
    add_item(cl, "modifier", crate::text::string_of(crate::text::chars_of(".over:").as_slice()), Ghost(c0), Ghost(done));
    proof {
        done = done.push(("modifier"@, ".over:"@));
    }
    add_item(cl, "modifier", crate::text::string_of(crate::text::chars_of(".above:").as_slice()), Ghost(c0), Ghost(done));
    proof {
        done = done.push(("modifier"@, ".above:"@));
    }
    add_item(cl, "modifier", crate::text::string_of(crate::text::chars_of(".by:").as_slice()), Ghost(c0), Ghost(done));
    proof {
        done = done.push(("modifier"@, ".by:"@));
    }
    add_item(cl, "modifier", crate::text::string_of(crate::text::chars_of(".none:").as_slice()), Ghost(c0), Ghost(done));
    proof {
        done = done.push(("modifier"@, ".none:"@));
    }
    add_item(cl, "modifier", crate::text::string_of(crate::text::chars_of(".any:").as_slice()), Ghost(c0), Ghost(done));
    proof {
        done = done.push(("modifier"@, ".any:"@));
    }
    add_item(cl, "modifier", crate::text::string_of(crate::text::chars_of(".is:").as_slice()), Ghost(c0), Ghost(done));
    proof {
        done = done.push(("modifier"@, ".is:"@));
    }
    add_item(cl, "modifier", crate::text::string_of(crate::text::chars_of(".equals:").as_slice()), Ghost(c0), Ghost(done));
    proof {
        done = done.push(("modifier"@, ".equals:"@));
    }
    add_item(cl, "modifier", crate::text::string_of(crate::text::chars_of(".isnt:").as_slice()), Ghost(c0), Ghost(done));
    proof {
        done = done.push(("modifier"@, ".isnt:"@));
    }
    add_item(cl, "modifier", crate::text::string_of(crate::text::chars_of(".not:").as_slice()), Ghost(c0), Ghost(done));
    proof {
        done = done.push(("modifier"@, ".not:"@));
    }
    add_item(cl, "modifier", crate::text::string_of(crate::text::chars_of(".has:").as_slice()), Ghost(c0), Ghost(done));
    proof {
        done = done.push(("modifier"@, ".has:"@));
    }
    add_item(cl, "modifier", crate::text::string_of(crate::text::chars_of(".contains:").as_slice()), Ghost(c0), Ghost(done));
    proof {
        done = done.push(("modifier"@, ".contains:"@));
    }
    add_item(cl, "modifier", crate::text::string_of(crate::text::chars_of(".hasnt:").as_slice()), Ghost(c0), Ghost(done));
    proof {
        done = done.push(("modifier"@, ".hasnt:"@));
    }
    add_item(cl, "modifier", crate::text::string_of(crate::text::chars_of(".startswith:").as_slice()), Ghost(c0), Ghost(done));
    proof {
        done = done.push(("modifier"@, ".startswith:"@));
    }
    add_item(cl, "modifier", crate::text::string_of(crate::text::chars_of(".left:").as_slice()), Ghost(c0), Ghost(done));
    proof {
        done = done.push(("modifier"@, ".left:"@));
    }
    add_item(cl, "modifier", crate::text::string_of(crate::text::chars_of(".endswith:").as_slice()), Ghost(c0), Ghost(done));
    proof {
        done = done.push(("modifier"@, ".endswith:"@));
    }
    add_item(cl, "modifier", crate::text::string_of(crate::text::chars_of(".right:").as_slice()), Ghost(c0), Ghost(done));
    proof {
        done = done.push(("modifier"@, ".right:"@));
    }
    add_item(cl, "modifier", crate::text::string_of(crate::text::chars_of(".word:").as_slice()), Ghost(c0), Ghost(done));
    proof {
        done = done.push(("modifier"@, ".word:"@));
    }
    add_item(cl, "modifier", crate::text::string_of(crate::text::chars_of(".noword:").as_slice()), Ghost(c0), Ghost(done));
    proof {
        done = done.push(("modifier"@, ".noword:"@));
    }
    assert(done =~= items + modifier_items());
}

fn add_status_items(cl: &mut CompletionList, Ghost(c0): Ghost<Seq<Item>>, Ghost(items): Ghost<Seq<Item>>)
    requires
        distinct_items(candidates_view(old(cl).helper.candidates@)),
        candidates_view(old(cl).helper.candidates@) == added(c0, items),
    ensures
        distinct_items(candidates_view(final(cl).helper.candidates@)),
        candidates_view(final(cl).helper.candidates@) == added(c0, items + status_items()),
        final(cl).helper.context == old(cl).helper.context,
        final(cl).helper.input == old(cl).helper.input,
        final(cl).current == old(cl).current,
        final(cl).pos == old(cl).pos,
        final(cl).state == old(cl).state,
{
    let ghost mut done = items;
    add_item(cl, "status", crate::text::string_of(crate::text::chars_of("pending").as_slice()), Ghost(c0), Ghost(done));
    proof {
        done = done.push(("status"@, "pending"@));
    }
    add_item(cl, "status", crate::text::string_of(crate::text::chars_of("completed").as_slice()), Ghost(c0), Ghost(done));
    proof {
        done = done.push(("status"@, "completed"@));
    }
    add_item(cl, "status", crate::text::string_of(crate::text::chars_of("deleted").as_slice()), Ghost(c0), Ghost(done));
    proof {
        done = done.push(("status"@, "deleted"@));
    }
    add_item(cl, "status", crate::text::string_of(crate::text::chars_of("recurring").as_slice()), Ghost(c0), Ghost(done));
    proof {
        done = done.push(("status"@, "recurring"@));
    }
    assert(done =~= items + status_items());
}

pub(crate) fn contains_text(vt: &Vec<String>, x: &String) -> (r: bool)
    ensures
        r == crate::pane::context::strings_view(vt@).contains(x@),
{
    let xs = crate::text::chars_of(x.as_str());
    let mut i: usize = 0;
    while i < vt.len()
        invariant
            i <= vt@.len(),
            xs@ == x@,
            forall|k: int| 0 <= k < i ==> vt@[k]@ != x@,
        decreases vt.len() - i,
    {
        if crate::text::chars_eq(crate::text::chars_of(vt[i].as_str()).as_slice(), xs.as_slice()) {
            assert(crate::pane::context::strings_view(vt@)[i as int] == x@);
            return true;
        }
        i += 1;
    }
    assert forall|k: int| 0 <= k < vt@.len() implies crate::pane::context::strings_view(vt@)[k] != x@ by {
        assert(crate::pane::context::strings_view(vt@)[k] == vt@[k]@);
    }
    false
}

fn add_priority_items(cl: &mut CompletionList, ps: &Vec<String>, Ghost(c0): Ghost<Seq<Item>>, Ghost(items): Ghost<Seq<Item>>)
    requires
        distinct_items(candidates_view(old(cl).helper.candidates@)),
        candidates_view(old(cl).helper.candidates@) == added(c0, items),
    ensures
        distinct_items(candidates_view(final(cl).helper.candidates@)),
        candidates_view(final(cl).helper.candidates@) == added(
            c0,
            items + priority_items(crate::pane::context::strings_view(ps@)),
        ),
        final(cl).helper.context == old(cl).helper.context,
        final(cl).helper.input == old(cl).helper.input,
        final(cl).current == old(cl).current,
        final(cl).pos == old(cl).pos,
        final(cl).state == old(cl).state,
{
    let ghost pv = crate::pane::context::strings_view(ps@);
    let mut i: usize = 0;
    assert(items + priority_items(pv.take(0)) =~= items);
    while i < ps.len()
        invariant
            i <= ps@.len(),
            pv == crate::pane::context::strings_view(ps@),
            distinct_items(candidates_view(cl.helper.candidates@)),
            candidates_view(cl.helper.candidates@) == added(c0, items + priority_items(pv.take(i as int))),
            cl.helper.context == old(cl).helper.context,
            cl.helper.input == old(cl).helper.input,
            cl.current == old(cl).current,
            cl.pos == old(cl).pos,
            cl.state == old(cl).state,
        decreases ps.len() - i,
    {
        let p = ps[i].clone();
        add_item(cl, "priority", p, Ghost(c0), Ghost(items + priority_items(pv.take(i as int))));
        assert(items + priority_items(pv.take(i + 1)) =~= (items + priority_items(pv.take(i as int))).push(
            ("priority"@, pv[i as int]),
        ));
        i += 1;
    }
    assert(pv.take(ps@.len() as int) =~= pv);
}

fn add_tag_items(
    cl: &mut CompletionList,
    tasks: &Vec<TaskRecord>,
    vt: &Vec<String>,
    kind: &str,
    prefix: &str,
    Ghost(c0): Ghost<Seq<Item>>,
    Ghost(items): Ghost<Seq<Item>>,
)
    requires
        distinct_items(candidates_view(old(cl).helper.candidates@)),
        candidates_view(old(cl).helper.candidates@) == added(c0, items),
    ensures
        distinct_items(candidates_view(final(cl).helper.candidates@)),
        candidates_view(final(cl).helper.candidates@) == added(
            c0,
            items + tag_items(tasks@, crate::pane::context::strings_view(vt@), kind@, prefix@),
        ),
        final(cl).helper.context == old(cl).helper.context,
        final(cl).helper.input == old(cl).helper.input,
        final(cl).current == old(cl).current,
        final(cl).pos == old(cl).pos,
        final(cl).state == old(cl).state,
{
    let ghost vv = crate::pane::context::strings_view(vt@);
    let mut k: usize = 0;
    assert(tasks@.take(0) =~= Seq::<TaskRecord>::empty());
    assert(items + tag_items(tasks@.take(0), vv, kind@, prefix@) =~= items);
    while k < tasks.len()
        invariant
            k <= tasks@.len(),
            vv == crate::pane::context::strings_view(vt@),
            distinct_items(candidates_view(cl.helper.candidates@)),
            candidates_view(cl.helper.candidates@) == added(c0, items + tag_items(tasks@.take(k as int), vv, kind@, prefix@)),
            cl.helper.context == old(cl).helper.context,
            cl.helper.input == old(cl).helper.input,
            cl.current == old(cl).current,
            cl.pos == old(cl).pos,
            cl.state == old(cl).state,
        decreases tasks.len() - k,
    {
        let ghost base = items + tag_items(tasks@.take(k as int), vv, kind@, prefix@);
        assert(tasks@.take(k + 1).drop_last() =~= tasks@.take(k as int));
        assert(tasks@.take(k + 1).last() == tasks@[k as int]);
        match &tasks[k].tags {
            Some(tags) => {
                let ghost ts = crate::pane::context::strings_view(tags@);
                assert(crate::task::tags_of(tasks@[k as int]) == Some(ts));
                let mut j: usize = 0;
                assert(base + tag_list_items(ts.take(0), vv, kind@, prefix@) =~= base);
                while j < tags.len()
                    invariant
                        j <= tags@.len(),
                        ts == crate::pane::context::strings_view(tags@),
                        vv == crate::pane::context::strings_view(vt@),
                        distinct_items(candidates_view(cl.helper.candidates@)),
                        candidates_view(cl.helper.candidates@) == added(c0, base + tag_list_items(ts.take(j as int), vv, kind@, prefix@)),
                        cl.helper.context == old(cl).helper.context,
                        cl.helper.input == old(cl).helper.input,
                        cl.current == old(cl).current,
                        cl.pos == old(cl).pos,
                        cl.state == old(cl).state,
                    decreases tags.len() - j,
                {
                    assert(ts.take(j + 1).drop_last() =~= ts.take(j as int));
                    assert(ts.take(j + 1).last() == tags@[j as int]@);
                    let ghost before = base + tag_list_items(ts.take(j as int), vv, kind@, prefix@);
                    if !contains_text(vt, &tags[j]) {
                        let mut t = crate::text::chars_of(prefix);
                        crate::text::push_str(&mut t, tags[j].as_str());
                        let text = crate::text::string_of(t.as_slice());
                        add_item(cl, kind, text, Ghost(c0), Ghost(before));
                        assert(base + tag_list_items(ts.take(j + 1), vv, kind@, prefix@) =~= before.push((kind@, prefix@ + tags@[j as int]@)));
                    } else {
                        assert(base + tag_list_items(ts.take(j + 1), vv, kind@, prefix@) =~= before);
                    }
                    j += 1;
                }
                assert(ts.take(tags@.len() as int) =~= ts);
                assert(items + tag_items(tasks@.take(k + 1), vv, kind@, prefix@) =~= base + tag_list_items(ts, vv, kind@, prefix@));
            },
            None => {
                assert(items + tag_items(tasks@.take(k + 1), vv, kind@, prefix@) =~= base);
            },
        }
        k += 1;
    }
    assert(tasks@.take(tasks@.len() as int) =~= tasks@);
}

fn add_project_items(cl: &mut CompletionList, tasks: &Vec<TaskRecord>, Ghost(c0): Ghost<Seq<Item>>, Ghost(items): Ghost<Seq<Item>>)
    requires
        distinct_items(candidates_view(old(cl).helper.candidates@)),
        candidates_view(old(cl).helper.candidates@) == added(c0, items),
    ensures
        distinct_items(candidates_view(final(cl).helper.candidates@)),
        candidates_view(final(cl).helper.candidates@) == added(c0, items + project_items(tasks@)),
        final(cl).helper.context == old(cl).helper.context,
        final(cl).helper.input == old(cl).helper.input,
        final(cl).current == old(cl).current,
        final(cl).pos == old(cl).pos,
        final(cl).state == old(cl).state,
{
    let mut k: usize = 0;
    assert(items + project_items(tasks@.take(0)) =~= items);
    while k < tasks.len()
        invariant
            k <= tasks@.len(),
            distinct_items(candidates_view(cl.helper.candidates@)),
            candidates_view(cl.helper.candidates@) == added(c0, items + project_items(tasks@.take(k as int))),
            cl.helper.context == old(cl).helper.context,
            cl.helper.input == old(cl).helper.input,
            cl.current == old(cl).current,
            cl.pos == old(cl).pos,
            cl.state == old(cl).state,
        decreases tasks.len() - k,
    {
        let ghost base = items + project_items(tasks@.take(k as int));
        assert(tasks@.take(k + 1).drop_last() =~= tasks@.take(k as int));
        assert(tasks@.take(k + 1).last() == tasks@[k as int]);
        match &tasks[k].project {
            Some(p) => {
                let pc = crate::text::chars_of(p.as_str());
                let space = vec![' '];
                let has_space = crate::text::contains_chars(pc.as_slice(), space.as_slice());
                proof {
                    assert(space@ == seq![' ']);
                    if p@.contains(' ') {
                        let i = choose|i: int| 0 <= i < p@.len() && p@[i] == ' ';
                        assert(pc@.subrange(i, i + 1) =~= seq![' ']);
                        assert(crate::text::occurs_at(pc@, space@, i));
                    }
                    if crate::text::contains(pc@, space@) {
                        let i = choose|i: int| crate::text::occurs_at(pc@, space@, i);
                        assert(pc@.subrange(i, i + 1)[0] == ' ');
                        assert(p@[i] == ' ');
                    }
                }
                let text = if has_space {
                    let mut q: Vec<char> = Vec::new();
                    q.push('"');
                    crate::text::push_all(&mut q, pc.as_slice());
                    q.push('"');
                    crate::text::string_of(q.as_slice())
                } else {
                    p.clone()
                };
                assert(text@ == project_text(p@));
                add_item(cl, "project", text, Ghost(c0), Ghost(base));
                assert(items + project_items(tasks@.take(k + 1)) =~= base.push(("project"@, project_text(p@))));
            },
            None => {
                assert(items + project_items(tasks@.take(k + 1)) =~= base);
            },
        }
        k += 1;
    }
    assert(tasks@.take(tasks@.len() as int) =~= tasks@);
}

fn date_of(t: &TaskRecord, field: DateField) -> (r: Option<i64>)
    ensures
        match date_in(*t, field) {
            Some(d) => r == Some(d.seconds),
            None => r is None,
        },
{
    let d = match field {
        DateField::Due => &t.due,
        DateField::Wait => &t.wait,
        DateField::Scheduled => &t.scheduled,
        DateField::End => &t.end,
    };
    match d {
        Some(x) => Some(x.seconds),
        None => None,
    }
}

fn field_name_of(field: DateField) -> (r: &'static str)
    ensures
        r@ == field_name(field),
{
    match field {
        DateField::Due => "due",
        DateField::Wait => "wait",
        DateField::Scheduled => "scheduled",
        DateField::End => "end",
    }
}

fn add_date_items(
    cl: &mut CompletionList,
    tasks: &Vec<TaskRecord>,
    field: DateField,
    off: i32,
    Ghost(c0): Ghost<Seq<Item>>,
    Ghost(items): Ghost<Seq<Item>>,
)
    requires
        distinct_items(candidates_view(old(cl).helper.candidates@)),
        candidates_view(old(cl).helper.candidates@) == added(c0, items),
        -crate::task::OFFSET_LIMIT < off < crate::task::OFFSET_LIMIT,
        forall|k: int| 0 <= k < tasks@.len() ==> #[trigger] task_dates_in_range(tasks@[k]),
    ensures
        distinct_items(candidates_view(final(cl).helper.candidates@)),
        candidates_view(final(cl).helper.candidates@) == added(c0, items + date_items(tasks@, field, off as int)),
        final(cl).helper.context == old(cl).helper.context,
        final(cl).helper.input == old(cl).helper.input,
        final(cl).current == old(cl).current,
        final(cl).pos == old(cl).pos,
        final(cl).state == old(cl).state,
{
    let mut k: usize = 0;
    assert(items + date_items(tasks@.take(0), field, off as int) =~= items);
    while k < tasks.len()
        invariant
            k <= tasks@.len(),
            -crate::task::OFFSET_LIMIT < off < crate::task::OFFSET_LIMIT,
            forall|k: int| 0 <= k < tasks@.len() ==> #[trigger] task_dates_in_range(tasks@[k]),
            distinct_items(candidates_view(cl.helper.candidates@)),
            candidates_view(cl.helper.candidates@) == added(c0, items + date_items(tasks@.take(k as int), field, off as int)),
            cl.helper.context == old(cl).helper.context,
            cl.helper.input == old(cl).helper.input,
            cl.current == old(cl).current,
            cl.pos == old(cl).pos,
            cl.state == old(cl).state,
        decreases tasks.len() - k,
    {
        let ghost base = items + date_items(tasks@.take(k as int), field, off as int);
        assert(tasks@.take(k + 1).drop_last() =~= tasks@.take(k as int));
        assert(tasks@.take(k + 1).last() == tasks@[k as int]);
        assert(task_dates_in_range(tasks@[k as int]));
        match date_of(&tasks[k], field) {
            Some(sec) => {
                match get_formatted_datetime(sec, off) {
                    Some(text) => {
                        add_item(cl, field_name_of(field), text, Ghost(c0), Ghost(base));
                        assert(items + date_items(tasks@.take(k + 1), field, off as int) =~= base.push((field_name(field), text@)));
                    },
                    None => {
                        assert(items + date_items(tasks@.take(k + 1), field, off as int) =~= base);
                    },
                }
            },
            None => {
                assert(items + date_items(tasks@.take(k + 1), field, off as int) =~= base);
            },
        }
        k += 1;
    }
    assert(tasks@.take(tasks@.len() as int) =~= tasks@);
}

fn word_start_index(s: &[char], k: usize) -> (r: usize)
    requires
        k <= s@.len(),
    ensures
        r as int == crate::completion::word_start(s@, k as int),
        r <= k,
{
    let mut j = k;
    while j > 0 && !(s[j - 1] == ' ' || s[j - 1] == '(' || s[j - 1] == ')')
        invariant
            j <= k <= s@.len(),
            crate::completion::word_start(s@, k as int) == crate::completion::word_start(s@, j as int),
        decreases j,
    {
        j -= 1;
    }
    j
}

impl TaskwarriorTui {
    /// The tasks that completion draws on: all tasks, or those of the report.
    pub open spec fn completion_tasks(&self) -> Seq<TaskRecord> {
        if self.config.uda_task_report_use_all_tasks_for_completion {
            self.all_tasks@
        } else {
            self.tasks@
        }
    }

    /// Fill the completion list for the current mode: attribute names,
    /// modifiers, priorities, tags, projects and dates while a line of task
    /// arguments is typed, and statuses while filtering; each candidate once.
    pub fn update_completion_list(&mut self)
        requires
            -crate::task::OFFSET_LIMIT < old(self).utc_offset < crate::task::OFFSET_LIMIT,
            forall|k: int|
                0 <= k < old(self).completion_tasks().len() ==> #[trigger] task_dates_in_range(
                    old(self).completion_tasks()[k],
                ),
        ensures
            candidates_view(final(self).completion_list.helper.candidates@) == added(
                Seq::empty(),
                completion_items(
                    old(self).mode,
                    old(self).completion_tasks(),
                    crate::pane::context::strings_view(old(self).config.uda_priority_values@),
                    crate::pane::context::strings_view(old(self).task_report_table.virtual_tags@),
                    old(self).utc_offset as int,
                ),
            ),
            distinct_items(candidates_view(final(self).completion_list.helper.candidates@)),
            final(self).completion_list.state.selected == None::<usize>,
            final(self).completion_list.helper.context == old(self).completion_list.helper.context,
            final(self).completion_list.helper.input == old(self).completion_list.helper.input,
            final(self).completion_list.current == old(self).completion_list.current,
            final(self).completion_list.pos == old(self).completion_list.pos,
            *final(self) == (TaskwarriorTui { completion_list: final(self).completion_list, ..*old(self) }),
    {
        let ghost before = *self;
        let mut cl = CompletionList::new();
        std::mem::swap(&mut cl, &mut self.completion_list);
        cl.clear();
        let ghost c0 = Seq::<Item>::empty();
        assert(candidates_view(cl.helper.candidates@) =~= c0);
        let ghost mut done = Seq::<Item>::empty();
        assert(added(c0, done) == c0);
        let use_all = self.config.uda_task_report_use_all_tasks_for_completion;
        let tasks = if use_all {
            &self.all_tasks
        } else {
            &self.tasks
        };
        assert(tasks@ == before.completion_tasks());
        assert(forall|k: int| 0 <= k < tasks@.len() ==> #[trigger] task_dates_in_range(tasks@[k]));
        let ghost vt = crate::pane::context::strings_view(self.task_report_table.virtual_tags@);
        let m = self.mode;
        let ed = m == Mode::TaskModify || m == Mode::TaskFilter || m == Mode::TaskAnnotate || m == Mode::TaskAdd || m
            == Mode::TaskLog;
        if ed {
            add_attribute_items(&mut cl, Ghost(c0), Ghost(done));
            proof {
                done = done + attribute_items();
            }
            add_modifier_items(&mut cl, Ghost(c0), Ghost(done));
            proof {
                done = done + modifier_items();
            }
            add_priority_items(&mut cl, &self.config.uda_priority_values, Ghost(c0), Ghost(done));
            proof {
                done = done + priority_items(crate::pane::context::strings_view(self.config.uda_priority_values@));
            }
            add_tag_items(&mut cl, tasks, &self.task_report_table.virtual_tags, "tag", "tag:", Ghost(c0), Ghost(done));
            proof {
                done = done + tag_items(tasks@, vt, "tag"@, "tag:"@);
            }
            add_tag_items(&mut cl, tasks, &self.task_report_table.virtual_tags, "+", "+", Ghost(c0), Ghost(done));
            proof {
                done = done + tag_items(tasks@, vt, "+"@, "+"@);
            }
            add_project_items(&mut cl, tasks, Ghost(c0), Ghost(done));
            proof {
                done = done + project_items(tasks@);
            }
            add_date_items(&mut cl, tasks, DateField::Due, self.utc_offset, Ghost(c0), Ghost(done));
            proof {
                done = done + date_items(tasks@, DateField::Due, self.utc_offset as int);
            }
            add_date_items(&mut cl, tasks, DateField::Wait, self.utc_offset, Ghost(c0), Ghost(done));
            proof {
                done = done + date_items(tasks@, DateField::Wait, self.utc_offset as int);
            }
            add_date_items(&mut cl, tasks, DateField::Scheduled, self.utc_offset, Ghost(c0), Ghost(done));
            proof {
                done = done + date_items(tasks@, DateField::Scheduled, self.utc_offset as int);
            }
            add_date_items(&mut cl, tasks, DateField::End, self.utc_offset, Ghost(c0), Ghost(done));
            proof {
                done = done + date_items(tasks@, DateField::End, self.utc_offset as int);
            }
        }
        if m == Mode::TaskFilter {
            add_status_items(&mut cl, Ghost(c0), Ghost(done));
            proof {
                done = done + status_items();
            }
        }
        proof {
            let items = completion_items(
                before.mode,
                before.completion_tasks(),
                crate::pane::context::strings_view(before.config.uda_priority_values@),
                vt,
                before.utc_offset as int,
            );
            assert(done =~= items);
        }
        std::mem::swap(&mut cl, &mut self.completion_list);
    }

    /// Give the completion list the word under the cursor of the line being
    /// typed in the current mode.
    pub fn update_input_for_completion(&mut self)
        requires
            crate::completion::is_char_boundary(old(self).command.value@, old(self).command.cursor as int),
            crate::completion::is_char_boundary(old(self).modify.value@, old(self).modify.cursor as int),
            crate::completion::is_char_boundary(old(self).filter.value@, old(self).filter.cursor as int),
        ensures
            ({
                let line = match old(self).mode {
                    Mode::TaskAdd | Mode::TaskAnnotate | Mode::TaskLog => Some(old(self).command),
                    Mode::TaskModify => Some(old(self).modify),
                    Mode::TaskFilter => Some(old(self).filter),
                    _ => None,
                };
                match line {
                    Some(l) => {
                        let k = crate::completion::char_index_at(l.value@, l.cursor as int);
                        let w = l.value@.subrange(crate::completion::word_start(l.value@, k), k);
                        &&& final(self).completion_list.current@ == crate::completion::word_and_context(w).0
                        &&& final(self).completion_list.helper.context@ == crate::completion::word_and_context(w).1
                        &&& final(self).completion_list.helper.input@ == Seq::<char>::empty()
                        &&& final(self).completion_list.helper.candidates == old(self).completion_list.helper.candidates
                    },
                    None => final(self).completion_list == old(self).completion_list,
                }
            }),
            *final(self) == (TaskwarriorTui { completion_list: final(self).completion_list, ..*old(self) }),
    {
        let line = match self.mode {
            Mode::TaskAdd | Mode::TaskAnnotate | Mode::TaskLog => &self.command,
            Mode::TaskModify => &self.modify,
            Mode::TaskFilter => &self.filter,
            _ => {
                return;
            },
        };
        let chars = crate::text::chars_of(line.value.as_str());
        let k = crate::completion::char_index(chars.as_slice(), line.cursor);
        let start = word_start_index(chars.as_slice(), k);
        let word = crate::text::slice_range(chars.as_slice(), start, k);
        let input = crate::text::string_of(word.as_slice());
        self.completion_list.input(input, String::new());
    }
}

/// Moving to the next task and back returns to the same task, when the
/// cursor loops.
pub proof fn law_next_then_previous(cur: int, len: int)
    requires
        0 <= cur < len,
    ensures
        previous_index(next_index(cur, len, true), len, true) == cur,
        next_index(previous_index(cur, len, true), len, true) == cur,
{
}

/// Moving the cursor keeps it on a task, whatever the key.
pub proof fn law_cursor_stays_on_a_task(cur: int, len: int, h: int, looping: bool)
    requires
        0 <= cur < len,
        0 <= h,
    ensures
        0 <= next_index(cur, len, looping) < len,
        0 <= previous_index(cur, len, looping) < len,
        0 <= next_page_index(cur, len, h, looping) < len,
        0 <= previous_page_index(cur, len, h, looping) < len,
{
}

/// Toggling the mark of a task twice leaves the marks as they were.
pub proof fn law_toggle_mark_twice(s: Set<u128>, u: u128)
    ensures
        toggled(toggled(s, u), u) == s,
{
    if s.contains(u) {
        assert(s.remove(u).insert(u) =~= s);
    } else {
        assert(s.insert(u).remove(u) =~= s);
    }
}

} // verus!

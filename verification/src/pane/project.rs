//! The projects pane: the projects of `task summary`, the marked ones, and
//! the filter that selects their tasks.
use vstd::prelude::*;

use crate::app::{TaskwarriorTui, TextInput};
use crate::history::{history_accepts, history_insert};
use crate::pane::context::strings_view;
use crate::table::{TableMode, TaskwarriorTuiTableState};
use crate::text::{
    chars_eq_str, chars_of, decimal_chars, decimal_of, push_all, push_str, replace_all, replace_all_chars,
    split_char, split_chars, string_of, trim, trim_chars,
};

verus! {

/// The header of the name column.
pub const PROJECT_HEADER: &'static str = "Name";

/// The header of the column of remaining tasks.
pub const REMAINING_TASK_HEADER: &'static str = "Remaining";

/// The header of the column of average ages.
pub const AVG_AGE_HEADER: &'static str = "Avg age";

/// The header of the column of completion.
pub const COMPLETE_HEADER: &'static str = "Complete";

/// A row of the projects pane.
#[derive(Debug, Clone)]
pub struct ProjectDetails {
    pub name: String,
    pub remaining: usize,
    pub avg_age: String,
    pub complete: String,
}

/// The projects pane.
pub struct ProjectsState {
    pub list: Vec<String>,
    pub table_state: TaskwarriorTuiTableState,
    pub current_selection: usize,
    /// The marked projects, each once.
    pub marked: Vec<String>,
    pub columns: Vec<String>,
    pub rows: Vec<ProjectDetails>,
    pub data: String,
}

/// Whether `c` is numeric, as `char::is_numeric` says.
pub uninterp spec fn numeric(c: char) -> bool;

/// `char::is_numeric`: whether the character's general category is a
/// number category. The contract names the result.
#[verifier::external_body]
fn is_numeric(c: char) -> (r: bool)
    ensures
        r == numeric(c),
{
    c.is_numeric()
}

/// The pattern that selects the tasks of the marked projects:
/// `'(project:A or project:B)'`, `(none)` written as a space; nothing when
/// none is marked.
pub open spec fn project_pattern(marked: Seq<Seq<char>>) -> Seq<char> {
    if marked.len() == 0 {
        Seq::empty()
    } else {
        project_terms(marked) + ")'"@
    }
}

/// How a marked project is written in the pattern.
pub open spec fn project_name_in_pattern(p: Seq<char>) -> Seq<char> {
    if p == "(none)"@ {
        " "@
    } else {
        p
    }
}

/// The pattern of the marked projects without its closing bracket and quote.
pub open spec fn project_terms(marked: Seq<Seq<char>>) -> Seq<char>
    decreases marked.len(),
{
    if marked.len() == 0 {
        Seq::empty()
    } else if marked.len() == 1 {
        "'(project:"@ + project_name_in_pattern(marked[0])
    } else {
        project_terms(marked.drop_last()) + " or project:"@ + project_name_in_pattern(marked.last())
    }
}

/// The line of `task summary` that closes the table: two words, a number
/// and `project` or `projects`.
pub open spec fn is_last_line(line: Seq<char>) -> bool {
    let words = split_char(trim(line), ' ');
    &&& words.len() == 2
    &&& forall|i: int| 0 <= i < trim(words[0]).len() ==> numeric(#[trigger] trim(words[0])[i])
    &&& (trim(words[1]) == "project"@ || trim(words[1]) == "projects"@)
}

/// The set of marked projects.
pub open spec fn marked_names(m: Seq<String>) -> Set<Seq<char>> {
    strings_view(m).to_set()
}

/// No project is marked twice.
pub open spec fn names_unique(m: Seq<String>) -> bool {
    forall|a: int, b: int| 0 <= a < b < m.len() ==> #[trigger] m[a]@ != #[trigger] m[b]@
}

/// The first row of `list` holding `p`.
#[verifier::opaque]
pub open spec fn row_of(list: Seq<String>, p: Seq<char>) -> Option<int> {
    if exists|k: int| 0 <= k < list.len() && list[k]@ == p && forall|m: int| 0 <= m < k ==> list[m]@ != p {
        Some(
            choose|k: int|
                0 <= k < list.len() && list[k]@ == p && forall|m: int| 0 <= m < k ==> list[m]@ != p,
        )
    } else {
        None
    }
}

fn row_position(list: &Vec<String>, p: &String) -> (r: Option<usize>)
    ensures
        match r {
            Some(k) => k < list@.len() && row_of(list@, p@) == Some(k as int),
            None => row_of(list@, p@) is None,
        },
{
    reveal(row_of);
    let pc = chars_of(p.as_str());
    let mut k: usize = 0;
    while k < list.len()
        invariant
            k <= list@.len(),
            pc@ == p@,
            forall|m: int| 0 <= m < k ==> list@[m]@ != p@,
        decreases list.len() - k,
    {
        if crate::text::chars_eq(chars_of(list[k].as_str()).as_slice(), pc.as_slice()) {
            proof {
                reveal(row_of);
                let c = choose|c: int|
                    0 <= c < list@.len() && list@[c]@ == p@ && forall|m: int| 0 <= m < c ==> list@[m]@ != p@;
                if c < k {
                } else if c > k {
                    assert(list@[k as int]@ == p@);
                }
            }
            return Some(k);
        }
        k += 1;
    }
    None
}

fn marked_index(marked: &Vec<String>, p: &String) -> (r: Option<usize>)
    ensures
        match r {
            Some(k) => k < marked@.len() && marked@[k as int]@ == p@,
            None => forall|m: int| 0 <= m < marked@.len() ==> marked@[m]@ != p@,
        },
{
    let pc = chars_of(p.as_str());
    let mut k: usize = 0;
    while k < marked.len()
        invariant
            k <= marked@.len(),
            pc@ == p@,
            forall|m: int| 0 <= m < k ==> marked@[m]@ != p@,
        decreases marked.len() - k,
    {
        if crate::text::chars_eq(chars_of(marked[k].as_str()).as_slice(), pc.as_slice()) {
            return Some(k);
        }
        k += 1;
    }
    None
}

impl ProjectsState {
    /// The pane with no project, the four columns of `task summary`.
    pub fn new() -> (r: Self)
        ensures
            r.list@.len() == 0,
            r.marked@.len() == 0,
            r.rows@.len() == 0,
            r.current_selection == 0,
            r.data@.len() == 0,
            strings_view(r.columns@) == seq!["Name"@, "Remaining"@, "Avg age"@, "Complete"@],
            r.table_state.wf(),
            r.table_state.selection() == None::<usize>,
            r.table_state.table_mode() == TableMode::SingleSelection,
            r.table_state.marked_rows() == Set::<usize>::empty(),
    {
        let mut columns: Vec<String> = Vec::new();
        columns.push(string_of(chars_of(PROJECT_HEADER).as_slice()));
        columns.push(string_of(chars_of(REMAINING_TASK_HEADER).as_slice()));
        columns.push(string_of(chars_of(AVG_AGE_HEADER).as_slice()));
        columns.push(string_of(chars_of(COMPLETE_HEADER).as_slice()));
        assert(strings_view(columns@) =~= seq!["Name"@, "Remaining"@, "Avg age"@, "Complete"@]);
        ProjectsState {
            list: Vec::new(),
            table_state: TaskwarriorTuiTableState::new(),
            current_selection: 0,
            marked: Vec::new(),
            columns,
            rows: Vec::new(),
            data: String::new(),
        }
    }

    /// The pattern that selects the tasks of the marked projects.
    pub fn pattern_by_marked(marked: &Vec<String>) -> (r: String)
        ensures
            r@ == project_pattern(strings_view(marked@)),
    {
        let ghost mv = strings_view(marked@);
        if marked.len() == 0 {
            return String::new();
        }
        let mut out: Vec<char> = Vec::new();
        let mut i: usize = 0;
        while i < marked.len()
            invariant
                i <= marked@.len(),
                mv == strings_view(marked@),
                out@ == project_terms(mv.take(i as int)),
            decreases marked.len() - i,
        {
            let name = chars_of(marked[i].as_str());
            let shown = if chars_eq_str(name.as_slice(), "(none)") {
                chars_of(" ")
            } else {
                name
            };
            assert(mv.take(i + 1).drop_last() =~= mv.take(i as int));
            assert(mv.take(i + 1).last() == mv[i as int]);
            if i == 0 {
                out = chars_of("'(project:");
                push_all(&mut out, shown.as_slice());
                assert(mv.take(1) =~= seq![mv[0]]);
            } else {
                push_str(&mut out, " or project:");
                push_all(&mut out, shown.as_slice());
            }
            i += 1;
        }
        assert(mv.take(marked@.len() as int) =~= mv);
        push_str(&mut out, ")'");
        string_of(out.as_slice())
    }

    /// Mark the project under the cursor, or unmark it if it is marked.
    pub fn toggle_mark(&mut self)
        requires
            names_unique(old(self).marked@),
            old(self).list@.len() > 0 ==> old(self).current_selection < old(self).list@.len(),
        ensures
            names_unique(final(self).marked@),
            marked_names(final(self).marked@) == if old(self).list@.len() > 0 {
                let p = old(self).list@[old(self).current_selection as int]@;
                if marked_names(old(self).marked@).contains(p) {
                    marked_names(old(self).marked@).remove(p)
                } else {
                    marked_names(old(self).marked@).insert(p)
                }
            } else {
                marked_names(old(self).marked@)
            },
            final(self).list == old(self).list,
            final(self).current_selection == old(self).current_selection,
            final(self).table_state == old(self).table_state,
    {
        if self.list.len() == 0 {
            return;
        }
        let p = self.list[self.current_selection].clone();
        let ghost before = self.marked@;
        let ghost pv = p@;
        match marked_index(&self.marked, &p) {
            Some(k) => {
                assert(strings_view(before)[k as int] == pv);
                assert(marked_names(before).contains(pv));
                self.marked.remove(k);
                proof {
                    assert(self.marked@ =~= before.remove(k as int));
                    assert forall|a: int, b: int| 0 <= a < b < self.marked@.len() implies #[trigger] self.marked@[a]@
                        != #[trigger] self.marked@[b]@ by {
                        let a2 = if a < k { a } else { a + 1 };
                        let b2 = if b < k { b } else { b + 1 };
                        assert(before[a2]@ != before[b2]@);
                    }
                    assert(marked_names(self.marked@) =~= marked_names(before).remove(pv)) by {
                        assert forall|x: Seq<char>| marked_names(self.marked@).contains(x) <==> marked_names(before).remove(
                            pv,
                        ).contains(x) by {
                            if marked_names(self.marked@).contains(x) {
                                let i = choose|i: int| 0 <= i < strings_view(self.marked@).len() && strings_view(self.marked@)[i] == x;
                                let i2 = if i < k { i } else { i + 1 };
                                assert(strings_view(before)[i2] == x);
                                if x == pv {
                                    if i2 < k {
                                        assert(before[i2]@ != before[k as int]@);
                                    } else {
                                        assert(before[k as int]@ != before[i2]@);
                                    }
                                }
                            }
                            if marked_names(before).contains(x) && x != pv {
                                let i = choose|i: int| 0 <= i < strings_view(before).len() && strings_view(before)[i] == x;
                                assert(i != k);
                                let i2 = if i < k { i } else { i - 1 };
                                assert(strings_view(self.marked@)[i2] == x);
                            }
                        }
                    }
                }
            },
            None => {
                self.marked.push(p);
                proof {
                    assert forall|a: int, b: int| 0 <= a < b < self.marked@.len() implies #[trigger] self.marked@[a]@
                        != #[trigger] self.marked@[b]@ by {
                        if b < before.len() {
                            assert(before[a]@ != before[b]@);
                        }
                    }
                    assert(marked_names(self.marked@) =~= marked_names(before).insert(pv)) by {
                        assert forall|x: Seq<char>| marked_names(self.marked@).contains(x) <==> marked_names(before).insert(
                            pv,
                        ).contains(x) by {
                            if marked_names(self.marked@).contains(x) {
                                let i = choose|i: int| 0 <= i < strings_view(self.marked@).len() && strings_view(self.marked@)[i] == x;
                                if i < before.len() {
                                    assert(strings_view(before)[i] == x);
                                }
                            }
                            if marked_names(before).contains(x) {
                                let i = choose|i: int| 0 <= i < strings_view(before).len() && strings_view(before)[i] == x;
                                assert(strings_view(self.marked@)[i] == x);
                            }
                            if x == pv {
                                assert(strings_view(self.marked@)[before.len() as int] == x);
                            }
                        }
                    }
                    assert(!marked_names(before).contains(pv)) by {
                        if marked_names(before).contains(pv) {
                            let i = choose|i: int| 0 <= i < strings_view(before).len() && strings_view(before)[i] == pv;
                            assert(before[i]@ == pv);
                        }
                    }
                }
            },
        }
    }

    /// The rows of the pane as text, and its column headers.
    pub fn simplified_view(&self) -> (r: (Vec<Vec<String>>, Vec<String>))
        ensures
            r.0@.len() == self.rows@.len(),
            forall|i: int|
                0 <= i < self.rows@.len() ==> strings_view(#[trigger] r.0@[i]@) == seq![
                    self.rows@[i].name@,
                    decimal_of(self.rows@[i].remaining as nat),
                    self.rows@[i].avg_age@,
                    self.rows@[i].complete@,
                ],
            strings_view(r.1@) == strings_view(self.columns@),
    {
        let mut rows: Vec<Vec<String>> = Vec::new();
        let mut i: usize = 0;
        while i < self.rows.len()
            invariant
                i <= self.rows@.len(),
                rows@.len() == i,
                forall|k: int|
                    0 <= k < i ==> strings_view(#[trigger] rows@[k]@) == seq![
                        self.rows@[k].name@,
                        decimal_of(self.rows@[k].remaining as nat),
                        self.rows@[k].avg_age@,
                        self.rows@[k].complete@,
                    ],
            decreases self.rows.len() - i,
        {
            let d = &self.rows[i];
            let mut row: Vec<String> = Vec::new();
            row.push(d.name.clone());
            row.push(string_of(decimal_chars(d.remaining as u64).as_slice()));
            row.push(d.avg_age.clone());
            row.push(d.complete.clone());
            assert(strings_view(row@) =~= seq![
                self.rows@[i as int].name@,
                decimal_of(self.rows@[i as int].remaining as nat),
                self.rows@[i as int].avg_age@,
                self.rows@[i as int].complete@,
            ]);
            rows.push(row);
            i += 1;
        }
        let mut headers: Vec<String> = Vec::new();
        let mut j: usize = 0;
        while j < self.columns.len()
            invariant
                j <= self.columns@.len(),
                strings_view(headers@) == strings_view(self.columns@).take(j as int),
            decreases self.columns.len() - j,
        {
            let ghost old_h = headers@;
            let h = self.columns[j].clone();
            assert(h@ == self.columns@[j as int]@);
            headers.push(h);
            assert(strings_view(headers@) =~= strings_view(old_h).push(self.columns@[j as int]@));
            assert(strings_view(self.columns@).take(j + 1) =~= strings_view(self.columns@).take(j as int).push(
                self.columns@[j as int]@,
            ));
            j += 1;
        }
        assert(strings_view(self.columns@).take(self.columns@.len() as int) =~= strings_view(self.columns@));
        (rows, headers)
    }

    /// Whether `line` is the line of `task summary` that closes the table.
    pub fn last_line(&self, line: &str) -> (r: bool)
        ensures
            r == is_last_line(line@),
    {
        let t = trim_chars(chars_of(line).as_slice());
        let words = split_chars(t.as_slice(), ' ');
        if words.len() != 2 {
            return false;
        }
        let w0 = trim_chars(words[0].as_slice());
        let w1 = trim_chars(words[1].as_slice());
        let mut i: usize = 0;
        while i < w0.len()
            invariant
                i <= w0@.len(),
                w0@ == trim(split_char(trim(line@), ' ')[0]),
                forall|k: int| 0 <= k < i ==> numeric(#[trigger] w0@[k]),
            decreases w0.len() - i,
        {
            if !is_numeric(w0[i]) {
                assert(w0@ == trim(split_char(trim(line@), ' ')[0]));
                assert(!numeric(trim(split_char(trim(line@), ' ')[0])[i as int]));
                return false;
            }
            i += 1;
        }
        chars_eq_str(w1.as_slice(), "project") || chars_eq_str(w1.as_slice(), "projects")
    }

    /// Select the row under the cursor; with no project marked act on it,
    /// else mark the rows of the marked projects.
    pub fn update_table_state(&mut self)
        requires
            old(self).table_state.wf(),
        ensures
            final(self).table_state.wf(),
            final(self).table_state.selection() == Some(old(self).current_selection),
            old(self).marked@.len() == 0 ==> final(self).table_state.table_mode() == TableMode::SingleSelection
                && final(self).table_state.marked_rows() == old(self).table_state.marked_rows(),
            old(self).marked@.len() > 0 ==> final(self).table_state.table_mode() == TableMode::MultipleSelection
                && final(self).table_state.marked_rows() == rows_of_marked(
                old(self).list@,
                old(self).marked@,
                old(self).marked@.len() as int,
            ),
            final(self).list == old(self).list,
            final(self).marked == old(self).marked,
            final(self).current_selection == old(self).current_selection,
    {
        self.table_state.select(Some(self.current_selection));
        if self.marked.len() == 0 {
            self.table_state.single_selection();
            return;
        }
        self.table_state.multiple_selection();
        self.table_state.clear();
        assert(rows_of_marked(self.list@, self.marked@, 0) =~= Set::<usize>::empty());
        let mut k: usize = 0;
        while k < self.marked.len()
            invariant
                k <= self.marked@.len(),
                self.list == old(self).list,
                self.marked == old(self).marked,
                self.current_selection == old(self).current_selection,
                self.table_state.wf(),
                self.table_state.selection() == Some(self.current_selection),
                self.table_state.table_mode() == TableMode::MultipleSelection,
                self.table_state.marked_rows() == rows_of_marked(self.list@, self.marked@, k as int),
            decreases self.marked.len() - k,
        {
            let index = row_position(&self.list, &self.marked[k]);
            assert(self.list@.len() == self.list.len());
            proof {
                lemma_rows_of_marked_step(self.list@, self.marked@, k as int);
            }
            self.table_state.mark(index);
            k += 1;
        }
    }
}

/// The rows of the first `k` marked projects.
pub open spec fn rows_of_marked(list: Seq<String>, marked: Seq<String>, k: int) -> Set<usize> {
    Set::new(|i: usize| exists|q: int| 0 <= q < k && row_of(list, #[trigger] marked[q]@) == Some(i as int))
}

proof fn lemma_rows_of_marked_step(list: Seq<String>, marked: Seq<String>, k: int)
    requires
        0 <= k < marked.len(),
        list.len() <= usize::MAX,
    ensures
        rows_of_marked(list, marked, k + 1) == match row_of(list, marked[k]@) {
            Some(i) => rows_of_marked(list, marked, k).insert(i as usize),
            None => rows_of_marked(list, marked, k),
        },
{
    let r = row_of(list, marked[k]@);
    let s0 = rows_of_marked(list, marked, k);
    let a = rows_of_marked(list, marked, k + 1);
    let b = match r {
        Some(i) => s0.insert(i as usize),
        None => s0,
    };
    if r is Some {
        assert(0 <= r->0 < list.len()) by {
            reveal(row_of);
        }
    }
    assert forall|i: usize| a.contains(i) implies b.contains(i) by {
        let q = choose|q: int| 0 <= q < k + 1 && row_of(list, #[trigger] marked[q]@) == Some(i as int);
        if q < k {
            assert(s0.contains(i));
        }
    }
    assert forall|i: usize| b.contains(i) implies a.contains(i) by {
        if s0.contains(i) {
            let q = choose|q: int| 0 <= q < k && row_of(list, #[trigger] marked[q]@) == Some(i as int);
            assert(0 <= q < k + 1 && row_of(list, marked[q]@) == Some(i as int));
        } else {
            assert(row_of(list, marked[k]@) == Some(i as int));
        }
    }
    assert(a =~= b);
}

/// Move the projects pane's cursor to the next project, if there is one.
pub fn focus_on_next_project(app: &mut TaskwarriorTui)
    requires
        old(app).projects.table_state.wf(),
    ensures
        final(app).projects.table_state.wf(),
        old(app).projects.current_selection + 1 < old(app).projects.list@.len() ==> final(app).projects.current_selection
            == old(app).projects.current_selection + 1 && final(app).projects.table_state.selection() == Some(
            final(app).projects.current_selection,
        ),
        !(old(app).projects.current_selection + 1 < old(app).projects.list@.len()) ==> final(app).projects.current_selection
            == old(app).projects.current_selection && final(app).projects.table_state == old(app).projects.table_state,
        final(app).projects.list == old(app).projects.list,
        final(app).projects.marked == old(app).projects.marked,
{
    if app.projects.current_selection < app.projects.list.len().saturating_sub(1) {
        app.projects.current_selection = app.projects.current_selection + 1;
        app.projects.table_state.select(Some(app.projects.current_selection));
    }
}

/// Move the projects pane's cursor to the previous project, if there is one.
pub fn focus_on_previous_project(app: &mut TaskwarriorTui)
    requires
        old(app).projects.table_state.wf(),
    ensures
        final(app).projects.table_state.wf(),
        old(app).projects.current_selection >= 1 ==> final(app).projects.current_selection == old(
            app,
        ).projects.current_selection - 1 && final(app).projects.table_state.selection() == Some(
            final(app).projects.current_selection,
        ),
        old(app).projects.current_selection == 0 ==> final(app).projects.current_selection == 0
            && final(app).projects.table_state == old(app).projects.table_state,
        final(app).projects.list == old(app).projects.list,
        final(app).projects.marked == old(app).projects.marked,
{
    if app.projects.current_selection >= 1 {
        app.projects.current_selection = app.projects.current_selection - 1;
        app.projects.table_state.select(Some(app.projects.current_selection));
    }
}

/// The filter with the pattern of the marked projects swapped: every
/// occurrence of the old pattern taken out, the new one put at the end.
pub open spec fn filter_with_pattern(filter: Seq<char>, old_pattern: Seq<char>, new_pattern: Seq<char>) -> Seq<char> {
    replace_all(filter, old_pattern, Seq::empty()) + new_pattern
}

/// Mark or unmark the project under the cursor and make the filter select
/// the tasks of the marked projects.
pub fn update_task_filter_by_selection(app: &mut TaskwarriorTui) -> (r: Result<(), String>)
    requires
        names_unique(old(app).projects.marked@),
        old(app).projects.list@.len() > 0 ==> old(app).projects.current_selection < old(app).projects.list@.len(),
    ensures
        r is Ok,
        final(app).projects.table_state.table_mode() == TableMode::MultipleSelection,
        names_unique(final(app).projects.marked@),
        marked_names(final(app).projects.marked@) == if old(app).projects.list@.len() > 0 {
            let p = old(app).projects.list@[old(app).projects.current_selection as int]@;
            if marked_names(old(app).projects.marked@).contains(p) {
                marked_names(old(app).projects.marked@).remove(p)
            } else {
                marked_names(old(app).projects.marked@).insert(p)
            }
        } else {
            marked_names(old(app).projects.marked@)
        },
        final(app).filter.value@ == filter_with_pattern(
            old(app).filter.value@,
            project_pattern(strings_view(old(app).projects.marked@)),
            project_pattern(strings_view(final(app).projects.marked@)),
        ),
        final(app).filter.cursor == crate::completion::capped_byte_len(final(app).filter.value@),
        final(app).filter_history.settings() == old(app).filter_history.settings(),
        !old(app).filter_history.settings().2 ==> final(app).filter_history.entries() == if history_accepts(
            old(app).filter_history.entries(),
            old(app).filter_history.settings().0,
            old(app).filter_history.settings().1,
            old(app).filter.value@,
        ) {
            history_insert(old(app).filter_history.entries(), old(app).filter_history.settings().0, old(app).filter.value@)
        } else {
            old(app).filter_history.entries()
        },
{
    app.projects.table_state.multiple_selection();
    let last = ProjectsState::pattern_by_marked(&app.projects.marked);
    app.projects.toggle_mark();
    let new = ProjectsState::pattern_by_marked(&app.projects.marked);
    app.filter_history.add(app.filter.value.as_str());
    let current = chars_of(app.filter.value.as_str());
    let lc = chars_of(last.as_str());
    let empty: Vec<char> = Vec::new();
    let mut f = if lc.len() == 0 {
        current
    } else {
        replace_all_chars(current.as_slice(), lc.as_slice(), empty.as_slice())
    };
    push_str(&mut f, new.as_str());
    let n = crate::text::byte_len_chars(f.as_slice());
    app.filter = TextInput { value: string_of(f.as_slice()), cursor: n };
    Ok(())
}

} // verus!

//! The report popup: the reports that `task show` defines columns for, with
//! their descriptions and the one in use marked active.
use vstd::prelude::*;

use crate::pane::{lists_indices_where, lowered, search_hit, search_hits};
use crate::pane::context::strings_view;
use crate::table::TaskwarriorTuiTableState;
use crate::text::{
    char_vecs, chars_eq, chars_eq_str, chars_of, has_prefix, index_of_chars, lowercase, slice_range,
    sort_chars, sorted_strictly, split_char, split_chars, split_once_char, split_once_chars,
    split_once_ws, split_once_ws_chars, starts_with, string_of, trim, trim_chars,
};

verus! {

/// Header of the first column.
pub const NAME: &'static str = "Name";

/// Header of the second column.
pub const DESCRIPTION: &'static str = "Description";

/// Header of the third column.
pub const ACTIVE: &'static str = "Active";

/// How the settings of a report begin in `task show`.
pub const REPORT_PREFIX: &'static str = "report.";

/// The property that makes a report list tasks in a table.
pub const COLUMNS: &'static str = "columns";

/// The property that describes a report.
pub const DESCRIPTION_KEY: &'static str = "description";

/// Active.
pub const YES: &'static str = "yes";

/// Not active.
pub const NO: &'static str = "no";

/// One report.
#[derive(Debug, Clone, Default)]
pub struct ReportDetails {
    pub name: String,
    pub description: String,
    pub active: String,
}

impl ReportDetails {
    /// A report from its fields.
    pub fn new(name: String, description: String, active: String) -> (r: Self)
        ensures
            r.name == name,
            r.description == description,
            r.active == active,
    {
        ReportDetails { name, description, active }
    }
}

/// The report setting on a line of `task show`, `report.<name>.<property> <value>`,
/// as (name, property, value), the value trimmed.
pub open spec fn report_setting(line: Seq<char>) -> Option<(Seq<char>, Seq<char>, Seq<char>)> {
    if starts_with(line, REPORT_PREFIX@) {
        let rest = line.subrange(REPORT_PREFIX@.len() as int, line.len() as int);
        match split_once_ws(rest) {
            Some((key, value)) => match split_once_char(key, '.') {
                Some((name, property)) => Some((name, property, trim(value))),
                None => None,
            },
            None => None,
        }
    } else {
        None
    }
}

/// `line` sets the columns of report `name`.
pub open spec fn sets_columns(line: Seq<char>, name: Seq<char>) -> bool {
    report_setting(line) matches Some((n, p, _)) && n == name && p == COLUMNS@
}

/// Some line of `lines` sets the columns of report `name`.
pub open spec fn has_columns(lines: Seq<Seq<char>>, name: Seq<char>) -> bool {
    exists|i: int| 0 <= i < lines.len() && #[trigger] sets_columns(lines[i], name)
}

/// The first non-empty description of report `name` among `lines`.
pub open spec fn first_description(lines: Seq<Seq<char>>, name: Seq<char>) -> Option<Seq<char>>
    decreases lines.len(),
{
    if lines.len() == 0 {
        None
    } else {
        match first_description(lines.drop_last(), name) {
            Some(d) => Some(d),
            None => match report_setting(lines.last()) {
                Some((n, p, v)) => if n == name && p == DESCRIPTION_KEY@ && v.len() > 0 {
                    Some(v)
                } else {
                    None
                },
                None => None,
            },
        }
    }
}

/// The popup that lists the reports.
pub struct ReportsState {
    pub table_state: TaskwarriorTuiTableState,
    pub columns: Vec<String>,
    pub rows: Vec<ReportDetails>,
    /// Current search query typed by the user inside the popup.
    pub search: String,
}

/// The names of the rows.
pub open spec fn row_names(rows: Seq<ReportDetails>) -> Seq<Seq<char>> {
    rows.map_values(|r: ReportDetails| r.name@)
}

/// `rows` lists the reports that `data` defines columns for, by name in
/// increasing order, each with its first non-empty description (or none)
/// and marked active when it is `current`.
pub open spec fn lists_reports(rows: Seq<ReportDetails>, current: Seq<char>, data: Seq<char>) -> bool {
    let lines = split_char(data, '\n');
    &&& sorted_strictly(row_names(rows))
    &&& forall|n: Seq<char>| row_names(rows).contains(n) <==> has_columns(lines, n)
    &&& forall|i: int|
        0 <= i < rows.len() ==> (#[trigger] rows[i]).description@ == (match first_description(
            lines,
            rows[i].name@,
        ) {
            Some(d) => d,
            None => Seq::empty(),
        })
    &&& forall|i: int|
        0 <= i < rows.len() ==> (#[trigger] rows[i]).active@ == if rows[i].name@ == current {
            YES@
        } else {
            NO@
        }
}

/// The report setting on a line.
fn read_setting(line: &[char]) -> (r: Option<(Vec<char>, Vec<char>, Vec<char>)>)
    ensures
        match report_setting(line@) {
            Some((n, p, v)) => r matches Some((a, b, c)) && a@ == n && b@ == p && c@ == v,
            None => r is None,
        },
{
    let prefix = chars_of(REPORT_PREFIX);
    if !has_prefix(line, prefix.as_slice()) {
        return None;
    }
    let rest = slice_range(line, prefix.len(), line.len());
    match split_once_ws_chars(rest.as_slice()) {
        Some((key, value)) => match split_once_chars(key.as_slice(), '.') {
            Some((name, property)) => Some((name, property, trim_chars(value.as_slice()))),
            None => None,
        },
        None => None,
    }
}

impl ReportsState {
    /// An empty popup with its three column headers.
    pub fn new() -> (r: Self)
        ensures
            r.table_state.wf(),
            r.table_state.selection() == None::<usize>,
            r.table_state.marked_rows() == Set::<usize>::empty(),
            strings_view(r.columns@) == seq![NAME@, DESCRIPTION@, ACTIVE@],
            r.rows@.len() == 0,
            r.search@.len() == 0,
    {
        let columns = vec![String::from_str(NAME), String::from_str(DESCRIPTION), String::from_str(ACTIVE)];
        let r = ReportsState {
            table_state: TaskwarriorTuiTableState::new(),
            columns,
            rows: Vec::new(),
            search: String::new(),
        };
        assert(strings_view(r.columns@) =~= seq![NAME@, DESCRIPTION@, ACTIVE@]);
        r
    }

    /// The number of reports.
    pub fn len(&self) -> (r: usize)
        ensures
            r == self.rows@.len(),
    {
        self.rows.len()
    }

    /// Whether there is no report.
    pub fn is_empty(&self) -> (r: bool)
        ensures
            r == (self.rows@.len() == 0),
    {
        self.rows.len() == 0
    }

    /// The row at `i` matches the search.
    pub open spec fn shown(&self, i: int) -> bool {
        search_hit(lowercase(self.search@), self.rows@[i].name@, self.rows@[i].description@)
    }

    /// Returns the indices into `self.rows` that match the current search query.
    /// An empty query matches everything (the order of the list is kept).
    /// Matching is case-insensitive substring on name or description.
    pub fn filtered_indices(&self) -> (r: Vec<usize>)
        ensures
            lists_indices_where(r@, self.rows@.len(), |i: int| self.shown(i)),
    {
        let query = lowered(&self.search);
        let mut r: Vec<usize> = Vec::new();
        let mut i: usize = 0;
        while i < self.rows.len()
            invariant
                i <= self.rows@.len(),
                query@ == lowercase(self.search@),
                forall|k: int| 0 <= k < r@.len() ==> #[trigger] r@[k] < i && self.shown(r@[k] as int),
                forall|k: int, m: int| 0 <= k < m < r@.len() ==> r@[k] < r@[m],
                forall|j: int| 0 <= j < i && #[trigger] self.shown(j) ==> r@.contains(j as usize),
            decreases self.rows.len() - i,
        {
            let row = &self.rows[i];
            if search_hits(query.as_slice(), &row.name, &row.description) {
                let ghost before = r@;
                r.push(i);
                proof {
                    assert(r@[before.len() as int] == i);
                    assert forall|j: int| 0 <= j < i + 1 && #[trigger] self.shown(j) implies r@.contains(
                        j as usize,
                    ) by {
                        if j < i {
                            let k = choose|k: int| 0 <= k < before.len() && before[k] == j as usize;
                            assert(r@[k] == j as usize);
                        }
                    }
                }
            }
            i += 1;
        }
        r
    }
}


proof fn lemma_has_columns_push(lines: Seq<Seq<char>>, l: Seq<char>, n: Seq<char>)
    ensures
        has_columns(lines.push(l), n) <==> (has_columns(lines, n) || sets_columns(l, n)),
{
    let t = lines.push(l);
    if has_columns(t, n) {
        let i = choose|i: int| 0 <= i < t.len() && #[trigger] sets_columns(t[i], n);
        if i < lines.len() {
            assert(t[i] == lines[i]);
        }
    }
    if has_columns(lines, n) {
        let i = choose|i: int| 0 <= i < lines.len() && #[trigger] sets_columns(lines[i], n);
        assert(t[i] == lines[i]);
    }
    if sets_columns(l, n) {
        assert(t[lines.len() as int] == l);
    }
}

impl ReportsState {
    /// Parse the `task show` output for all reports that have columns defined
    /// (i.e. reports that produce tabular task output). Collects their name,
    /// description, and whether they are the currently active report.
    pub fn update_data(&mut self, current_report: &str, data: &str)
        ensures
            lists_reports(final(self).rows@, current_report@, data@),
            final(self).table_state == old(self).table_state,
            final(self).columns == old(self).columns,
            final(self).search == old(self).search,
    {
        let d = chars_of(data);
        let lines = split_chars(d.as_slice(), '\n');
        let ghost ls = split_char(d@, '\n');
        let columns = chars_of(COLUMNS);
        let desc_key = chars_of(DESCRIPTION_KEY);
        let mut names: Vec<Vec<char>> = Vec::new();
        let mut dnames: Vec<Vec<char>> = Vec::new();
        let mut dvalues: Vec<Vec<char>> = Vec::new();
        let mut i: usize = 0;
        proof {
            reveal_strlit("columns");
            reveal_strlit("description");
            assert(COLUMNS@.len() != DESCRIPTION_KEY@.len());
            assert(ls.take(0) =~= Seq::<Seq<char>>::empty());
            assert forall|n: Seq<char>| !has_columns(ls.take(0), n) by {}
        }
        while i < lines.len()
            invariant
                i <= lines@.len(),
                lines@.len() == ls.len(),
                forall|k: int| 0 <= k < lines@.len() ==> #[trigger] lines@[k]@ == ls[k],
                columns@ == COLUMNS@,
                desc_key@ == DESCRIPTION_KEY@,
                COLUMNS@ != DESCRIPTION_KEY@,
                char_vecs(names@).no_duplicates(),
                forall|n: Seq<char>| char_vecs(names@).contains(n) <==> has_columns(ls.take(i as int), n),
                char_vecs(dnames@).no_duplicates(),
                dnames@.len() == dvalues@.len(),
                forall|n: Seq<char>|
                    char_vecs(dnames@).contains(n) <==> first_description(ls.take(i as int), n) is Some,
                forall|k: int|
                    0 <= k < dnames@.len() ==> first_description(ls.take(i as int), #[trigger] char_vecs(
                        dnames@,
                    )[k]) == Some(dvalues@[k]@),
            decreases lines.len() - i,
        {
            let ghost t0 = ls.take(i as int);
            let ghost t1 = ls.take(i + 1);
            proof {
                assert(t1 =~= t0.push(ls[i as int]));
                assert(t1.drop_last() =~= t0);
                assert forall|n: Seq<char>|
                    has_columns(t1, n) <==> (has_columns(t0, n) || sets_columns(ls[i as int], n)) by {
                    lemma_has_columns_push(t0, ls[i as int], n);
                }
            }
            let ghost old_names = char_vecs(names@);
            let ghost old_dnames = char_vecs(dnames@);
            let ghost old_dvalues = dvalues@;
            let ghost l = ls[i as int];
            let setting = read_setting(lines[i].as_slice());
            let mut new_name: Option<Vec<char>> = None;
            let mut new_desc: Option<(Vec<char>, Vec<char>)> = None;
            match setting {
                Some((name, property, value)) => {
                    if chars_eq(property.as_slice(), columns.as_slice()) {
                        new_name = Some(name);
                    } else if chars_eq(property.as_slice(), desc_key.as_slice()) && value.len() > 0 {
                        new_desc = Some((name, value));
                    }
                },
                None => {},
            }
            proof {
                assert forall|n: Seq<char>| sets_columns(l, n) <==> (new_name matches Some(x) && x@ == n) by {}
                assert forall|n: Seq<char>|
                    first_description(t1, n) == match first_description(t0, n) {
                        Some(d) => Some(d),
                        None => match new_desc {
                            Some((x, v)) => if x@ == n { Some(v@) } else { None },
                            None => None,
                        },
                    } by {}
            }
            if let Some(name) = new_name {
                if index_of_chars(&names, name.as_slice()).is_none() {
                    names.push(name);
                    proof {
                        assert(char_vecs(names@) =~= old_names.push(name@));
                    }
                }
            }
            proof {
                assert forall|n: Seq<char>| char_vecs(names@).contains(n) <==> has_columns(t1, n) by {
                    if char_vecs(names@).contains(n) && !old_names.contains(n) {
                        let m = choose|m: int| 0 <= m < char_vecs(names@).len() && char_vecs(names@)[m] == n;
                        if m < old_names.len() {
                            assert(old_names[m] == n);
                        }
                    }
                    if old_names.contains(n) && char_vecs(names@) != old_names {
                        let m = choose|m: int| 0 <= m < old_names.len() && old_names[m] == n;
                        assert(char_vecs(names@)[m] == n);
                    }
                    if (new_name matches Some(x) && x@ == n) && char_vecs(names@) != old_names {
                        assert(char_vecs(names@)[old_names.len() as int] == n);
                    }
                }
            }
            if let Some((name, value)) = new_desc {
                if index_of_chars(&dnames, name.as_slice()).is_none() {
                    dnames.push(name);
                    dvalues.push(value);
                    proof {
                        assert(char_vecs(dnames@) =~= old_dnames.push(name@));
                    }
                }
            }
            proof {
                assert forall|n: Seq<char>| char_vecs(dnames@).contains(n) <==> first_description(t1, n) is Some by {
                    if char_vecs(dnames@).contains(n) && !old_dnames.contains(n) {
                        let m = choose|m: int| 0 <= m < char_vecs(dnames@).len() && char_vecs(dnames@)[m] == n;
                        if m < old_dnames.len() {
                            assert(old_dnames[m] == n);
                        }
                    }
                    if old_dnames.contains(n) && char_vecs(dnames@) != old_dnames {
                        let m = choose|m: int| 0 <= m < old_dnames.len() && old_dnames[m] == n;
                        assert(char_vecs(dnames@)[m] == n);
                    }
                    if (new_desc matches Some((x, v)) && x@ == n) && char_vecs(dnames@) != old_dnames {
                        assert(char_vecs(dnames@)[old_dnames.len() as int] == n);
                    }
                }
                assert forall|k: int|
                    0 <= k < dnames@.len() implies first_description(t1, #[trigger] char_vecs(dnames@)[k])
                        == Some(dvalues@[k]@) by {
                    if k < old_dnames.len() {
                        assert(char_vecs(dnames@)[k] == old_dnames[k]);
                        assert(dvalues@[k] == old_dvalues[k]);
                        assert(first_description(t0, old_dnames[k]) is Some);
                    }
                }
            }
            i += 1;
        }
        proof {
            assert(ls.take(ls.len() as int) =~= ls);
        }
        let sorted = sort_chars(&names);
        let mut rows: Vec<ReportDetails> = Vec::new();
        let mut k: usize = 0;
        while k < sorted.len()
            invariant
                k <= sorted@.len(),
                rows@.len() == k,
                forall|n: Seq<char>| char_vecs(dnames@).contains(n) <==> first_description(ls, n) is Some,
                dnames@.len() == dvalues@.len(),
                forall|m: int|
                    0 <= m < dnames@.len() ==> first_description(ls, #[trigger] char_vecs(dnames@)[m])
                        == Some(dvalues@[m]@),
                forall|m: int| 0 <= m < k ==> (#[trigger] rows@[m]).name@ == char_vecs(sorted@)[m],
                forall|m: int|
                    0 <= m < k ==> (#[trigger] rows@[m]).description@ == (match first_description(
                        ls,
                        rows@[m].name@,
                    ) {
                        Some(d) => d,
                        None => Seq::empty(),
                    }),
                forall|m: int|
                    0 <= m < k ==> (#[trigger] rows@[m]).active@ == if rows@[m].name@ == current_report@ {
                        YES@
                    } else {
                        NO@
                    },
            decreases sorted.len() - k,
        {
            let name = sorted[k].as_slice();
            let desc = match index_of_chars(&dnames, name) {
                Some(j) => slice_range(dvalues[j].as_slice(), 0, dvalues[j].len()),
                None => Vec::new(),
            };
            let active = if chars_eq_str(name, current_report) {
                String::from_str(YES)
            } else {
                String::from_str(NO)
            };
            proof {
                assert(name@ == char_vecs(sorted@)[k as int]);
                if first_description(ls, name@) is None {
                    assert(desc@ =~= Seq::<char>::empty());
                }
            }
            rows.push(ReportDetails::new(string_of(name), string_of(desc.as_slice()), active));
            k += 1;
        }
        proof {
            assert(row_names(rows@) =~= char_vecs(sorted@));
            assert forall|n: Seq<char>| row_names(rows@).contains(n) <==> has_columns(ls, n) by {
                assert(char_vecs(sorted@).to_set().contains(n) == char_vecs(names@).to_set().contains(n));
            }
        }
        self.rows = rows;
    }
}

} // verus!

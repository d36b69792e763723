//! The context popup: the contexts that `task context` lists, with the one in
//! force marked active.
use vstd::prelude::*;

use crate::pane::{lists_indices_where, lowered, search_hit, search_hits};
use crate::table::TaskwarriorTuiTableState;
use crate::text::{
    chars_eq_str, chars_of, lowercase, ends_with, has_prefix, has_suffix, push_all, remove_first,
    remove_first_chars, slice_range, split_char, split_chars, starts_with, string_of, trim,
    trim_chars, words, words_chars,
};

verus! {

/// Header of the first column.
pub const NAME: &'static str = "Name";

/// Header of the second column.
pub const TYPE: &'static str = "Remaining";

/// Header of the third column.
pub const DEFINITION: &'static str = "Avg age";

/// Header of the fourth column.
pub const ACTIVE: &'static str = "Complete";

/// How a continuation line of `task context` begins.
pub const INDENT: &'static str = "  ";

/// The kind of the second line of a context.
pub const WRITE: &'static str = "write";

/// The kind of context that the popup lists.
pub const READ: &'static str = "read";

/// Active.
pub const YES: &'static str = "yes";

/// Not active.
pub const NO: &'static str = "no";

/// The name of the row that stands for no context.
pub const NONE: &'static str = "none";

/// The hint that `task context` prints under its table.
pub const UNSET_HINT: &'static str = "Use 'task context none' to unset the current context.";

/// One context.
#[derive(Debug, Clone, Default)]
pub struct ContextDetails {
    pub name: String,
    pub definition: String,
    pub active: String,
    pub type_: String,
}

/// A context as plain values: name, definition, active, type.
pub type ContextRow = (Seq<char>, Seq<char>, Seq<char>, Seq<char>);

impl ContextDetails {
    /// The fields of this context.
    pub open spec fn row(&self) -> ContextRow {
        (self.name@, self.definition@, self.active@, self.type_@)
    }

    /// A context from its fields.
    pub fn new(name: String, definition: String, active: String, type_: String) -> (r: Self)
        ensures
            r.name == name,
            r.definition == definition,
            r.active == active,
            r.type_ == type_,
    {
        ContextDetails { name, definition, active, type_ }
    }
}

/// The fields of each context.
pub open spec fn rows_view(rows: Seq<ContextDetails>) -> Seq<ContextRow> {
    rows.map_values(|c: ContextDetails| c.row())
}

/// Every character of `t` is a dash or a space.
pub open spec fn dashes_only(t: Seq<char>) -> bool {
    forall|k: int| 0 <= k < t.len() ==> t[k] == '-' || t[k] == ' '
}

/// The context that a line of the table describes, the line trimmed: its
/// first word is the name, its second the type, its last (from the third
/// on) whether it is active, and what lies between is the definition.
pub open spec fn context_of(t: Seq<char>) -> ContextRow {
    let w = words(t);
    let name = if w.len() > 0 { w[0] } else { Seq::empty() };
    let typ = if w.len() > 1 { w[1] } else { Seq::empty() };
    let active = if w.len() > 2 { w.last() } else { Seq::empty() };
    let d = remove_first(remove_first(t, name), typ);
    let d = if ends_with(d, active) { d.subrange(0, d.len() - active.len()) } else { Seq::empty() };
    (name, trim(d), active, typ)
}

/// What line `i` of the output, `line`, does to the contexts read so far.
pub open spec fn parse_step(rows: Seq<ContextRow>, i: int, line: Seq<char>) -> Seq<ContextRow> {
    let t = trim(line);
    let indented = starts_with(line, INDENT@);
    if indented && starts_with(t, WRITE@) {
        rows
    } else if indented && !(ends_with(t, YES@) || ends_with(t, NO@)) {
        if rows.len() > 0 {
            let c = rows.last();
            rows.update(rows.len() - 1, (c.0, c.1 + seq![' '] + t, c.2, c.3))
        } else {
            rows
        }
    } else if t.len() == 0 || t == UNSET_HINT@ {
        rows
    } else if i == 0 || dashes_only(t) {
        rows
    } else {
        rows.push(context_of(t))
    }
}

/// The contexts read from the lines `lines`.
pub open spec fn parse_lines(lines: Seq<Seq<char>>) -> Seq<ContextRow>
    decreases lines.len(),
{
    if lines.len() == 0 {
        Seq::empty()
    } else {
        parse_step(parse_lines(lines.drop_last()), lines.len() - 1, lines.last())
    }
}

/// The contexts that the output `data` of `task context` lists.
pub open spec fn parse_contexts(data: Seq<char>) -> Seq<ContextRow> {
    parse_lines(split_char(trim(data), '\n'))
}

/// Some context of `rows` is active.
pub open spec fn some_active(rows: Seq<ContextRow>) -> bool {
    exists|i: int| 0 <= i < rows.len() && rows[i].2 != NO@
}

/// The row that stands for no context; it is active when no other is.
pub open spec fn none_row(others_active: bool) -> ContextRow {
    (NONE@, Seq::empty(), if others_active { NO@ } else { YES@ }, READ@)
}

fn all_dashes(t: &[char]) -> (r: bool)
    ensures
        r == dashes_only(t@),
{
    let mut k: usize = 0;
    while k < t.len()
        invariant
            k <= t@.len(),
            forall|m: int| 0 <= m < k ==> t@[m] == '-' || t@[m] == ' ',
        decreases t.len() - k,
    {
        if t[k] != '-' && t[k] != ' ' {
            return false;
        }
        k += 1;
    }
    true
}

fn context_from(t: &[char]) -> (c: ContextDetails)
    ensures
        c.row() == context_of(t@),
{
    let w = words_chars(t);
    let name = if w.len() > 0 {
        slice_range(w[0].as_slice(), 0, w[0].len())
    } else {
        Vec::new()
    };
    let typ = if w.len() > 1 {
        slice_range(w[1].as_slice(), 0, w[1].len())
    } else {
        Vec::new()
    };
    let active = if w.len() > 2 {
        let l = w.len() - 1;
        slice_range(w[l].as_slice(), 0, w[l].len())
    } else {
        Vec::new()
    };
    let d1 = remove_first_chars(t, name.as_slice());
    let d2 = remove_first_chars(d1.as_slice(), typ.as_slice());
    let d3 = if has_suffix(d2.as_slice(), active.as_slice()) {
        slice_range(d2.as_slice(), 0, d2.len() - active.len())
    } else {
        Vec::new()
    };
    let d4 = trim_chars(d3.as_slice());
    proof {
        let ws = words(t@);
        if ws.len() > 0 {
            assert(name@ == ws[0]);
        } else {
            assert(name@ =~= Seq::<char>::empty());
        }
        if ws.len() > 1 {
            assert(typ@ == ws[1]);
        } else {
            assert(typ@ =~= Seq::<char>::empty());
        }
        if ws.len() > 2 {
            assert(active@ == ws.last());
        } else {
            assert(active@ =~= Seq::<char>::empty());
        }
        if !ends_with(d2@, active@) {
            assert(d3@ =~= Seq::<char>::empty());
        }
    }
    ContextDetails::new(
        string_of(name.as_slice()),
        string_of(d4.as_slice()),
        string_of(active.as_slice()),
        string_of(typ.as_slice()),
    )
}

fn parse_line(rows: &mut Vec<ContextDetails>, i: usize, line: &[char])
    ensures
        rows_view(final(rows)@) == parse_step(rows_view(old(rows)@), i as int, line@),
{
    let t = trim_chars(line);
    let indent = chars_of(INDENT);
    let indented = has_prefix(line, indent.as_slice());
    let write = chars_of(WRITE);
    if indented && has_prefix(t.as_slice(), write.as_slice()) {
        return ;
    }
    let yes = chars_of(YES);
    let no = chars_of(NO);
    if indented && !(has_suffix(t.as_slice(), yes.as_slice()) || has_suffix(
        t.as_slice(),
        no.as_slice(),
    )) {
        if rows.len() > 0 {
            let ghost before = rows@;
            let mut c = rows.pop().unwrap();
            let ghost old_c = c;
            let mut d = chars_of(c.definition.as_str());
            d.push(' ');
            push_all(&mut d, t.as_slice());
            c.definition = string_of(d.as_slice());
            rows.push(c);
            proof {
                let vb = rows_view(before);
                assert(old_c == before.last());
                assert(vb.last() == old_c.row());
                assert(c.row() == (old_c.name@, old_c.definition@ + seq![' '] + t@, old_c.active@, old_c.type_@));
                assert(rows@ =~= before.update(before.len() - 1, c));
                assert(rows_view(rows@) =~= vb.update(
                    vb.len() - 1,
                    (vb.last().0, vb.last().1 + seq![' '] + t@, vb.last().2, vb.last().3),
                ));
            }
        }
        return ;
    }
    if t.len() == 0 || chars_eq_str(t.as_slice(), UNSET_HINT) {
        return ;
    }
    if i == 0 || all_dashes(t.as_slice()) {
        return ;
    }
    let ghost before = rows@;
    let c = context_from(t.as_slice());
    rows.push(c);
    proof {
        assert(rows_view(rows@) =~= rows_view(before).push(c.row()));
    }
}

/// The popup that lists the contexts.
pub struct ContextsState {
    pub table_state: TaskwarriorTuiTableState,
    pub report_height: u16,
    pub columns: Vec<String>,
    pub rows: Vec<ContextDetails>,
    /// Current search query typed by the user inside the popup.
    pub search: String,
}

/// The view of a list of strings.
pub open spec fn strings_view(v: Seq<String>) -> Seq<Seq<char>> {
    v.map_values(|s: String| s@)
}

impl ContextsState {
    /// An empty popup with its four column headers.
    pub fn new() -> (r: Self)
        ensures
            r.table_state.wf(),
            r.table_state.selection() == None::<usize>,
            r.table_state.marked_rows() == Set::<usize>::empty(),
            r.report_height == 0,
            strings_view(r.columns@) == seq![NAME@, TYPE@, DEFINITION@, ACTIVE@],
            r.rows@.len() == 0,
            r.search@.len() == 0,
    {
        let columns = vec![
            String::from_str(NAME),
            String::from_str(TYPE),
            String::from_str(DEFINITION),
            String::from_str(ACTIVE),
        ];
        let r = ContextsState {
            table_state: TaskwarriorTuiTableState::new(),
            report_height: 0,
            columns,
            rows: Vec::new(),
            search: String::new(),
        };
        assert(strings_view(r.columns@) =~= seq![NAME@, TYPE@, DEFINITION@, ACTIVE@]);
        r
    }

    /// The rows as cells (name, type, definition, active), and the headers.
    pub fn simplified_view(&mut self) -> (r: (Vec<Vec<String>>, Vec<String>))
        ensures
            *final(self) == *old(self),
            r.0@.len() == old(self).rows@.len(),
            forall|i: int|
                0 <= i < r.0@.len() ==> #[trigger] strings_view(r.0@[i]@) == seq![
                    old(self).rows@[i].name@,
                    old(self).rows@[i].type_@,
                    old(self).rows@[i].definition@,
                    old(self).rows@[i].active@,
                ],
            strings_view(r.1@) == strings_view(old(self).columns@),
    {
        let mut rows: Vec<Vec<String>> = Vec::new();
        let mut i: usize = 0;
        while i < self.rows.len()
            invariant
                i <= self.rows@.len(),
                rows@.len() == i,
                forall|k: int|
                    0 <= k < i ==> #[trigger] strings_view(rows@[k]@) == seq![
                        self.rows@[k].name@,
                        self.rows@[k].type_@,
                        self.rows@[k].definition@,
                        self.rows@[k].active@,
                    ],
            decreases self.rows.len() - i,
        {
            let c = &self.rows[i];
            let cells = vec![c.name.clone(), c.type_.clone(), c.definition.clone(), c.active.clone()];
            proof {
                assert(strings_view(cells@) =~= seq![c.name@, c.type_@, c.definition@, c.active@]);
            }
            rows.push(cells);
            i += 1;
        }
        let mut headers: Vec<String> = Vec::new();
        let mut k: usize = 0;
        while k < self.columns.len()
            invariant
                k <= self.columns@.len(),
                headers@.len() == k,
                strings_view(headers@) == strings_view(self.columns@).subrange(0, k as int),
            decreases self.columns.len() - k,
        {
            let h = self.columns[k].clone();
            let ghost before = headers@;
            headers.push(h);
            k += 1;
            proof {
                let cols = strings_view(self.columns@);
                assert forall|j: int| 0 <= j < k implies #[trigger] strings_view(headers@)[j] == cols[j] by {
                    if j < k - 1 {
                        assert(headers@[j] == before[j]);
                        assert(strings_view(before)[j] == cols.subrange(0, k - 1)[j]);
                    } else {
                        assert(headers@[j] == h);
                    }
                }
                assert(strings_view(headers@) =~= cols.subrange(0, k as int));
            }
        }
        assert(strings_view(self.columns@).subrange(0, self.columns@.len() as int) =~= strings_view(
            self.columns@,
        ));
        (rows, headers)
    }

    /// The number of contexts.
    pub fn len(&self) -> (r: usize)
        ensures
            r == self.rows@.len(),
    {
        self.rows.len()
    }

    /// The row at `i` is of kind `read` and matches the search.
    pub open spec fn shown(&self, i: int) -> bool {
        &&& self.rows@[i].type_@ == READ@
        &&& search_hit(
            lowercase(self.search@),
            self.rows@[i].name@,
            self.rows@[i].definition@,
        )
    }

    /// Returns the indices into `self.rows` (after filtering to `type_ == "read"`)
    /// that match the current search query.
    /// An empty query matches everything. Matching is case-insensitive substring
    /// on name or definition.
    pub fn filtered_indices(&self) -> (r: Vec<usize>)
        ensures
            lists_indices_where(r@, self.rows@.len(), |i: int| self.shown(i)),
    {
        let query = lowered(&self.search);
        let read = String::from_str(READ);
        let mut r: Vec<usize> = Vec::new();
        let mut i: usize = 0;
        while i < self.rows.len()
            invariant
                i <= self.rows@.len(),
                query@ == lowercase(self.search@),
                read@ == READ@,
                forall|k: int| 0 <= k < r@.len() ==> #[trigger] r@[k] < i && self.shown(r@[k] as int),
                forall|k: int, m: int| 0 <= k < m < r@.len() ==> r@[k] < r@[m],
                forall|j: int| 0 <= j < i && #[trigger] self.shown(j) ==> r@.contains(j as usize),
            decreases self.rows.len() - i,
        {
            let row = &self.rows[i];
            if row.type_.eq(&read) && search_hits(query.as_slice(), &row.name, &row.definition) {
                let ghost before = r@;
                r.push(i);
                proof {
                    assert(r@[before.len() as int] == i);
                    assert forall|j: int| 0 <= j < i + 1 && #[trigger] self.shown(j) implies r@.contains(
                        j as usize,
                    ) by {
                        if j < i {
                            let k = choose|k: int| 0 <= k < before.len() && before[k] == j as usize;
                            assert(r@[k] == j as usize);
                        }
                    }
                }
            }
            i += 1;
        }
        r
    }

    /// Parse the output of `task context` into its contexts.
    pub fn parse(data: &str) -> (rows: Vec<ContextDetails>)
        ensures
            rows_view(rows@) == parse_contexts(data@),
    {
        let d = chars_of(data);
        let t = trim_chars(d.as_slice());
        let lines = split_chars(t.as_slice(), '\n');
        let ghost ls = split_char(t@, '\n');
        let mut rows: Vec<ContextDetails> = Vec::new();
        let mut i: usize = 0;
        assert(ls.take(0) =~= Seq::<Seq<char>>::empty());
        while i < lines.len()
            invariant
                i <= lines@.len(),
                lines@.len() == ls.len(),
                ls == split_char(t@, '\n'),
                t@ == trim(data@),
                forall|k: int| 0 <= k < lines@.len() ==> #[trigger] lines@[k]@ == ls[k],
                rows_view(rows@) == parse_lines(ls.take(i as int)),
            decreases lines.len() - i,
        {
            parse_line(&mut rows, i, lines[i].as_slice());
            proof {
                assert(ls.take(i + 1).drop_last() =~= ls.take(i as int));
                assert(ls.take(i + 1).last() == ls[i as int]);
            }
            i += 1;
        }
        assert(ls.take(ls.len() as int) =~= ls);
        rows
    }

    /// Replace the contexts with those that the output `data` of `task context`
    /// lists, headed by a row for no context, which is active when no other is.
    pub fn update_data(&mut self, data: &str)
        ensures
            rows_view(final(self).rows@) == seq![none_row(some_active(parse_contexts(data@)))]
                + parse_contexts(data@),
            final(self).table_state == old(self).table_state,
            final(self).report_height == old(self).report_height,
            final(self).columns == old(self).columns,
            final(self).search == old(self).search,
    {
        let parsed = Self::parse(data);
        let no = String::from_str(NO);
        let mut any = false;
        let mut i: usize = 0;
        while i < parsed.len()
            invariant
                i <= parsed@.len(),
                no@ == NO@,
                any == exists|k: int| 0 <= k < i && parsed@[k].active@ != NO@,
            decreases parsed.len() - i,
        {
            if !parsed[i].active.eq(&no) {
                any = true;
            }
            i += 1;
        }
        let ghost pv = rows_view(parsed@);
        proof {
            assert(any == some_active(pv)) by {
                if any {
                    let k = choose|k: int| 0 <= k < parsed@.len() && parsed@[k].active@ != NO@;
                    assert(pv[k].2 != NO@);
                }
                if some_active(pv) {
                    let k = choose|k: int| 0 <= k < pv.len() && pv[k].2 != NO@;
                    assert(parsed@[k].active@ != NO@);
                }
            }
        }
        let active = if any {
            String::from_str(NO)
        } else {
            String::from_str(YES)
        };
        let none = ContextDetails::new(
            String::from_str(NONE),
            String::new(),
            active,
            String::from_str(READ),
        );
        let mut rows = parsed;
        rows.insert(0, none);
        proof {
            assert(rows_view(rows@) =~= seq![none.row()] + pv);
        }
        self.rows = rows;
    }
}

} // verus!

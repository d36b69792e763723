//! Column visibility menu: the columns of the current report, each of which
//! the user can hide. Hidden columns are remembered per report; the lines
//! that store them (`report<TAB>col1,col2`) are read and written by the caller.
use vstd::prelude::*;

use crate::text::{
    lemma_join_avoids, lemma_join_push, lemma_split_char_empty, lemma_split_char_front,
    lemma_split_join, strip_cr, char_vecs, chars_of, join, join_chars, lines_chars, lines_of, sort_chars, sort_lines,
    sorted_loosely, sorted_strictly, split_char, split_chars, split_once_char, split_once_chars,
    string_of,
};

verus! {

/// One column of the report, as the menu lists it.
pub struct ColumnItem {
    pub column: String,
    pub label: String,
    pub visible: bool,
}

/// A set of column names.
pub struct ColumnSet {
    names: Vec<String>,
}

/// `x` is among `names`.
pub open spec fn listed(names: Seq<String>, x: Seq<char>) -> bool {
    exists|i: int| 0 <= i < names.len() && names[i]@ == x
}

/// No name occurs twice in `names`.
pub open spec fn distinct_names(names: Seq<String>) -> bool {
    forall|i: int, j: int| 0 <= i < j < names.len() ==> names[i]@ != names[j]@
}

fn position_of(names: &Vec<String>, x: &str) -> (r: Option<usize>)
    ensures
        match r {
            Some(i) => i < names@.len() && names@[i as int]@ == x@,
            None => !listed(names@, x@),
        },
{
    let xs = String::from_str(x);
    let mut i: usize = 0;
    while i < names.len()
        invariant
            i <= names@.len(),
            xs@ == x@,
            forall|k: int| 0 <= k < i ==> names@[k]@ != x@,
        decreases names.len() - i,
    {
        if names[i].eq(&xs) {
            return Some(i);
        }
        i += 1;
    }
    None
}

impl ColumnSet {
    /// The names in the set.
    pub closed spec fn view(&self) -> Set<Seq<char>> {
        Set::new(|x: Seq<char>| listed(self.names@, x))
    }

    /// No name is stored twice.
    pub closed spec fn wf(&self) -> bool {
        distinct_names(self.names@)
    }

    /// The empty set.
    pub fn new() -> (r: Self)
        ensures
            r.wf(),
            r@ == Set::<Seq<char>>::empty(),
    {
        let r = ColumnSet { names: Vec::new() };
        assert(r@ =~= Set::<Seq<char>>::empty());
        r
    }

    /// Whether `column` is in the set.
    pub fn contains(&self, column: &str) -> (r: bool)
        ensures
            r == self@.contains(column@),
    {
        position_of(&self.names, column).is_some()
    }

    /// Whether the set is empty.
    pub fn is_empty(&self) -> (r: bool)
        ensures
            r == (self@ == Set::<Seq<char>>::empty()),
    {
        if self.names.len() == 0 {
            assert(self@ =~= Set::<Seq<char>>::empty());
            true
        } else {
            assert(self@.contains(self.names@[0]@));
            false
        }
    }

    /// The names in the set, in the order they were added.
    pub fn names(&self) -> (r: &Vec<String>)
        ensures
            forall|x: Seq<char>| self@.contains(x) <==> listed(r@, x),
    {
        &self.names
    }

    /// Add `column` to the set.
    pub fn insert(&mut self, column: &str)
        requires
            old(self).wf(),
        ensures
            final(self).wf(),
            final(self)@ == old(self)@.insert(column@),
    {
        match position_of(&self.names, column) {
            Some(_) => {
                assert(self@ =~= old(self)@.insert(column@));
            },
            None => {
                self.names.push(String::from_str(column));
                proof {
                    assert forall|x: Seq<char>| self@.contains(x) == old(self)@.insert(column@).contains(x) by {
                        if listed(old(self).names@, x) {
                            let i = choose|i: int| 0 <= i < old(self).names@.len() && old(self).names@[i]@ == x;
                            assert(self.names@[i] == old(self).names@[i]);
                        }
                        if x == column@ {
                            assert(self.names@[self.names@.len() - 1]@ == x);
                        }
                    }
                    assert(self@ =~= old(self)@.insert(column@));
                }
            },
        }
    }

    /// Take `column` out of the set.
    pub fn remove(&mut self, column: &str)
        requires
            old(self).wf(),
        ensures
            final(self).wf(),
            final(self)@ == old(self)@.remove(column@),
    {
        match position_of(&self.names, column) {
            Some(i) => {
                let ghost before = self.names@;
                self.names.remove(i);
                proof {
                    assert forall|x: Seq<char>| self@.contains(x) == old(self)@.remove(column@).contains(x) by {
                        if listed(self.names@, x) {
                            let k = choose|k: int| 0 <= k < self.names@.len() && self.names@[k]@ == x;
                            if k < i {
                                assert(before[k]@ == x);
                            } else {
                                assert(before[k + 1]@ == x);
                            }
                        }
                        if listed(before, x) && x != column@ {
                            let k = choose|k: int| 0 <= k < before.len() && before[k]@ == x;
                            if k < i {
                                assert(self.names@[k]@ == x);
                            } else {
                                assert(k != i);
                                assert(self.names@[k - 1]@ == x);
                            }
                        }
                    }
                    assert(self@ =~= old(self)@.remove(column@));
                }
            },
            None => {
                assert(self@ =~= old(self)@.remove(column@));
            },
        }
    }
}

/// The hidden columns of one report.
pub struct HiddenEntry {
    pub report: String,
    pub columns: ColumnSet,
}

/// The popup that lists the columns of the current report and lets the user
/// show or hide each of them.
pub struct ColumnMenu {
    pub items: Vec<ColumnItem>,
    pub selection: usize,
    /// Report name and its hidden columns; no report twice, no empty set.
    pub hidden: Vec<HiddenEntry>,
}

/// The entry of `report` in `h`, if there is one.
pub open spec fn has_entry(h: Seq<(Seq<char>, Set<Seq<char>>)>, report: Seq<char>) -> bool {
    exists|i: int| 0 <= i < h.len() && h[i].0 == report
}

impl ColumnMenu {
    /// The hidden columns of every report, as pairs of report name and set.
    pub open spec fn hidden_entries(&self) -> Seq<(Seq<char>, Set<Seq<char>>)> {
        self.hidden@.map_values(|e: HiddenEntry| (e.report@, e.columns@))
    }

    /// The columns hidden in `report`.
    pub open spec fn hidden_of(&self, report: Seq<char>) -> Set<Seq<char>> {
        let h = self.hidden_entries();
        if has_entry(h, report) {
            h[choose|i: int| 0 <= i < h.len() && h[i].0 == report].1
        } else {
            Set::empty()
        }
    }

    /// No report is stored twice, and every stored set of hidden columns is
    /// non-empty and well formed.
    pub open spec fn wf(&self) -> bool {
        &&& forall|i: int, j: int|
            0 <= i < j < self.hidden@.len() ==> self.hidden@[i].report@ != self.hidden@[j].report@
        &&& forall|i: int|
            0 <= i < self.hidden@.len() ==> (#[trigger] self.hidden@[i]).columns.wf()
                && self.hidden@[i].columns@ != Set::<Seq<char>>::empty()
    }

    /// The set of hidden columns of `report` when it is stored at position `i`.
    proof fn lemma_hidden_at(&self, i: int)
        requires
            self.wf(),
            0 <= i < self.hidden@.len(),
        ensures
            self.hidden_of(self.hidden@[i].report@) == self.hidden@[i].columns@,
    {
        let h = self.hidden_entries();
        let r = self.hidden@[i].report@;
        assert(h[i].0 == r);
        let k = choose|k: int| 0 <= k < h.len() && h[k].0 == r;
        if k != i {
            assert(self.hidden@[k].report@ == r);
        }
    }

    /// A report that no entry holds hides nothing.
    proof fn lemma_hidden_absent(&self, report: Seq<char>)
        requires
            forall|i: int| 0 <= i < self.hidden@.len() ==> self.hidden@[i].report@ != report,
        ensures
            self.hidden_of(report) == Set::<Seq<char>>::empty(),
    {
        let h = self.hidden_entries();
        if has_entry(h, report) {
            let k = choose|k: int| 0 <= k < h.len() && h[k].0 == report;
            assert(self.hidden@[k].report@ == report);
        }
    }

    /// An empty menu that hides nothing.
    pub fn new() -> (r: Self)
        ensures
            r.wf(),
            r.items@.len() == 0,
            r.selection == 0,
            r.hidden@.len() == 0,
            forall|report: Seq<char>| r.hidden_of(report) == Set::<Seq<char>>::empty(),
    {
        let r = ColumnMenu { items: Vec::new(), selection: 0, hidden: Vec::new() };
        assert forall|report: Seq<char>| r.hidden_of(report) == Set::<Seq<char>>::empty() by {
            r.lemma_hidden_absent(report);
        }
        r
    }

    fn entry_index(&self, report: &str) -> (r: Option<usize>)
        requires
            self.wf(),
        ensures
            match r {
                Some(i) => i < self.hidden@.len() && self.hidden@[i as int].report@ == report@,
                None => forall|i: int| 0 <= i < self.hidden@.len() ==> self.hidden@[i].report@ != report@,
            },
    {
        let rs = String::from_str(report);
        let mut i: usize = 0;
        while i < self.hidden.len()
            invariant
                i <= self.hidden@.len(),
                rs@ == report@,
                forall|k: int| 0 <= k < i ==> self.hidden@[k].report@ != report@,
            decreases self.hidden.len() - i,
        {
            if self.hidden[i].report.eq(&rs) {
                return Some(i);
            }
            i += 1;
        }
        None
    }

    /// The columns hidden in `report`.
    pub fn hidden_for(&self, report: &str) -> (r: ColumnSet)
        requires
            self.wf(),
        ensures
            r.wf(),
            r@ == self.hidden_of(report@),
    {
        match self.entry_index(report) {
            Some(i) => {
                proof {
                    self.lemma_hidden_at(i as int);
                }
                let names = &self.hidden[i].columns.names;
                let mut copy: Vec<String> = Vec::new();
                let mut k: usize = 0;
                while k < names.len()
                    invariant
                        k <= names@.len(),
                        copy@ == names@.subrange(0, k as int),
                    decreases names.len() - k,
                {
                    copy.push(names[k].clone());
                    k += 1;
                }
                assert(names@.subrange(0, names@.len() as int) =~= names@);
                let r = ColumnSet { names: copy };
                assert(r@ =~= self.hidden@[i as int].columns@);
                r
            },
            None => {
                proof {
                    self.lemma_hidden_absent(report@);
                }
                ColumnSet::new()
            },
        }
    }

    /// Refresh the menu from the columns and labels of `report`: every column
    /// is listed with its label (the column name where no label is given), and
    /// is visible unless `report` hides it. The selection is kept in range.
    pub fn sync(&mut self, report: &str, columns: &[String], labels: &[String])
        requires
            old(self).wf(),
        ensures
            final(self).wf(),
            final(self).hidden_entries() == old(self).hidden_entries(),
            final(self).items@.len() == columns@.len(),
            forall|i: int| 0 <= i < columns@.len() ==> {
                let it = #[trigger] final(self).items@[i];
                &&& it.column@ == columns@[i]@
                &&& it.label@ == if i < labels@.len() { labels@[i]@ } else { columns@[i]@ }
                &&& it.visible == !old(self).hidden_of(report@).contains(columns@[i]@)
            },
            final(self).selection == if old(self).selection >= columns@.len() {
                if columns@.len() == 0 { 0 } else { (columns@.len() - 1) as nat }
            } else {
                old(self).selection as nat
            },
    {
        let hidden = self.hidden_for(report);
        let mut items: Vec<ColumnItem> = Vec::new();
        let mut i: usize = 0;
        while i < columns.len()
            invariant
                i <= columns@.len(),
                hidden@ == self.hidden_of(report@),
                items@.len() == i,
                forall|k: int| 0 <= k < i ==> {
                    let it = #[trigger] items@[k];
                    &&& it.column@ == columns@[k]@
                    &&& it.label@ == if k < labels@.len() { labels@[k]@ } else { columns@[k]@ }
                    &&& it.visible == !hidden@.contains(columns@[k]@)
                },
            decreases columns.len() - i,
        {
            let c = &columns[i];
            let label = if i < labels.len() { labels[i].clone() } else { c.clone() };
            let visible = !hidden.contains(c.as_str());
            items.push(ColumnItem { column: c.clone(), label, visible });
            i += 1;
        }
        self.items = items;
        if self.selection >= self.items.len() {
            self.selection = if self.items.len() == 0 { 0 } else { self.items.len() - 1 };
        }
    }

    /// Move the selection down, wrapping to the first column.
    pub fn next(&mut self)
        requires
            old(self).items@.len() > 0 ==> old(self).selection < usize::MAX,
        ensures
            final(self).items == old(self).items,
            final(self).hidden == old(self).hidden,
            final(self).selection == next_index(old(self).selection as int, old(self).items@.len() as int),
            final(self).wf() == old(self).wf(),
    {
        if self.items.len() > 0 {
            self.selection = (self.selection + 1) % self.items.len();
        }
    }

    /// Move the selection up, wrapping to the last column.
    pub fn previous(&mut self)
        ensures
            final(self).items == old(self).items,
            final(self).hidden == old(self).hidden,
            final(self).selection == previous_index(old(self).selection as int, old(self).items@.len() as int),
            final(self).wf() == old(self).wf(),
    {
        if self.items.len() > 0 {
            self.selection = if self.selection == 0 { self.items.len() - 1 } else { self.selection - 1 };
        }
    }

    /// Show or hide the selected column of `report`, and give the text that
    /// stores the hidden columns afterwards; nothing changes, and there is
    /// nothing to store, when no column is selected.
    pub fn toggle_current(&mut self, report: &str) -> (r: Option<String>)
        requires
            old(self).wf(),
        ensures
            final(self).wf(),
            final(self).selection == old(self).selection,
            r is Some == (old(self).selection < old(self).items@.len()),
            toggled(*old(self), *final(self), report@),
            r matches Some(t) ==> saved_as(*final(self), t@),
    {
        if self.toggle_selected(report) {
            Some(self.saved_text())
        } else {
            None
        }
    }

    fn toggle_selected(&mut self, report: &str) -> (changed: bool)
        requires
            old(self).wf(),
        ensures
            final(self).wf(),
            final(self).selection == old(self).selection,
            changed == (old(self).selection < old(self).items@.len()),
            toggled(*old(self), *final(self), report@),
    {
        if self.selection >= self.items.len() {
            return false;
        }
        let sel = self.selection;
        let mut item = self.items.remove(sel);
        item.visible = !item.visible;
        let visible = item.visible;
        let column = item.column.clone();
        self.items.insert(sel, item);
        let ghost old_hidden = self.hidden@;
        let ghost old_set = old(self).hidden_of(report@);
        let ghost mut idx: int = -1;
        let mut set = match self.entry_index(report) {
            Some(i) => {
                proof {
                    self.lemma_hidden_at(i as int);
                    idx = i as int;
                }
                let e = self.hidden.remove(i);
                e.columns
            },
            None => {
                proof {
                    self.lemma_hidden_absent(report@);
                }
                ColumnSet::new()
            },
        };
        let ghost mid = self.hidden@;
        assert(set@ == old_set);
        if visible {
            set.remove(column.as_str());
        } else {
            set.insert(column.as_str());
        }
        assert(forall|k: int| 0 <= k < mid.len() ==> mid[k].report@ != report@);
        if !set.is_empty() {
            self.hidden.push(HiddenEntry { report: String::from_str(report), columns: set });
            proof {
                self.lemma_hidden_at(self.hidden@.len() - 1);
            }
        } else {
            proof {
                self.lemma_hidden_absent(report@);
            }
        }
        proof {
            assert forall|r: Seq<char>| r != report@ implies self.hidden_of(r) == old(self).hidden_of(r) by {
                if exists|k: int| 0 <= k < old_hidden.len() && old_hidden[k].report@ == r {
                    let k = choose|k: int| 0 <= k < old_hidden.len() && old_hidden[k].report@ == r;
                    old(self).lemma_hidden_at(k);
                    let j = if idx >= 0 && k > idx { k - 1 } else { k };
                    assert(self.hidden@[j] == old_hidden[k]);
                    self.lemma_hidden_at(j);
                } else {
                    old(self).lemma_hidden_absent(r);
                    assert forall|m: int| 0 <= m < self.hidden@.len() implies self.hidden@[m].report@ != r by {
                        if m < mid.len() {
                            if idx >= 0 && m >= idx {
                                assert(self.hidden@[m] == old_hidden[m + 1]);
                            } else {
                                assert(self.hidden@[m] == old_hidden[m]);
                            }
                        }
                    }
                    self.lemma_hidden_absent(r);
                }
            }
        }
        true
    }

    /// Show every column again, forget the hidden columns of `report`, and
    /// give the text that stores the hidden columns afterwards.
    pub fn reset(&mut self, report: &str) -> (r: String)
        requires
            old(self).wf(),
        ensures
            final(self).wf(),
            final(self).selection == old(self).selection,
            final(self).items@.len() == old(self).items@.len(),
            forall|k: int| 0 <= k < old(self).items@.len() ==> {
                &&& (#[trigger] final(self).items@[k]).visible
                &&& final(self).items@[k].column == old(self).items@[k].column
                &&& final(self).items@[k].label == old(self).items@[k].label
            },
            final(self).hidden_of(report@) == Set::<Seq<char>>::empty(),
            forall|r: Seq<char>| r != report@ ==> final(self).hidden_of(r) == old(self).hidden_of(r),
            saved_as(*final(self), r@),
    {
        self.show_all(report);
        self.saved_text()
    }

    fn show_all(&mut self, report: &str)
        requires
            old(self).wf(),
        ensures
            final(self).wf(),
            final(self).selection == old(self).selection,
            final(self).items@.len() == old(self).items@.len(),
            forall|k: int| 0 <= k < old(self).items@.len() ==> {
                &&& (#[trigger] final(self).items@[k]).visible
                &&& final(self).items@[k].column == old(self).items@[k].column
                &&& final(self).items@[k].label == old(self).items@[k].label
            },
            final(self).hidden_of(report@) == Set::<Seq<char>>::empty(),
            forall|r: Seq<char>| r != report@ ==> final(self).hidden_of(r) == old(self).hidden_of(r),
    {
        let mut k: usize = 0;
        let n = self.items.len();
        while k < n
            invariant
                n == self.items@.len(),
                n == old(self).items@.len(),
                k <= n,
                self.selection == old(self).selection,
                self.hidden == old(self).hidden,
                forall|m: int| 0 <= m < n ==> {
                    &&& (#[trigger] self.items@[m]).column == old(self).items@[m].column
                    &&& self.items@[m].label == old(self).items@[m].label
                    &&& (m < k ==> self.items@[m].visible)
                },
            decreases n - k,
        {
            let mut item = self.items.remove(k);
            item.visible = true;
            self.items.insert(k, item);
            k += 1;
        }
        let ghost old_hidden = self.hidden@;
        let ghost mut idx: int = -1;
        match self.entry_index(report) {
            Some(i) => {
                proof {
                    idx = i as int;
                }
                self.hidden.remove(i);
            },
            None => {},
        }
        proof {
            self.lemma_hidden_absent(report@);
            assert forall|r: Seq<char>| r != report@ implies self.hidden_of(r) == old(self).hidden_of(r) by {
                if exists|k: int| 0 <= k < old_hidden.len() && old_hidden[k].report@ == r {
                    let k = choose|k: int| 0 <= k < old_hidden.len() && old_hidden[k].report@ == r;
                    old(self).lemma_hidden_at(k);
                    let j = if idx >= 0 && k > idx { k - 1 } else { k };
                    assert(self.hidden@[j] == old_hidden[k]);
                    self.lemma_hidden_at(j);
                } else {
                    old(self).lemma_hidden_absent(r);
                    assert forall|m: int| 0 <= m < self.hidden@.len() implies self.hidden@[m].report@ != r by {
                        if idx >= 0 && m >= idx {
                            assert(self.hidden@[m] == old_hidden[m + 1]);
                        } else {
                            assert(self.hidden@[m] == old_hidden[m]);
                        }
                    }
                    self.lemma_hidden_absent(r);
                }
            }
        }
    }
}


/// The selection after moving down from `sel` in a list of `n` items,
/// wrapping to the first.
pub open spec fn next_index(sel: int, n: int) -> int {
    if n == 0 {
        sel
    } else {
        (sel + 1) % n
    }
}

/// The selection after moving up from `sel` in a list of `n` items,
/// wrapping to the last.
pub open spec fn previous_index(sel: int, n: int) -> int {
    if n == 0 {
        sel
    } else if sel == 0 {
        n - 1
    } else {
        sel - 1
    }
}

/// What showing or hiding the selected column of `report` makes of `m0`:
/// nothing when no column is selected; otherwise the selected item's
/// visibility flips, its column joins the hidden columns of `report` when it
/// is hidden and leaves them when it is shown, and nothing else changes.
pub open spec fn toggled(m0: ColumnMenu, m1: ColumnMenu, report: Seq<char>) -> bool {
    let sel = m0.selection as int;
    if sel >= m0.items@.len() {
        &&& m1.items@ == m0.items@
        &&& forall|r: Seq<char>| m1.hidden_of(r) == m0.hidden_of(r)
    } else {
        let old_item = m0.items@[sel];
        let new_item = m1.items@[sel];
        &&& m1.items@.len() == m0.items@.len()
        &&& forall|k: int| 0 <= k < m0.items@.len() && k != sel ==> m1.items@[k] == m0.items@[k]
        &&& new_item.column == old_item.column
        &&& new_item.label == old_item.label
        &&& new_item.visible == !old_item.visible
        &&& m1.hidden_of(report) == if new_item.visible {
            m0.hidden_of(report).remove(old_item.column@)
        } else {
            m0.hidden_of(report).insert(old_item.column@)
        }
        &&& forall|r: Seq<char>| r != report ==> m1.hidden_of(r) == m0.hidden_of(r)
    }
}

/// The items of `m` show exactly the columns that `report` does not hide.
pub open spec fn in_sync(m: ColumnMenu, report: Seq<char>) -> bool {
    forall|k: int|
        0 <= k < m.items@.len() ==> (#[trigger] m.items@[k]).visible == !m.hidden_of(report).contains(
            m.items@[k].column@,
        )
}

/// No column is listed twice.
pub open spec fn distinct_columns(m: ColumnMenu) -> bool {
    forall|i: int, j: int| 0 <= i < j < m.items@.len() ==> m.items@[i].column@ != m.items@[j].column@
}

/// Moving down and then up, or up and then down, comes back to the same item.
pub proof fn law_next_previous_inverse(sel: int, n: int)
    requires
        0 <= sel < n,
    ensures
        previous_index(next_index(sel, n), n) == sel,
        next_index(previous_index(sel, n), n) == sel,
{
    let a = sel + 1;
    if a < n {
        assert(a % n == a) by (nonlinear_arith)
            requires
                0 <= a < n,
        ;
    } else {
        assert(a % n == 0) by (nonlinear_arith)
            requires
                a == n,
                n > 0,
        ;
    }
    if sel == 0 {
        assert(n % n == 0) by (nonlinear_arith)
            requires
                n > 0,
        ;
    } else {
        assert(sel % n == sel) by (nonlinear_arith)
            requires
                0 <= sel < n,
        ;
    }
}

/// Toggling the same column of a menu in step with its report twice leaves
/// the items and the hidden columns of every report as they were.
pub proof fn law_toggle_twice_restores(m0: ColumnMenu, m1: ColumnMenu, m2: ColumnMenu, report: Seq<char>)
    requires
        in_sync(m0, report),
        m1.selection == m0.selection,
        toggled(m0, m1, report),
        toggled(m1, m2, report),
    ensures
        m2.items@ == m0.items@,
        forall|r: Seq<char>| m2.hidden_of(r) == m0.hidden_of(r),
{
    let sel = m0.selection as int;
    if sel < m0.items@.len() {
        let c = m0.items@[sel].column@;
        let h0 = m0.hidden_of(report);
        assert(m0.items@[sel].visible == !h0.contains(c));
        if m0.items@[sel].visible {
            assert(m2.hidden_of(report) =~= h0.insert(c).remove(c));
            assert(h0.insert(c).remove(c) =~= h0);
        } else {
            assert(m2.hidden_of(report) =~= h0.remove(c).insert(c));
            assert(h0.remove(c).insert(c) =~= h0);
        }
        assert(m2.items@ =~= m0.items@);
    }
}

/// Toggling keeps the items of a menu whose columns are distinct in step with
/// the hidden columns of the report.
pub proof fn law_toggle_keeps_sync(m0: ColumnMenu, m1: ColumnMenu, report: Seq<char>)
    requires
        in_sync(m0, report),
        distinct_columns(m0),
        toggled(m0, m1, report),
    ensures
        in_sync(m1, report),
        distinct_columns(m1),
{
    let sel = m0.selection as int;
    if sel < m0.items@.len() {
        let c = m0.items@[sel].column@;
        assert forall|k: int| 0 <= k < m1.items@.len() implies (#[trigger] m1.items@[k]).visible == !m1.hidden_of(
            report,
        ).contains(m1.items@[k].column@) by {
            if k != sel {
                assert(m1.items@[k] == m0.items@[k]);
                assert(m0.items@[k].visible == !m0.hidden_of(report).contains(m0.items@[k].column@));
                assert(m0.items@[k].column@ != c);
            }
        }
        assert forall|i: int, j: int| 0 <= i < j < m1.items@.len() implies m1.items@[i].column@
            != m1.items@[j].column@ by {
            assert(m1.items@[i].column == m0.items@[i].column);
            assert(m1.items@[j].column == m0.items@[j].column);
        }
    }
}


/// Some piece of `pieces` is non-empty.
pub open spec fn has_nonempty(pieces: Seq<Seq<char>>) -> bool {
    exists|k: int| 0 <= k < pieces.len() && #[trigger] pieces[k].len() > 0
}

/// The non-empty pieces of `pieces`.
pub open spec fn nonempty_pieces(pieces: Seq<Seq<char>>) -> Set<Seq<char>> {
    Set::new(|x: Seq<char>| x.len() > 0 && pieces.contains(x))
}

/// The report and the hidden columns that a stored line `report<TAB>col1,col2`
/// names: the non-empty pieces between commas, if there is one.
pub open spec fn stored_entry(line: Seq<char>) -> Option<(Seq<char>, Set<Seq<char>>)> {
    match split_once_char(line, '\t') {
        Some((report, cols)) => {
            let pieces = split_char(cols, ',');
            if has_nonempty(pieces) {
                Some((report, nonempty_pieces(pieces)))
            } else {
                None
            }
        },
        None => None,
    }
}

/// The hidden columns of `report` in the stored lines: those of the last
/// line that names it.
pub open spec fn stored_hidden(lines: Seq<Seq<char>>, report: Seq<char>) -> Set<Seq<char>>
    decreases lines.len(),
{
    if lines.len() == 0 {
        Set::empty()
    } else {
        match stored_entry(lines.last()) {
            Some((r, set)) => if r == report {
                set
            } else {
                stored_hidden(lines.drop_last(), report)
            },
            None => stored_hidden(lines.drop_last(), report),
        }
    }
}

/// The stored line of report `report` with columns `cols`.
pub open spec fn stored_line(report: Seq<char>, cols: Seq<Seq<char>>) -> Seq<char> {
    report + seq!['\t'] + join(cols, ',')
}

/// `line` stores `e`: its report, then its columns in increasing order.
pub open spec fn entry_stored(e: HiddenEntry, line: Seq<char>) -> bool {
    exists|cols: Seq<Seq<char>>|
        {
            &&& sorted_strictly(cols)
            &&& #[trigger] cols.to_set() == e.columns@
            &&& line == stored_line(e.report@, cols)
        }
}

/// `text` stores the hidden columns of `m`: one line per report, its columns
/// in increasing order, the lines in increasing order, each ended by a line
/// feed (a lone line feed when nothing is hidden).
pub open spec fn saved_as(m: ColumnMenu, text: Seq<char>) -> bool {
    exists|entries: Seq<Seq<char>>, lines: Seq<Seq<char>>|
        #![trigger entries.to_multiset(), lines.to_multiset()]
        {
            &&& entries.len() == m.hidden@.len()
            &&& forall|i: int| 0 <= i < entries.len() ==> entry_stored(#[trigger] m.hidden@[i], entries[i])
            &&& lines.to_multiset() == entries.to_multiset()
            &&& sorted_loosely(lines)
            &&& text == join(lines, '\n') + seq!['\n']
        }
}

impl ColumnMenu {
    fn replace_entry(&mut self, report: &[char], set: ColumnSet)
        requires
            old(self).wf(),
            set.wf(),
        ensures
            final(self).wf(),
            final(self).items == old(self).items,
            final(self).selection == old(self).selection,
            final(self).hidden_of(report@) == set@,
            forall|r: Seq<char>| r != report@ ==> final(self).hidden_of(r) == old(self).hidden_of(r),
    {
        let rs = string_of(report);
        let ghost old_hidden = self.hidden@;
        let ghost mut idx: int = -1;
        match self.entry_index(rs.as_str()) {
            Some(i) => {
                proof {
                    idx = i as int;
                }
                self.hidden.remove(i);
            },
            None => {},
        }
        let ghost mid = self.hidden@;
        assert forall|k: int| 0 <= k < mid.len() implies mid[k].report@ != report@ by {
            if idx >= 0 && k >= idx {
                assert(mid[k] == old_hidden[k + 1]);
            } else {
                assert(mid[k] == old_hidden[k]);
            }
        }
        if !set.is_empty() {
            self.hidden.push(HiddenEntry { report: rs, columns: set });
            proof {
                self.lemma_hidden_at(self.hidden@.len() - 1);
            }
        } else {
            proof {
                self.lemma_hidden_absent(report@);
            }
        }
        proof {
            assert forall|r: Seq<char>| r != report@ implies self.hidden_of(r) == old(self).hidden_of(r) by {
                if exists|k: int| 0 <= k < old_hidden.len() && old_hidden[k].report@ == r {
                    let k = choose|k: int| 0 <= k < old_hidden.len() && old_hidden[k].report@ == r;
                    old(self).lemma_hidden_at(k);
                    let j = if idx >= 0 && k > idx { k - 1 } else { k };
                    assert(self.hidden@[j] == old_hidden[k]);
                    self.lemma_hidden_at(j);
                } else {
                    old(self).lemma_hidden_absent(r);
                    assert forall|m: int| 0 <= m < self.hidden@.len() implies self.hidden@[m].report@ != r by {
                        if m < mid.len() {
                            if idx >= 0 && m >= idx {
                                assert(self.hidden@[m] == old_hidden[m + 1]);
                            } else {
                                assert(self.hidden@[m] == old_hidden[m]);
                            }
                        }
                    }
                    self.lemma_hidden_absent(r);
                }
            }
        }
    }

    /// A menu with no items whose hidden columns are those that the stored
    /// `data` holds (`report<TAB>col1,col2` per line; the last line of a
    /// report wins; lines without a tab or a column are skipped).
    pub fn from_saved(data: &str) -> (r: Self)
        ensures
            r.wf(),
            r.items@.len() == 0,
            r.selection == 0,
            forall|report: Seq<char>| r.hidden_of(report) == stored_hidden(lines_of(data@), report),
    {
        let mut m = ColumnMenu::new();
        let d = chars_of(data);
        let lines = lines_chars(d.as_slice());
        let ghost ls = lines_of(data@);
        let mut i: usize = 0;
        while i < lines.len()
            invariant
                i <= lines@.len(),
                lines@.len() == ls.len(),
                ls == lines_of(data@),
                forall|k: int| 0 <= k < lines@.len() ==> #[trigger] lines@[k]@ == ls[k],
                m.wf(),
                m.items@.len() == 0,
                m.selection == 0,
                forall|report: Seq<char>| m.hidden_of(report) == stored_hidden(ls.take(i as int), report),
            decreases lines.len() - i,
        {
            let ghost t1 = ls.take(i + 1);
            proof {
                assert(t1.drop_last() =~= ls.take(i as int));
                assert(t1.last() == ls[i as int]);
            }
            match split_once_chars(lines[i].as_slice(), '\t') {
                Some((report, cols)) => {
                    let pieces = split_chars(cols.as_slice(), ',');
                    let ghost ps = split_char(cols@, ',');
                    let mut set = ColumnSet::new();
                    let mut k: usize = 0;
                    let mut any = false;
                    while k < pieces.len()
                        invariant
                            k <= pieces@.len(),
                            pieces@.len() == ps.len(),
                            forall|q: int| 0 <= q < pieces@.len() ==> #[trigger] pieces@[q]@ == ps[q],
                            set.wf(),
                            set@ == Set::new(|x: Seq<char>| x.len() > 0 && ps.take(k as int).contains(x)),
                            any == exists|q: int| 0 <= q < k && ps[q].len() > 0,
                        decreases pieces.len() - k,
                    {
                        let ghost before = set@;
                        if pieces[k].len() > 0 {
                            let p = string_of(pieces[k].as_slice());
                            set.insert(p.as_str());
                            any = true;
                        }
                        proof {
                            let t0 = ps.take(k as int);
                            let tk = ps.take(k + 1);
                            assert(tk =~= t0.push(ps[k as int]));
                            assert forall|x: Seq<char>| set@.contains(x) == (x.len() > 0 && tk.contains(x)) by {
                                if tk.contains(x) {
                                    let q = choose|q: int| 0 <= q < tk.len() && tk[q] == x;
                                    if q < k {
                                        assert(t0[q] == x);
                                    }
                                }
                                if t0.contains(x) {
                                    let q = choose|q: int| 0 <= q < t0.len() && t0[q] == x;
                                    assert(tk[q] == x);
                                }
                                if x == ps[k as int] {
                                    assert(tk[k as int] == x);
                                }
                            }
                            assert(set@ =~= Set::new(|x: Seq<char>| x.len() > 0 && tk.contains(x)));
                        }
                        k += 1;
                    }
                    proof {
                        assert(ps.take(ps.len() as int) =~= ps);
                    }
                    if any {
                        m.replace_entry(report.as_slice(), set);
                    }
                    proof {
                        assert forall|report2: Seq<char>| m.hidden_of(report2) == stored_hidden(t1, report2) by {}
                    }
                },
                None => {},
            }
            i += 1;
        }
        proof {
            assert(ls.take(ls.len() as int) =~= ls);
        }
        m
    }

    /// The text that stores the hidden columns: `report<TAB>col1,col2` per
    /// report, columns and lines in increasing order, each line ended by a
    /// line feed.
    pub fn saved_text(&self) -> (r: String)
        requires
            self.wf(),
        ensures
            saved_as(*self, r@),
    {
        let mut entries: Vec<Vec<char>> = Vec::new();
        let mut i: usize = 0;
        while i < self.hidden.len()
            invariant
                i <= self.hidden@.len(),
                self.wf(),
                entries@.len() == i,
                forall|q: int| 0 <= q < i ==> entry_stored(#[trigger] self.hidden@[q], char_vecs(entries@)[q]),
            decreases self.hidden.len() - i,
        {
            let e = &self.hidden[i];
            let names = &e.columns.names;
            let mut cols: Vec<Vec<char>> = Vec::new();
            let mut k: usize = 0;
            while k < names.len()
                invariant
                    k <= names@.len(),
                    cols@.len() == k,
                    forall|q: int| 0 <= q < k ==> (#[trigger] cols@[q])@ == names@[q]@,
                decreases names.len() - k,
            {
                let c = chars_of(names[k].as_str());
                cols.push(c);
                k += 1;
            }
            proof {
                assert(self.hidden@[i as int].columns.wf());
                assert forall|q: int| 0 <= q < cols@.len() implies #[trigger] char_vecs(cols@)[q] == names@[q]@ by {
                    assert(cols@[q]@ == names@[q]@);
                }
                assert forall|a: int, b: int| 0 <= a < b < char_vecs(cols@).len() implies char_vecs(cols@)[a] != char_vecs(cols@)[b] by {
                    assert(char_vecs(cols@)[a] == names@[a]@);
                    assert(char_vecs(cols@)[b] == names@[b]@);
                }
                assert(char_vecs(cols@).no_duplicates());
            }
            let sorted = sort_chars(&cols);
            let mut line = chars_of(e.report.as_str());
            line.push('\t');
            let joined = join_chars(&sorted, ',');
            let ghost before_line = line@;
            crate::text::push_all(&mut line, joined.as_slice());
            proof {
                let cs = char_vecs(sorted@);
                assert(line@ =~= stored_line(e.report@, cs));
                assert forall|x: Seq<char>| cs.to_set().contains(x) == e.columns@.contains(x) by {
                    assert(char_vecs(cols@).to_set().contains(x) == listed(names@, x)) by {
                        if char_vecs(cols@).to_set().contains(x) {
                            let q = choose|q: int| 0 <= q < char_vecs(cols@).len() && char_vecs(cols@)[q] == x;
                            assert(names@[q]@ == x);
                        }
                        if listed(names@, x) {
                            let q = choose|q: int| 0 <= q < names@.len() && names@[q]@ == x;
                            assert(char_vecs(cols@)[q] == x);
                        }
                    }
                }
                assert(cs.to_set() =~= e.columns@);
            }
            let ghost old_entries = entries@;
            entries.push(line);
            proof {
                let cs = char_vecs(sorted@);
                assert(entry_stored(self.hidden@[i as int], line@));
                assert forall|q: int| 0 <= q < i + 1 implies entry_stored(#[trigger] self.hidden@[q], char_vecs(entries@)[q]) by {
                    if q < i {
                        assert(char_vecs(entries@)[q] == char_vecs(old_entries)[q]);
                    } else {
                        assert(char_vecs(entries@)[q] == line@);
                    }
                }
            }
            i += 1;
        }
        let lines = sort_lines(&entries);
        let mut text = join_chars(&lines, '\n');
        text.push('\n');
        proof {
            let es = char_vecs(entries@);
            let ls = char_vecs(lines@);
            assert(ls.to_multiset() == es.to_multiset());
            assert(text@ =~= join(ls, '\n') + seq!['\n']);
            assert(sorted_loosely(ls));
            assert(es.len() == self.hidden@.len());

        }
        string_of(text.as_slice())
    }
}


/// Names that the stored form holds unchanged: a report without tab, line
/// feed or carriage return; a column non-empty and without comma, line feed
/// or carriage return.
pub open spec fn storable(m: ColumnMenu) -> bool {
    forall|i: int|
        0 <= i < m.hidden@.len() ==> {
            let e = #[trigger] m.hidden@[i];
            &&& !e.report@.contains('\t')
            &&& !e.report@.contains('\n')
            &&& !e.report@.contains('\r')
            &&& forall|x: Seq<char>|
                #[trigger] e.columns@.contains(x) ==> x.len() > 0 && !x.contains(',') && !x.contains('\n')
                    && !x.contains('\r')
        }
}

proof fn lemma_stored_entry_of(e: HiddenEntry, line: Seq<char>)
    requires
        entry_stored(e, line),
        e.columns@ != Set::<Seq<char>>::empty(),
        !e.report@.contains('\t'),
        !e.report@.contains('\n'),
        !e.report@.contains('\r'),
        forall|x: Seq<char>|
            #[trigger] e.columns@.contains(x) ==> x.len() > 0 && !x.contains(',') && !x.contains('\n')
                && !x.contains('\r'),
    ensures
        stored_entry(line) == Some((e.report@, e.columns@)),
        !line.contains('\n'),
        strip_cr(line) == line,
{
    let cols = choose|cols: Seq<Seq<char>>|
        {
            &&& sorted_strictly(cols)
            &&& #[trigger] cols.to_set() == e.columns@
            &&& line == stored_line(e.report@, cols)
        };
    assert forall|i: int| 0 <= i < cols.len() implies #[trigger] e.columns@.contains(cols[i]) by {
        assert(cols.to_set().contains(cols[i]));
    }
    let x0 = e.columns@.choose();
    assert(e.columns@.contains(x0)) by {
        assert(exists|x: Seq<char>| e.columns@.contains(x)) by {
            if !(exists|x: Seq<char>| e.columns@.contains(x)) {
                assert(e.columns@ =~= Set::<Seq<char>>::empty());
            }
        }
    }
    assert(cols.to_set().contains(x0));
    assert(cols.len() > 0);
    assert forall|i: int| 0 <= i < cols.len() implies !(#[trigger] cols[i]).contains(',') by {
        assert(e.columns@.contains(cols[i]));
    }
    lemma_split_join(cols, ',');
    let j = join(cols, ',');
    lemma_split_char_front(e.report@, j, '\t');
    assert(line == e.report@ + seq!['\t'] + j);
    let pieces = split_char(j, ',');
    assert(pieces == cols);
    assert(cols[0].len() > 0) by {
        assert(e.columns@.contains(cols[0]));
    }
    assert(pieces[0].len() > 0);
    assert(split_once_char(line, '\t') == Some((e.report@, j)));
    assert(has_nonempty(pieces));
    assert(stored_entry(line) == Some((e.report@, nonempty_pieces(pieces))));
    let set = nonempty_pieces(pieces);
    assert forall|x: Seq<char>| set.contains(x) == e.columns@.contains(x) by {
        if e.columns@.contains(x) {
            assert(cols.to_set().contains(x));
        }
        if cols.contains(x) {
            let k = choose|k: int| 0 <= k < cols.len() && cols[k] == x;
            assert(e.columns@.contains(cols[k]));
        }
    }
    assert(set =~= e.columns@);
    assert forall|i: int| 0 <= i < cols.len() implies !(#[trigger] cols[i]).contains('\n') by {
        assert(e.columns@.contains(cols[i]));
    }
    assert forall|i: int| 0 <= i < cols.len() implies !(#[trigger] cols[i]).contains('\r') by {
        assert(e.columns@.contains(cols[i]));
    }
    lemma_join_avoids(cols, ',', '\n');
    lemma_join_avoids(cols, ',', '\r');
    if line.contains('\n') {
        let k = choose|k: int| 0 <= k < line.len() && line[k] == '\n';
        if k < e.report@.len() {
            assert(e.report@[k] == '\n');
        } else if k > e.report@.len() {
            assert(j[k - e.report@.len() - 1] == '\n');
        }
    }
    assert(line.len() > 0);
    let l = line.len() - 1;
    if line[l] == '\r' {
        if l < e.report@.len() {
            assert(e.report@[l] == '\r');
        } else if l > e.report@.len() {
            assert(j[l - e.report@.len() - 1] == '\r');
        }
    }
}

spec fn names_report(line: Seq<char>, report: Seq<char>) -> bool {
    match stored_entry(line) {
        Some((r, _)) => r == report,
        None => false,
    }
}

spec fn stored_set(line: Seq<char>) -> Set<Seq<char>> {
    match stored_entry(line) {
        Some((_, s)) => s,
        None => Set::empty(),
    }
}

proof fn lemma_stored_hidden_of(lines: Seq<Seq<char>>, report: Seq<char>, set: Set<Seq<char>>)
    requires
        forall|k: int| 0 <= k < lines.len() && #[trigger] names_report(lines[k], report) ==> stored_set(lines[k]) == set,
    ensures
        stored_hidden(lines, report) == if exists|k: int| 0 <= k < lines.len() && #[trigger] names_report(lines[k], report) {
            set
        } else {
            Set::<Seq<char>>::empty()
        },
    decreases lines.len(),
{
    if lines.len() > 0 {
        let front = lines.drop_last();
        assert forall|k: int| 0 <= k < front.len() && #[trigger] names_report(front[k], report) implies stored_set(front[k]) == set by {
            assert(front[k] == lines[k]);
        }
        lemma_stored_hidden_of(front, report, set);
        let last = lines.len() - 1;
        assert(lines.last() == lines[last]);
        if names_report(lines[last], report) {
            assert(stored_set(lines[last]) == set);
        }
        if exists|k: int| 0 <= k < front.len() && #[trigger] names_report(front[k], report) {
            let k = choose|k: int| 0 <= k < front.len() && #[trigger] names_report(front[k], report);
            assert(front[k] == lines[k]);
        }
        if exists|k: int| 0 <= k < lines.len() && #[trigger] names_report(lines[k], report) {
            let k = choose|k: int| 0 <= k < lines.len() && #[trigger] names_report(lines[k], report);
            if k < last {
                assert(front[k] == lines[k]);
            }
        }
    }
}

/// What is saved loads back: reading the stored text of a menu gives every
/// report exactly the columns that it hid.
pub proof fn law_saved_text_loads_back(m: ColumnMenu, text: Seq<char>, report: Seq<char>)
    requires
        m.wf(),
        storable(m),
        saved_as(m, text),
    ensures
        stored_hidden(lines_of(text), report) == m.hidden_of(report),
{
    broadcast use vstd::seq_lib::group_to_multiset_ensures;
    let (es, ls) = choose|entries: Seq<Seq<char>>, lines: Seq<Seq<char>>|
        #![trigger entries.to_multiset(), lines.to_multiset()]
        {
            &&& entries.len() == m.hidden@.len()
            &&& forall|i: int| 0 <= i < entries.len() ==> entry_stored(#[trigger] m.hidden@[i], entries[i])
            &&& lines.to_multiset() == entries.to_multiset()
            &&& sorted_loosely(lines)
            &&& text == join(lines, '\n') + seq!['\n']
        };
    assert forall|i: int| 0 <= i < es.len() implies stored_entry(#[trigger] es[i]) == Some(
        (m.hidden@[i].report@, m.hidden@[i].columns@),
    ) && !es[i].contains('\n') && strip_cr(es[i]) == es[i] by {
        let e = m.hidden@[i];
        assert(entry_stored(e, es[i]));
        assert(e.columns.wf() && e.columns@ != Set::<Seq<char>>::empty());
        lemma_stored_entry_of(e, es[i]);
    }
    assert forall|k: int| #![trigger ls[k]] 0 <= k < ls.len() implies exists|i: int| 0 <= i < es.len() && #[trigger] es[i] == ls[k] by {
        assert(ls.to_multiset().count(ls[k]) > 0);
        assert(es.to_multiset().count(ls[k]) > 0);
        assert(es.contains(ls[k]));
    }
    // The lines of the text are the stored lines.
    if ls.len() > 0 {
        lemma_join_push(ls, Seq::<char>::empty(), '\n');
        let p = ls.push(Seq::<char>::empty());
        assert(text =~= join(p, '\n'));
        assert forall|k: int| 0 <= k < p.len() implies !(#[trigger] p[k]).contains('\n') by {
            if k < ls.len() {
                let i = choose|i: int| 0 <= i < es.len() && #[trigger] es[i] == ls[k];
                assert(p[k] == es[i]);
            }
        }
        lemma_split_join(p, '\n');
        let body = p.drop_last().map_values(|l: Seq<char>| strip_cr(l));
        assert forall|k: int| 0 <= k < ls.len() implies body[k] == ls[k] by {
            let i = choose|i: int| 0 <= i < es.len() && #[trigger] es[i] == ls[k];
            assert(p.drop_last()[k] == ls[k]);
        }
        assert(p.drop_last() =~= ls);
        assert(lines_of(text) =~= ls);
    } else {
        assert(text =~= Seq::<char>::empty() + seq!['\n'] + Seq::<char>::empty());
        lemma_split_char_front(Seq::<char>::empty(), Seq::<char>::empty(), '\n');
        lemma_split_char_empty('\n');
        assert(split_char(text, '\n') =~= seq![Seq::<char>::empty(), Seq::<char>::empty()]);
        assert(lines_of(text) =~= seq![Seq::<char>::empty()]);
        let only = Seq::<char>::empty();
        assert(split_once_char(only, '\t') is None) by {
            lemma_split_char_empty('\t');
        }
        assert(stored_entry(only) is None);
        let lt = lines_of(text);
        assert(lt.len() == 1);
        assert(lt.last() == only);
        assert(lt.drop_last() =~= Seq::<Seq<char>>::empty());
        assert(stored_hidden(lt.drop_last(), report) == Set::<Seq<char>>::empty());
        assert(stored_hidden(lt, report) == Set::<Seq<char>>::empty());
        assert(ls.to_multiset().len() == 0);
        assert(es.len() == 0);
        m.lemma_hidden_absent(report);
        return;
    }
    // Each report stored once, with its columns.
    if exists|i: int| 0 <= i < m.hidden@.len() && m.hidden@[i].report@ == report {
        let i0 = choose|i: int| 0 <= i < m.hidden@.len() && m.hidden@[i].report@ == report;
        let set = m.hidden@[i0].columns@;
        m.lemma_hidden_at(i0);
        assert forall|k: int| 0 <= k < ls.len() && #[trigger] names_report(ls[k], report) implies stored_set(ls[k]) == set by {
            let i = choose|i: int| 0 <= i < es.len() && #[trigger] es[i] == ls[k];
            assert(stored_entry(es[i]) == Some((m.hidden@[i].report@, m.hidden@[i].columns@)));
            if i != i0 {
                assert(m.hidden@[i].report@ != m.hidden@[i0].report@);
            }
        }
        lemma_stored_hidden_of(ls, report, set);
        assert(es.to_multiset().count(es[i0]) > 0);
        assert(ls.to_multiset().count(es[i0]) > 0);
        assert(ls.contains(es[i0]));
        let k0 = choose|k: int| 0 <= k < ls.len() && ls[k] == es[i0];
        assert(stored_entry(ls[k0]) == Some((report, set)));
        assert(names_report(ls[k0], report));
    } else {
        m.lemma_hidden_absent(report);
        assert forall|k: int| 0 <= k < ls.len() && #[trigger] names_report(ls[k], report) implies stored_set(ls[k]) == Set::<Seq<char>>::empty() by {
            let i = choose|i: int| 0 <= i < es.len() && #[trigger] es[i] == ls[k];
            assert(stored_entry(es[i]) == Some((m.hidden@[i].report@, m.hidden@[i].columns@)));
        }
        lemma_stored_hidden_of(ls, report, Set::<Seq<char>>::empty());
    }
}

} // verus!

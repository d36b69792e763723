//! Selection state of a table: the row under the cursor, and, in multiple
//! selection mode, the set of marked rows.
use vstd::prelude::*;

verus! {

/// Whether a table acts on the row under the cursor or on the marked rows.
#[derive(Debug, Clone, Copy, PartialEq, Eq, Structural)]
pub enum TableMode {
    SingleSelection,
    MultipleSelection,
}

/// The selection state of one table.
pub struct TaskwarriorTuiTableState {
    offset: usize,
    current_selection: Option<usize>,
    marked: Vec<usize>,
    mode: TableMode,
}

impl TaskwarriorTuiTableState {
    /// The row under the cursor.
    pub closed spec fn selection(&self) -> Option<usize> {
        self.current_selection
    }

    /// The selection mode.
    pub closed spec fn table_mode(&self) -> TableMode {
        self.mode
    }

    /// The first row shown.
    pub closed spec fn first_row(&self) -> usize {
        self.offset
    }

    /// The marked rows.
    pub closed spec fn marked_rows(&self) -> Set<usize> {
        self.marked@.to_set()
    }

    /// No row is stored as marked twice.
    pub closed spec fn wf(&self) -> bool {
        self.marked@.no_duplicates()
    }

    /// No row selected, none marked, single selection.
    pub fn new() -> (r: Self)
        ensures
            r.wf(),
            r.selection() == None::<usize>,
            r.table_mode() == TableMode::SingleSelection,
            r.marked_rows() == Set::<usize>::empty(),
            r.first_row() == 0,
    {
        let r = TaskwarriorTuiTableState {
            offset: 0,
            current_selection: None,
            marked: Vec::new(),
            mode: TableMode::SingleSelection,
        };
        assert(r.marked@.to_set() =~= Set::<usize>::empty());
        r
    }

    /// The selection mode.
    pub fn mode(&self) -> (r: TableMode)
        ensures
            r == self.table_mode(),
    {
        self.mode
    }

    /// The row under the cursor.
    pub fn current_selection(&self) -> (r: Option<usize>)
        ensures
            r == self.selection(),
    {
        self.current_selection
    }

    /// The first row shown.
    pub fn offset(&self) -> (r: usize)
        ensures
            r == self.first_row(),
    {
        self.offset
    }

    /// Move the cursor to `index`; with no row, the view goes back to the top.
    pub fn select(&mut self, index: Option<usize>)
        requires
            old(self).wf(),
        ensures
            final(self).wf(),
            final(self).selection() == index,
            final(self).table_mode() == old(self).table_mode(),
            final(self).marked_rows() == old(self).marked_rows(),
            index is None ==> final(self).first_row() == 0,
            index is Some ==> final(self).first_row() == old(self).first_row(),
    {
        self.current_selection = index;
        if index.is_none() {
            self.offset = 0;
        }
    }

    /// Whether no row is stored as marked twice.
    pub fn is_wf(&self) -> (r: bool)
        ensures
            r == self.wf(),
    {
        let n = self.marked.len();
        let mut i: usize = 0;
        while i < n
            invariant
                n == self.marked@.len(),
                i <= n,
                forall|a: int, b: int| 0 <= a < b < n && a < i ==> self.marked@[a] != self.marked@[b],
            decreases n - i,
        {
            let mut j: usize = i + 1;
            while j < n
                invariant
                    n == self.marked@.len(),
                    i < n,
                    i + 1 <= j <= n,
                    forall|a: int, b: int| 0 <= a < b < n && a < i ==> self.marked@[a] != self.marked@[b],
                    forall|b: int| i < b < j ==> self.marked@[i as int] != self.marked@[b],
                decreases n - j,
            {
                if self.marked[i] == self.marked[j] {
                    return false;
                }
                j += 1;
            }
            i += 1;
        }
        true
    }

    /// The marked rows, each once.
    pub fn marked(&self) -> (r: &Vec<usize>)
        requires
            self.wf(),
        ensures
            r@.no_duplicates(),
            r@.to_set() == self.marked_rows(),
    {
        &self.marked
    }

    fn position(&self, i: usize) -> (r: Option<usize>)
        ensures
            match r {
                Some(k) => k < self.marked@.len() && self.marked@[k as int] == i,
                None => !self.marked@.contains(i),
            },
    {
        let mut k: usize = 0;
        while k < self.marked.len()
            invariant
                k <= self.marked@.len(),
                forall|m: int| 0 <= m < k ==> self.marked@[m] != i,
            decreases self.marked.len() - k,
        {
            if self.marked[k] == i {
                return Some(k);
            }
            k += 1;
        }
        None
    }

    /// Mark `index`, if there is one.
    pub fn mark(&mut self, index: Option<usize>)
        requires
            old(self).wf(),
        ensures
            final(self).wf(),
            final(self).marked_rows() == (match index {
                Some(i) => old(self).marked_rows().insert(i),
                None => old(self).marked_rows(),
            }),
            final(self).selection() == old(self).selection(),
            final(self).table_mode() == old(self).table_mode(),
            final(self).first_row() == old(self).first_row(),
    {
        if let Some(i) = index {
            if self.position(i).is_none() {
                let ghost before = self.marked@;
                self.marked.push(i);
                proof {
                    assert(self.marked@ =~= before.push(i));
                    assert(self.marked@.to_set() =~= before.to_set().insert(i)) by {
                        assert forall|x: usize| self.marked@.contains(x) <==> (before.contains(x) || x == i) by {
                            if before.contains(x) {
                                let k = choose|k: int| 0 <= k < before.len() && before[k] == x;
                                assert(self.marked@[k] == x);
                            }
                            if x == i {
                                assert(self.marked@[before.len() as int] == i);
                            }
                        }
                    }
                }
            } else {
                proof {
                    assert(self.marked@.to_set() =~= self.marked@.to_set().insert(i));
                }
            }
        }
    }

    /// Unmark `index`, if there is one.
    pub fn unmark(&mut self, index: Option<usize>)
        requires
            old(self).wf(),
        ensures
            final(self).wf(),
            final(self).marked_rows() == (match index {
                Some(i) => old(self).marked_rows().remove(i),
                None => old(self).marked_rows(),
            }),
            final(self).selection() == old(self).selection(),
            final(self).table_mode() == old(self).table_mode(),
            final(self).first_row() == old(self).first_row(),
    {
        if let Some(i) = index {
            match self.position(i) {
                Some(k) => {
                    let ghost before = self.marked@;
                    self.marked.remove(k);
                    proof {
                        assert(self.marked@ =~= before.remove(k as int));
                        assert forall|x: usize| self.marked@.contains(x) <==> (before.contains(x) && x != i) by {
                            if self.marked@.contains(x) {
                                let m = choose|m: int| 0 <= m < self.marked@.len() && self.marked@[m] == x;
                                if m < k {
                                    assert(before[m] == x);
                                } else {
                                    assert(before[m + 1] == x);
                                }
                            }
                            if before.contains(x) && x != i {
                                let m = choose|m: int| 0 <= m < before.len() && before[m] == x;
                                if m < k {
                                    assert(self.marked@[m] == x);
                                } else {
                                    assert(m != k);
                                    assert(self.marked@[m - 1] == x);
                                }
                            }
                        }
                        assert(self.marked@.to_set() =~= before.to_set().remove(i));
                        assert forall|a: int, b: int| 0 <= a < b < self.marked@.len() implies self.marked@[a] != self.marked@[b] by {
                            let a0 = if a < k { a } else { a + 1 };
                            let b0 = if b < k { b } else { b + 1 };
                            assert(self.marked@[a] == before[a0]);
                            assert(self.marked@[b] == before[b0]);
                        }
                    }
                },
                None => {
                    proof {
                        assert(self.marked@.to_set() =~= self.marked@.to_set().remove(i));
                    }
                },
            }
        }
    }

    /// Unmark every row.
    pub fn clear(&mut self)
        ensures
            final(self).wf(),
            final(self).marked_rows() == Set::<usize>::empty(),
            final(self).selection() == old(self).selection(),
            final(self).table_mode() == old(self).table_mode(),
            final(self).first_row() == old(self).first_row(),
    {
        self.marked = Vec::new();
        assert(self.marked@.to_set() =~= Set::<usize>::empty());
    }

    /// Act on the row under the cursor.
    pub fn single_selection(&mut self)
        ensures
            final(self).table_mode() == TableMode::SingleSelection,
            final(self).selection() == old(self).selection(),
            final(self).wf() == old(self).wf(),
            final(self).marked_rows() == old(self).marked_rows(),
            final(self).first_row() == old(self).first_row(),
    {
        self.mode = TableMode::SingleSelection;
    }

    /// Act on the marked rows.
    pub fn multiple_selection(&mut self)
        ensures
            final(self).table_mode() == TableMode::MultipleSelection,
            final(self).selection() == old(self).selection(),
            final(self).wf() == old(self).wf(),
            final(self).marked_rows() == old(self).marked_rows(),
            final(self).first_row() == old(self).first_row(),
    {
        self.mode = TableMode::MultipleSelection;
    }
}


/// The selection state of a list: the selected item and the first item shown.
#[derive(Debug, Clone, Copy, PartialEq, Eq, Structural)]
pub struct ListState {
    pub selected: Option<usize>,
    pub offset: usize,
}

impl ListState {
    /// Nothing selected, the view at the top.
    pub fn new() -> (r: Self)
        ensures
            r.selected == None::<usize>,
            r.offset == 0,
    {
        ListState { selected: None, offset: 0 }
    }

    /// The selected item.
    pub fn selected(&self) -> (r: Option<usize>)
        ensures
            r == self.selected,
    {
        self.selected
    }

    /// Select `index`; with no item, the view goes back to the top.
    pub fn select(&mut self, index: Option<usize>)
        ensures
            final(self).selected == index,
            final(self).offset == if index is None { 0 } else { old(self).offset },
    {
        self.selected = index;
        if index.is_none() {
            self.offset = 0;
        }
    }
}

} // verus!

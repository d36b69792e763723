//! The details of tasks (what `task <uuid>` prints) that the interface keeps:
//! which to read around the row under the cursor, and the store of them.
use vstd::prelude::*;

use crate::app::TaskwarriorTui;
use crate::task::TaskRecord;

verus! {

/// The smaller of two numbers.
pub open spec fn min_of(a: int, b: int) -> int {
    if a <= b {
        a
    } else {
        b
    }
}

/// `a - b`, or 0 below 0.
pub open spec fn sat_sub(a: int, b: int) -> int {
    if a >= b {
        a - b
    } else {
        0
    }
}

/// The rows around `sel`: `p` rows before it, `sel`, `p` rows after it,
/// each kept inside the `len` rows of the table.
pub open spec fn prefetch_window(sel: int, p: int, len: int) -> Seq<int> {
    Seq::new(
        (2 * p + 1) as nat,
        |k: int|
            if k < p {
                min_of(sat_sub(sel, p - k), len - 1)
            } else if k == p {
                sel
            } else {
                min_of(sel + (k - p), len - 1)
            },
    )
}

/// `s` with each run of equal neighbours kept once (`Vec::dedup`).
pub open spec fn dedup_runs(s: Seq<int>) -> Seq<int>
    decreases s.len(),
{
    if s.len() <= 1 {
        s
    } else if s.last() == s[s.len() - 2] {
        dedup_runs(s.drop_last())
    } else {
        dedup_runs(s.drop_last()).push(s.last())
    }
}

/// The details that a store holds, by task: a later entry replaces an
/// earlier one.
pub open spec fn details_view(v: Seq<(u128, String)>) -> Map<u128, Seq<char>>
    decreases v.len(),
{
    if v.len() == 0 {
        Map::empty()
    } else {
        details_view(v.drop_last()).insert(v.last().0, v.last().1@)
    }
}

/// The UUIDs of the tasks.
pub open spec fn task_uuids(tasks: Seq<TaskRecord>) -> Set<u128> {
    Set::new(|u: u128| exists|i: int| 0 <= i < tasks.len() && (#[trigger] tasks[i]).uuid == u)
}

/// The tasks of `rows` whose details are read: those not yet kept, and the
/// task under the cursor always.
pub open spec fn details_wanted(tasks: Seq<TaskRecord>, rows: Seq<int>, kept: Set<u128>, current: u128) -> Seq<u128>
    decreases rows.len(),
{
    if rows.len() == 0 {
        Seq::empty()
    } else {
        let rest = details_wanted(tasks, rows.drop_last(), kept, current);
        let u = tasks[rows.last()].uuid;
        if !kept.contains(u) || u == current {
            rest.push(u)
        } else {
            rest
        }
    }
}

proof fn lemma_details_dom(v: Seq<(u128, String)>, u: u128)
    ensures
        details_view(v).dom().contains(u) <==> exists|i: int| 0 <= i < v.len() && #[trigger] v[i].0 == u,
    decreases v.len(),
{
    if v.len() > 0 {
        lemma_details_dom(v.drop_last(), u);
        if details_view(v.drop_last()).dom().contains(u) {
            let i = choose|i: int| 0 <= i < v.drop_last().len() && #[trigger] v.drop_last()[i].0 == u;
            assert(v[i].0 == u);
        }
        if exists|i: int| 0 <= i < v.len() && #[trigger] v[i].0 == u {
            let i = choose|i: int| 0 <= i < v.len() && #[trigger] v[i].0 == u;
            if i < v.len() - 1 {
                assert(v.drop_last()[i].0 == u);
            }
        }
    }
}

proof fn lemma_details_filter(v: Seq<(u128, String)>, keep: spec_fn(u128) -> bool)
    ensures
        details_view(v.filter(|e: (u128, String)| keep(e.0))) == details_view(v).restrict(
            details_view(v).dom().filter(keep),
        ),
    decreases v.len(),
{
    let f = |e: (u128, String)| keep(e.0);
    if v.len() == 0 {
        assert(v.filter(f) =~= Seq::<(u128, String)>::empty());
        assert(details_view(v).restrict(details_view(v).dom().filter(keep)) =~= Map::empty());
    } else {
        lemma_details_filter(v.drop_last(), keep);
        v.drop_last().lemma_filter_push(v.last(), f);
        assert(v.drop_last().push(v.last()) =~= v);
        let prev = details_view(v.drop_last());
        let e = v.last();
        if keep(e.0) {
            assert(details_view(v.filter(f)) == details_view(v.drop_last().filter(f)).insert(e.0, e.1@)) by {
                assert(v.filter(f).drop_last() =~= v.drop_last().filter(f));
            }
            assert(details_view(v.filter(f)) =~= prev.insert(e.0, e.1@).restrict(
                prev.insert(e.0, e.1@).dom().filter(keep),
            ));
        } else {
            assert(details_view(v.filter(f)) =~= prev.insert(e.0, e.1@).restrict(
                prev.insert(e.0, e.1@).dom().filter(keep),
            ));
        }
    }
}

proof fn lemma_details_last(v: Seq<(u128, String)>, u: u128, j: int)
    requires
        0 <= j < v.len(),
        v[j].0 == u,
        forall|k: int| j < k < v.len() ==> v[k].0 != u,
    ensures
        details_view(v).dom().contains(u),
        details_view(v)[u] == v[j].1@,
    decreases v.len(),
{
    if j < v.len() - 1 {
        lemma_details_last(v.drop_last(), u, j);
    }
}

/// Whether the store holds details of task `u`.
fn holds(v: &Vec<(u128, String)>, u: u128) -> (r: bool)
    ensures
        r == details_view(v@).dom().contains(u),
{
    let mut i: usize = 0;
    while i < v.len()
        invariant
            i <= v@.len(),
            forall|k: int| 0 <= k < i ==> v@[k].0 != u,
        decreases v.len() - i,
    {
        if v[i].0 == u {
            proof {
                lemma_details_dom(v@, u);
            }
            assert(v@[i as int].0 == u);
            return true;
        }
        i += 1;
    }
    proof {
        lemma_details_dom(v@, u);
    }
    false
}

/// Whether some task of `tasks` is task `u`.
fn has_task(tasks: &Vec<TaskRecord>, u: u128) -> (r: bool)
    ensures
        r == task_uuids(tasks@).contains(u),
{
    let mut i: usize = 0;
    while i < tasks.len()
        invariant
            i <= tasks@.len(),
            forall|k: int| 0 <= k < i ==> tasks@[k].uuid != u,
        decreases tasks.len() - i,
    {
        if tasks[i].uuid == u {
            assert(tasks@[i as int].uuid == u);
            return true;
        }
        i += 1;
    }
    false
}

impl TaskwarriorTui {
    /// The rows whose details are read: the row under the cursor and
    /// `uda.taskwarrior-tui.task-report.task-detail-prefetch` rows on each
    /// side, kept inside the table, each run of one row kept once.
    pub fn task_details_rows(&self) -> (r: Vec<usize>)
        requires
            self.current_selection < self.tasks@.len(),
            2 * self.config.uda_task_detail_prefetch + 1 <= usize::MAX,
        ensures
            r@.map_values(|x: usize| x as int) == dedup_runs(
                prefetch_window(
                    self.current_selection as int,
                    self.config.uda_task_detail_prefetch as int,
                    self.tasks@.len() as int,
                ),
            ),
            forall|k: int| 0 <= k < r@.len() ==> #[trigger] r@[k] < self.tasks@.len(),
    {
        let sel = self.current_selection;
        let p = self.config.uda_task_detail_prefetch;
        let len = self.tasks.len();
        let ghost w = prefetch_window(sel as int, p as int, len as int);
        let mut l: Vec<usize> = Vec::new();
        let mut s: usize = p;
        while s > 0
            invariant
                s <= p,
                sel < len,
                w == prefetch_window(sel as int, p as int, len as int),
                l@.len() == p - s,
                forall|k: int| 0 <= k < l@.len() ==> #[trigger] l@[k] as int == w[k],
            decreases s,
        {
            let back = if sel >= s {
                sel - s
            } else {
                0
            };
            let v = if back < len - 1 {
                back
            } else {
                len - 1
            };
            l.push(v);
            s -= 1;
        }
        l.push(sel);
        let mut s: usize = 1;
        while s <= p
            invariant
                1 <= s <= p + 1,
                2 * p + 1 <= usize::MAX,
                sel < len,
                w == prefetch_window(sel as int, p as int, len as int),
                l@.len() == p + s,
                forall|k: int| 0 <= k < l@.len() ==> #[trigger] l@[k] as int == w[k],
            decreases p + 1 - s,
        {
            let ahead = if s <= len - 1 - sel {
                sel + s
            } else {
                len - 1
            };
            l.push(ahead);
            s += 1;
        }
        assert(l@.map_values(|x: usize| x as int) =~= w);
        let mut r: Vec<usize> = Vec::new();
        let mut i: usize = 0;
        assert(w.take(0) =~= Seq::<int>::empty());
        while i < l.len()
            invariant
                i <= l@.len(),
                l@.len() == w.len(),
                sel < len,
                forall|k: int| 0 <= k < l@.len() ==> #[trigger] l@[k] as int == w[k],
                forall|k: int| 0 <= k < l@.len() ==> #[trigger] l@[k] < len,
                r@.map_values(|x: usize| x as int) == dedup_runs(w.take(i as int)),
                forall|k: int| 0 <= k < r@.len() ==> #[trigger] r@[k] < len,
                i > 0 ==> r@.len() > 0 && r@.last() == l@[i - 1],
            decreases l.len() - i,
        {
            let ghost pre = w.take(i as int);
            assert(w.take(i + 1).drop_last() =~= pre);
            assert(w.take(i + 1).last() == w[i as int]);
            if i > 0 && l[i] == l[i - 1] {
                assert(w.take(i + 1)[i - 1] == w[i - 1]);
            } else {
                let ghost before = r@;
                r.push(l[i]);
                assert(r@.map_values(|x: usize| x as int) =~= before.map_values(|x: usize| x as int).push(l@[i as int] as int));
                if i > 0 {
                    assert(w.take(i + 1)[i - 1] == w[i - 1]);
                }
            }
            i += 1;
        }
        assert(w.take(w.len() as int) =~= w);
        r
    }

    /// Forgets the details of tasks no longer in the report and gives the
    /// tasks whose details are to be read: around the row under the cursor,
    /// those not kept, and the one under the cursor always.
    pub fn update_task_details(&mut self) -> (r: Vec<u128>)
        requires
            2 * old(self).config.uda_task_detail_prefetch + 1 <= usize::MAX,
        ensures
            old(self).tasks@.len() == 0 ==> r@.len() == 0 && *final(self) == *old(self),
            old(self).tasks@.len() > 0 ==> details_view(final(self).task_details@) == details_view(
                old(self).task_details@,
            ).restrict(details_view(old(self).task_details@).dom().filter(|u: u128| task_uuids(old(self).tasks@).contains(u))),
            old(self).tasks@.len() > 0 ==> *final(self) == (TaskwarriorTui {
                task_details: final(self).task_details,
                ..*old(self)
            }),
            old(self).tasks@.len() > 0 ==> if old(self).current_selection < old(self).tasks@.len() {
                r@ == details_wanted(
                    old(self).tasks@,
                    dedup_runs(
                        prefetch_window(
                            old(self).current_selection as int,
                            old(self).config.uda_task_detail_prefetch as int,
                            old(self).tasks@.len() as int,
                        ),
                    ),
                    details_view(final(self).task_details@).dom(),
                    old(self).tasks@[old(self).current_selection as int].uuid,
                )
            } else {
                r@.len() == 0
            },
    {
        if self.tasks.len() == 0 {
            return Vec::new();
        }
        let ghost keep = |u: u128| task_uuids(self.tasks@).contains(u);
        let ghost old_v = self.task_details@;
        let mut kept: Vec<(u128, String)> = Vec::new();
        let mut i: usize = 0;
        while i < self.task_details.len()
            invariant
                i <= old_v.len(),
                self.task_details@ == old_v,
                keep == (|u: u128| task_uuids(self.tasks@).contains(u)),
                kept@ == old_v.take(i as int).filter(|e: (u128, String)| keep(e.0)),
            decreases self.task_details.len() - i,
        {
            proof {
                old_v.take(i as int).lemma_filter_push(old_v[i as int], |e: (u128, String)| keep(e.0));
                assert(old_v.take(i + 1) =~= old_v.take(i as int).push(old_v[i as int]));
            }
            if has_task(&self.tasks, self.task_details[i].0) {
                let e = (self.task_details[i].0, self.task_details[i].1.clone());
                kept.push(e);
            }
            i += 1;
        }
        proof {
            assert(old_v.take(old_v.len() as int) =~= old_v);
            lemma_details_filter(old_v, keep);
            assert(details_view(old_v).dom().filter(keep) =~= details_view(old_v).dom().filter(
                |u: u128| task_uuids(self.tasks@).contains(u),
            ));
        }
        self.task_details = kept;
        let sel = self.current_selection;
        if sel >= self.tasks.len() {
            return Vec::new();
        }
        let current = self.tasks[sel].uuid;
        let rows = self.task_details_rows();
        let ghost rv = rows@.map_values(|x: usize| x as int);
        let mut r: Vec<u128> = Vec::new();
        let mut k: usize = 0;
        assert(rv.take(0) =~= Seq::<int>::empty());
        while k < rows.len()
            invariant
                k <= rows@.len(),
                rv == rows@.map_values(|x: usize| x as int),
                forall|j: int| 0 <= j < rows@.len() ==> #[trigger] rows@[j] < self.tasks@.len(),
                r@ == details_wanted(self.tasks@, rv.take(k as int), details_view(self.task_details@).dom(), current),
            decreases rows.len() - k,
        {
            assert(rv.take(k + 1).drop_last() =~= rv.take(k as int));
            assert(rv.take(k + 1).last() == rows@[k as int] as int);
            let u = self.tasks[rows[k]].uuid;
            if !holds(&self.task_details, u) || u == current {
                r.push(u);
            }
            k += 1;
        }
        assert(rv.take(rv.len() as int) =~= rv);
        r
    }

    /// Keeps `data` as the details of task `uuid`, in place of any kept.
    pub fn store_task_details(&mut self, uuid: u128, data: String)
        ensures
            details_view(final(self).task_details@) == details_view(old(self).task_details@).insert(uuid, data@),
            *final(self) == (TaskwarriorTui { task_details: final(self).task_details, ..*old(self) }),
    {
        let ghost old_v = self.task_details@;
        let ghost keep = |x: u128| x != uuid;
        let mut kept: Vec<(u128, String)> = Vec::new();
        let mut i: usize = 0;
        while i < self.task_details.len()
            invariant
                i <= old_v.len(),
                self.task_details@ == old_v,
                keep == (|x: u128| x != uuid),
                kept@ == old_v.take(i as int).filter(|e: (u128, String)| keep(e.0)),
            decreases self.task_details.len() - i,
        {
            proof {
                old_v.take(i as int).lemma_filter_push(old_v[i as int], |e: (u128, String)| keep(e.0));
                assert(old_v.take(i + 1) =~= old_v.take(i as int).push(old_v[i as int]));
            }
            if self.task_details[i].0 != uuid {
                let e = (self.task_details[i].0, self.task_details[i].1.clone());
                kept.push(e);
            }
            i += 1;
        }
        proof {
            assert(old_v.take(old_v.len() as int) =~= old_v);
            lemma_details_filter(old_v, keep);
        }
        let ghost before = kept@;
        kept.push((uuid, data));
        proof {
            assert(kept@.drop_last() =~= before);
            assert(details_view(kept@) =~= details_view(old_v).insert(uuid, data@));
        }
        self.task_details = kept;
    }

    /// The details kept of task `uuid`.
    pub fn task_details_of(&self, uuid: u128) -> (r: Option<&String>)
        ensures
            match r {
                Some(s) => details_view(self.task_details@).dom().contains(uuid) && details_view(
                    self.task_details@,
                )[uuid] == s@,
                None => !details_view(self.task_details@).dom().contains(uuid),
            },
    {
        let v = &self.task_details;
        let mut i: usize = v.len();
        while i > 0
            invariant
                i <= v@.len(),
                v@ == self.task_details@,
                forall|k: int| i <= k < v@.len() ==> v@[k].0 != uuid,
            decreases i,
        {
            if v[i - 1].0 == uuid {
                proof {
                    lemma_details_last(v@, uuid, (i - 1) as int);
                }
                let found = &v[i - 1].1;
                assert(found@ == v@[i - 1].1@);
                return Some(found);
            }
            i -= 1;
        }
        proof {
            lemma_details_dom(v@, uuid);
        }
        None
    }
}

} // verus!

//! What the dependency scan of `update_tags` gives each task: `BLOCKED`,
//! `UNBLOCKED` and `BLOCKING` follow from which open tasks wait on which.
use vstd::prelude::*;

use vstd::seq_lib::{lemma_seq_concat_contains_all_elements, lemma_seq_contains_after_push};

use crate::task::{
    add_if, apply_op, apply_ops, date_state, updated_tags, virtual_tags_of, Clock, DateState, TaskStatus, deps_of, deps_ops, dependency_ops, first_with_uuid, is_open, scan_ops, tags_of,
    without_first, TagOp, TaskRecord, BLOCKED, BLOCKING, UNBLOCKED,
};

verus! {

/// `t` is among `tags`.
pub open spec fn has_tag(tags: Option<Seq<Seq<char>>>, t: Seq<char>) -> bool {
    tags matches Some(ts) && ts.contains(t)
}

/// Dependency `u` of task `l` holds `l` up: `l` and the first task with
/// UUID `u` are both open.
pub open spec fn holds_up(tasks: Seq<TaskRecord>, l: int, u: u128) -> bool {
    match first_with_uuid(tasks, u) {
        Some(r) => is_open(tasks[l].status) && is_open(tasks[r].status),
        None => false,
    }
}

/// Task `j` waits on an open task.
pub open spec fn is_blocked(tasks: Seq<TaskRecord>, j: int) -> bool {
    exists|q: int| 0 <= q < deps_of(tasks[j]).len() && holds_up(tasks, j, #[trigger] deps_of(tasks[j])[q])
}

/// An open task waits on task `j`.
pub open spec fn is_blocking(tasks: Seq<TaskRecord>, j: int) -> bool {
    exists|l: int, q: int|
        #![trigger deps_of(tasks[l])[q]]
        0 <= l < tasks.len() && 0 <= q < deps_of(tasks[l]).len() && holds_up(tasks, l, deps_of(tasks[l])[q])
            && first_with_uuid(tasks, deps_of(tasks[l])[q]) == Some(j)
}

/// `t` occurs at most once in `ts`.
spec fn at_most_once(ts: Seq<Seq<char>>, t: Seq<char>) -> bool {
    forall|i: int, k: int| 0 <= i < ts.len() && 0 <= k < ts.len() && ts[i] == t && ts[k] == t ==> i == k
}

proof fn lemma_names_differ()
    ensures
        UNBLOCKED@ != BLOCKED@,
        UNBLOCKED@ != BLOCKING@,
        BLOCKED@ != BLOCKING@,
{
    reveal_strlit("UNBLOCKED");
    reveal_strlit("BLOCKED");
    reveal_strlit("BLOCKING");
    assert(UNBLOCKED@.len() == 9);
    assert(BLOCKED@.len() == 7);
    assert(BLOCKING@.len() == 8);
}

proof fn lemma_apply_concat(tags: Option<Seq<Seq<char>>>, a: Seq<(int, TagOp)>, b: Seq<(int, TagOp)>, j: int)
    ensures
        apply_ops(tags, a + b, j) == apply_ops(apply_ops(tags, a, j), b, j),
    decreases b.len(),
{
    if b.len() == 0 {
        assert(a + b =~= a);
    } else {
        lemma_apply_concat(tags, a, b.drop_last(), j);
        assert((a + b).drop_last() =~= a + b.drop_last());
        assert((a + b).last() == b.last());
    }
}

proof fn lemma_apply_some(tags: Option<Seq<Seq<char>>>, ops: Seq<(int, TagOp)>, j: int)
    requires
        tags is Some,
    ensures
        apply_ops(tags, ops, j) is Some,
    decreases ops.len(),
{
    if ops.len() > 0 {
        lemma_apply_some(tags, ops.drop_last(), j);
    }
}

proof fn lemma_contains_drop_last(s: Seq<(int, TagOp)>, x: (int, TagOp))
    requires
        s.len() > 0,
    ensures
        s.contains(x) <==> s.drop_last().contains(x) || s.last() == x,
{
    assert(s =~= s.drop_last().push(s.last()));
    lemma_seq_contains_after_push(s.drop_last(), s.last(), x);
}

proof fn lemma_first_index(ts: Seq<Seq<char>>, x: Seq<char>)
    requires
        ts.contains(x),
    ensures
        exists|i: int| 0 <= i < ts.len() && ts[i] == x && forall|k: int| 0 <= k < i ==> ts[k] != x,
    decreases ts.len(),
{
    let p = ts.drop_last();
    if p.contains(x) {
        lemma_first_index(p, x);
        let i = choose|i: int| 0 <= i < p.len() && p[i] == x && forall|k: int| 0 <= k < i ==> p[k] != x;
        assert(ts[i] == p[i]);
        assert forall|k: int| 0 <= k < i implies ts[k] != x by {
            assert(ts[k] == p[k]);
        }
    } else {
        let n = ts.len() - 1;
        assert forall|k: int| 0 <= k < n implies ts[k] != x by {
            assert(ts[k] == p[k]);
            if ts[k] == x {
                assert(p.contains(x));
            }
        }
        let j = choose|j: int| 0 <= j < ts.len() && ts[j] == x;
        assert(j == n);
    }
}

/// Taking out one `x` keeps every other tag.
proof fn lemma_without_first_keeps(ts: Seq<Seq<char>>, x: Seq<char>, t: Seq<char>)
    requires
        x != t,
    ensures
        without_first(ts, x).contains(t) <==> ts.contains(t),
{
    if ts.contains(x) {
        lemma_first_index(ts, x);
        let i = choose|i: int| 0 <= i < ts.len() && ts[i] == x && forall|k: int| 0 <= k < i ==> ts[k] != x;
        let r = ts.remove(i);
        if ts.contains(t) {
            let k = choose|k: int| 0 <= k < ts.len() && ts[k] == t;
            if k < i {
                assert(r[k] == t);
            } else {
                assert(r[k - 1] == t);
            }
        }
        if r.contains(t) {
            let k = choose|k: int| 0 <= k < r.len() && r[k] == t;
            if k < i {
                assert(ts[k] == t);
            } else {
                assert(ts[k + 1] == t);
            }
        }
    }
}

/// With no `t` taken out of task `j`, it has `t` after the changes exactly
/// when it had it before or one of them adds it.
proof fn lemma_has_after(tags: Option<Seq<Seq<char>>>, ops: Seq<(int, TagOp)>, j: int, t: Seq<char>)
    requires
        forall|x: (int, TagOp)| #[trigger] ops.contains(x) && x.0 == j ==> x.1 != TagOp::Remove(t),
    ensures
        has_tag(apply_ops(tags, ops, j), t) <==> has_tag(tags, t) || ops.contains((j, TagOp::Add(t))),
    decreases ops.len(),
{
    if ops.len() > 0 {
        let prev_ops = ops.drop_last();
        assert forall|x: (int, TagOp)| #[trigger] prev_ops.contains(x) && x.0 == j implies x.1 != TagOp::Remove(t) by {
            lemma_contains_drop_last(ops, x);
        }
        lemma_has_after(tags, prev_ops, j, t);
        lemma_contains_drop_last(ops, (j, TagOp::Add(t)));
        let prev = apply_ops(tags, prev_ops, j);
        let op = ops.last();
        if op.0 == j {
            assert(ops.contains(op)) by {
                assert(ops[ops.len() - 1] == op);
            }
            match op.1 {
                TagOp::Add(y) => {
                    match prev {
                        Some(ts) => {
                            lemma_seq_contains_after_push(ts, y, t);
                        },
                        None => {
                            lemma_seq_contains_after_push(Seq::<Seq<char>>::empty(), y, t);
                            assert(seq![y] =~= Seq::<Seq<char>>::empty().push(y));
                        },
                    }
                },
                TagOp::Remove(y) => {
                    match prev {
                        Some(ts) => {
                            lemma_without_first_keeps(ts, y, t);
                        },
                        None => {},
                    }
                },
            }
        }
    }
}

proof fn lemma_dependency_contains(tasks: Seq<TaskRecord>, m: int, u: u128, x: (int, TagOp))
    ensures
        dependency_ops(tasks, m, u).contains(x) <==> holds_up(tasks, m, u) && (x == (m, TagOp::Remove(UNBLOCKED@))
            || x == (m, TagOp::Add(BLOCKED@)) || x == (first_with_uuid(tasks, u)->0, TagOp::Add(BLOCKING@))),
{
    let d = dependency_ops(tasks, m, u);
    if holds_up(tasks, m, u) {
        let r = first_with_uuid(tasks, u)->0;
        assert(d[0] == (m, TagOp::Remove(UNBLOCKED@)));
        assert(d[1] == (m, TagOp::Add(BLOCKED@)));
        assert(d[2] == (r, TagOp::Add(BLOCKING@)));
        if d.contains(x) {
            let i = choose|i: int| 0 <= i < d.len() && d[i] == x;
        }
    }
}

proof fn lemma_deps_contains(tasks: Seq<TaskRecord>, m: int, k: int, x: (int, TagOp))
    requires
        0 <= k,
    ensures
        deps_ops(tasks, m, k).contains(x) <==> exists|q: int|
            0 <= q < k && #[trigger] dependency_ops(tasks, m, deps_of(tasks[m])[q]).contains(x),
    decreases k,
{
    if k > 0 {
        lemma_deps_contains(tasks, m, k - 1, x);
        let last = dependency_ops(tasks, m, deps_of(tasks[m])[k - 1]);
        lemma_seq_concat_contains_all_elements(deps_ops(tasks, m, k - 1), last, x);
        if last.contains(x) {
            assert(exists|q: int| 0 <= q < k && #[trigger] dependency_ops(tasks, m, deps_of(tasks[m])[q]).contains(x));
        }
        if exists|q: int| 0 <= q < k && #[trigger] dependency_ops(tasks, m, deps_of(tasks[m])[q]).contains(x) {
            let q = choose|q: int| 0 <= q < k && #[trigger] dependency_ops(tasks, m, deps_of(tasks[m])[q]).contains(x);
            if q < k - 1 {
                assert(deps_ops(tasks, m, k - 1).contains(x));
            }
        }
    }
}

/// The changes that task `m`'s own step of the scan makes.
spec fn step_ops(tasks: Seq<TaskRecord>, m: int) -> Seq<(int, TagOp)> {
    seq![(m, TagOp::Add(UNBLOCKED@))] + deps_ops(tasks, m, deps_of(tasks[m]).len() as int)
}

proof fn lemma_scan_contains(tasks: Seq<TaskRecord>, l: int, x: (int, TagOp))
    requires
        0 <= l,
    ensures
        scan_ops(tasks, l).contains(x) <==> exists|m: int| 0 <= m < l && #[trigger] step_ops(tasks, m).contains(x),
    decreases l,
{
    if l > 0 {
        lemma_scan_contains(tasks, l - 1, x);
        assert(scan_ops(tasks, l) =~= scan_ops(tasks, l - 1) + step_ops(tasks, l - 1));
        lemma_seq_concat_contains_all_elements(scan_ops(tasks, l - 1), step_ops(tasks, l - 1), x);
        if step_ops(tasks, l - 1).contains(x) {
            assert(exists|m: int| 0 <= m < l && #[trigger] step_ops(tasks, m).contains(x));
        }
        if exists|m: int| 0 <= m < l && #[trigger] step_ops(tasks, m).contains(x) {
            let m = choose|m: int| 0 <= m < l && #[trigger] step_ops(tasks, m).contains(x);
            if m < l - 1 {
                assert(scan_ops(tasks, l - 1).contains(x));
            }
        }
    }
}

/// What one change of task `m`'s step can be.
proof fn lemma_step_contains(tasks: Seq<TaskRecord>, m: int, x: (int, TagOp))
    ensures
        step_ops(tasks, m).contains(x) <==> x == (m, TagOp::Add(UNBLOCKED@)) || exists|q: int|
            0 <= q < deps_of(tasks[m]).len() && holds_up(tasks, m, #[trigger] deps_of(tasks[m])[q]) && (x == (
            m,
            TagOp::Remove(UNBLOCKED@),
        ) || x == (m, TagOp::Add(BLOCKED@)) || x == (
            first_with_uuid(tasks, deps_of(tasks[m])[q])->0,
            TagOp::Add(BLOCKING@),
        )),
{
    let k = deps_of(tasks[m]).len() as int;
    lemma_seq_concat_contains_all_elements(seq![(m, TagOp::Add(UNBLOCKED@))], deps_ops(tasks, m, k), x);
    lemma_seq_contains_after_push(Seq::<(int, TagOp)>::empty(), (m, TagOp::Add(UNBLOCKED@)), x);
    assert(seq![(m, TagOp::Add(UNBLOCKED@))] =~= Seq::<(int, TagOp)>::empty().push((m, TagOp::Add(UNBLOCKED@))));
    lemma_deps_contains(tasks, m, k, x);
    assert forall|q: int| 0 <= q < k implies #[trigger] dependency_ops(tasks, m, deps_of(tasks[m])[q]).contains(x)
        == (holds_up(tasks, m, deps_of(tasks[m])[q]) && (x == (m, TagOp::Remove(UNBLOCKED@)) || x == (
        m,
        TagOp::Add(BLOCKED@),
    ) || x == (first_with_uuid(tasks, deps_of(tasks[m])[q])->0, TagOp::Add(BLOCKING@)))) by {
        lemma_dependency_contains(tasks, m, deps_of(tasks[m])[q], x);
    }
    if deps_ops(tasks, m, k).contains(x) {
        let q = choose|q: int| 0 <= q < k && #[trigger] dependency_ops(tasks, m, deps_of(tasks[m])[q]).contains(x);
        assert(holds_up(tasks, m, deps_of(tasks[m])[q]));
    }
    if exists|q: int|
        0 <= q < deps_of(tasks[m]).len() && holds_up(tasks, m, #[trigger] deps_of(tasks[m])[q]) && (x == (
        m,
        TagOp::Remove(UNBLOCKED@),
    ) || x == (m, TagOp::Add(BLOCKED@)) || x == (
        first_with_uuid(tasks, deps_of(tasks[m])[q])->0,
        TagOp::Add(BLOCKING@),
    )) {
        let q = choose|q: int|
            0 <= q < deps_of(tasks[m]).len() && holds_up(tasks, m, #[trigger] deps_of(tasks[m])[q]) && (x == (
            m,
            TagOp::Remove(UNBLOCKED@),
        ) || x == (m, TagOp::Add(BLOCKED@)) || x == (
            first_with_uuid(tasks, deps_of(tasks[m])[q])->0,
            TagOp::Add(BLOCKING@),
        ));
        assert(dependency_ops(tasks, m, deps_of(tasks[m])[q]).contains(x));
        assert(deps_ops(tasks, m, k).contains(x));
    }
}


proof fn lemma_scan_shape(tasks: Seq<TaskRecord>, l: int, x: (int, TagOp))
    requires
        0 <= l,
        scan_ops(tasks, l).contains(x),
    ensures
        x.1 == TagOp::Add(UNBLOCKED@) || x.1 == TagOp::Remove(UNBLOCKED@) || x.1 == TagOp::Add(BLOCKED@) || x.1
            == TagOp::Add(BLOCKING@),
        x.1 == TagOp::Add(UNBLOCKED@) || x.1 == TagOp::Remove(UNBLOCKED@) ==> 0 <= x.0 < l,
{
    lemma_names_differ();
    lemma_scan_contains(tasks, l, x);
    let m = choose|m: int| 0 <= m < l && #[trigger] step_ops(tasks, m).contains(x);
    lemma_step_contains(tasks, m, x);
}

/// A change of task `m`'s step that reaches another task only adds `BLOCKING`.
proof fn lemma_step_elsewhere(tasks: Seq<TaskRecord>, m: int, j: int, x: (int, TagOp))
    requires
        m != j,
        step_ops(tasks, m).contains(x),
        x.0 == j,
    ensures
        x.1 == TagOp::Add(BLOCKING@),
{
    lemma_step_contains(tasks, m, x);
}

proof fn lemma_blocked_op(tasks: Seq<TaskRecord>, j: int)
    requires
        0 <= j < tasks.len(),
    ensures
        scan_ops(tasks, tasks.len() as int).contains((j, TagOp::Add(BLOCKED@))) <==> is_blocked(tasks, j),
{
    lemma_names_differ();
    let n = tasks.len() as int;
    let x = (j, TagOp::Add(BLOCKED@));
    lemma_scan_contains(tasks, n, x);
    if scan_ops(tasks, n).contains(x) {
        let m = choose|m: int| 0 <= m < n && #[trigger] step_ops(tasks, m).contains(x);
        lemma_step_contains(tasks, m, x);
        let q = choose|q: int|
            0 <= q < deps_of(tasks[m]).len() && holds_up(tasks, m, #[trigger] deps_of(tasks[m])[q]) && (x == (
            m,
            TagOp::Remove(UNBLOCKED@),
        ) || x == (m, TagOp::Add(BLOCKED@)) || x == (
            first_with_uuid(tasks, deps_of(tasks[m])[q])->0,
            TagOp::Add(BLOCKING@),
        ));
        assert(m == j);
        assert(holds_up(tasks, j, deps_of(tasks[j])[q]));
    }
    if is_blocked(tasks, j) {
        let q = choose|q: int| 0 <= q < deps_of(tasks[j]).len() && holds_up(tasks, j, #[trigger] deps_of(tasks[j])[q]);
        lemma_step_contains(tasks, j, x);
        assert(step_ops(tasks, j).contains(x));
    }
}

proof fn lemma_blocking_op(tasks: Seq<TaskRecord>, j: int)
    requires
        0 <= j < tasks.len(),
    ensures
        scan_ops(tasks, tasks.len() as int).contains((j, TagOp::Add(BLOCKING@))) <==> is_blocking(tasks, j),
{
    lemma_names_differ();
    let n = tasks.len() as int;
    let x = (j, TagOp::Add(BLOCKING@));
    lemma_scan_contains(tasks, n, x);
    if scan_ops(tasks, n).contains(x) {
        let m = choose|m: int| 0 <= m < n && #[trigger] step_ops(tasks, m).contains(x);
        lemma_step_contains(tasks, m, x);
        let q = choose|q: int|
            0 <= q < deps_of(tasks[m]).len() && holds_up(tasks, m, #[trigger] deps_of(tasks[m])[q]) && (x == (
            m,
            TagOp::Remove(UNBLOCKED@),
        ) || x == (m, TagOp::Add(BLOCKED@)) || x == (
            first_with_uuid(tasks, deps_of(tasks[m])[q])->0,
            TagOp::Add(BLOCKING@),
        ));
        let d = deps_of(tasks[m])[q];
        assert(first_with_uuid(tasks, d) == Some(j));
        assert(is_blocking(tasks, j));
    }
    if is_blocking(tasks, j) {
        let (l, q) = choose|l: int, q: int|
            #![trigger deps_of(tasks[l])[q]]
            0 <= l < tasks.len() && 0 <= q < deps_of(tasks[l]).len() && holds_up(tasks, l, deps_of(tasks[l])[q])
                && first_with_uuid(tasks, deps_of(tasks[l])[q]) == Some(j);
        lemma_step_contains(tasks, l, x);
        assert(step_ops(tasks, l).contains(x));
    }
}

/// Before its own step, the scan gives task `j` no `UNBLOCKED` and takes none.
proof fn lemma_unblocked_before(tasks: Seq<TaskRecord>, j: int, tags: Option<Seq<Seq<char>>>)
    requires
        0 <= j < tasks.len(),
    ensures
        has_tag(apply_ops(tags, scan_ops(tasks, j), j), UNBLOCKED@) <==> has_tag(tags, UNBLOCKED@),
{
    let ops = scan_ops(tasks, j);
    assert forall|x: (int, TagOp)| #[trigger] ops.contains(x) && x.0 == j implies x.1 != TagOp::Remove(UNBLOCKED@) by {
        lemma_scan_shape(tasks, j, x);
    }
    if ops.contains((j, TagOp::Add(UNBLOCKED@))) {
        lemma_scan_shape(tasks, j, (j, TagOp::Add(UNBLOCKED@)));
    }
    lemma_has_after(tags, ops, j, UNBLOCKED@);
}

/// After its own step, the scan gives task `j` no `UNBLOCKED` and takes none.
proof fn lemma_unblocked_after(tasks: Seq<TaskRecord>, j: int, l: int, tags: Option<Seq<Seq<char>>>)
    requires
        0 <= j < l <= tasks.len(),
    ensures
        has_tag(apply_ops(tags, scan_ops(tasks, l), j), UNBLOCKED@) <==> has_tag(
            apply_ops(tags, scan_ops(tasks, j + 1), j),
            UNBLOCKED@,
        ),
    decreases l,
{
    if l > j + 1 {
        lemma_unblocked_after(tasks, j, l - 1, tags);
        lemma_names_differ();
        let step = step_ops(tasks, l - 1);
        assert(scan_ops(tasks, l) =~= scan_ops(tasks, l - 1) + step);
        lemma_apply_concat(tags, scan_ops(tasks, l - 1), step, j);
        assert forall|x: (int, TagOp)| #[trigger] step.contains(x) && x.0 == j implies x.1 != TagOp::Remove(UNBLOCKED@) by {
            lemma_step_elsewhere(tasks, l - 1, j, x);
        }
        if step.contains((j, TagOp::Add(UNBLOCKED@))) {
            lemma_step_elsewhere(tasks, l - 1, j, (j, TagOp::Add(UNBLOCKED@)));
        }
        lemma_has_after(apply_ops(tags, scan_ops(tasks, l - 1), j), step, j, UNBLOCKED@);
    }
}

proof fn lemma_take_out_once(ts: Seq<Seq<char>>, t: Seq<char>)
    requires
        at_most_once(ts, t),
    ensures
        !without_first(ts, t).contains(t),
{
    if ts.contains(t) {
        lemma_first_index(ts, t);
        let i = choose|i: int| 0 <= i < ts.len() && ts[i] == t && forall|k: int| 0 <= k < i ==> ts[k] != t;
        let r = ts.remove(i);
        if r.contains(t) {
            let k = choose|k: int| 0 <= k < r.len() && r[k] == t;
            if k < i {
                assert(ts[k] == t);
            } else {
                assert(ts[k + 1] == t);
            }
        }
    }
}

proof fn lemma_none_is_once(ts: Seq<Seq<char>>, t: Seq<char>)
    requires
        !ts.contains(t),
    ensures
        at_most_once(ts, t),
{
    assert forall|i: int, k: int| 0 <= i < ts.len() && 0 <= k < ts.len() && ts[i] == t && ts[k] == t implies i == k by {
        assert(ts.contains(t));
    }
}

/// Task `j`'s own dependencies: each that holds it up takes its one
/// `UNBLOCKED` away.
proof fn lemma_unblocked_own(tasks: Seq<TaskRecord>, j: int, k: int, ts0: Seq<Seq<char>>)
    requires
        0 <= k <= deps_of(tasks[j]).len(),
        at_most_once(ts0, UNBLOCKED@),
    ensures
        apply_ops(Some(ts0), deps_ops(tasks, j, k), j) matches Some(ts) && at_most_once(ts, UNBLOCKED@) && (
        ts.contains(UNBLOCKED@) <==> ts0.contains(UNBLOCKED@) && !exists|q: int|
            0 <= q < k && holds_up(tasks, j, #[trigger] deps_of(tasks[j])[q])),
    decreases k,
{
    if k == 0 {
        assert(deps_ops(tasks, j, 0) =~= Seq::<(int, TagOp)>::empty());
    } else {
        lemma_unblocked_own(tasks, j, k - 1, ts0);
        let mid_ops = deps_ops(tasks, j, k - 1);
        let d = deps_of(tasks[j])[k - 1];
        let dep = dependency_ops(tasks, j, d);
        lemma_apply_concat(Some(ts0), mid_ops, dep, j);
        let tm = apply_ops(Some(ts0), mid_ops, j)->0;
        if holds_up(tasks, j, d) {
            lemma_names_differ();
            let r = first_with_uuid(tasks, d)->0;
            let o1 = (j, TagOp::Remove(UNBLOCKED@));
            let o2 = (j, TagOp::Add(BLOCKED@));
            let o3 = (r, TagOp::Add(BLOCKING@));
            assert(dep == seq![o1, o2, o3]);
            assert(dep.drop_last() =~= seq![o1, o2]);
            assert(seq![o1, o2].drop_last() =~= seq![o1]);
            assert(seq![o1].drop_last() =~= Seq::<(int, TagOp)>::empty());
            lemma_take_out_once(tm, UNBLOCKED@);
            let t1 = without_first(tm, UNBLOCKED@);
            let t2 = t1.push(BLOCKED@);
            lemma_seq_contains_after_push(t1, BLOCKED@, UNBLOCKED@);
            lemma_seq_contains_after_push(t2, BLOCKING@, UNBLOCKED@);
            assert(apply_ops(Some(tm), seq![o1].drop_last(), j) == Some(tm));
            assert(seq![o1].last() == o1);
            assert(apply_ops(Some(tm), seq![o1], j) == Some(t1));
            assert(seq![o1, o2].last() == o2);
            assert(dep.last() == o3);
            assert(apply_ops(Some(tm), seq![o1, o2], j) == Some(t2));
            let t3 = if r == j { t2.push(BLOCKING@) } else { t2 };
            assert(apply_ops(Some(tm), dep, j) == Some(t3));
            assert(!t3.contains(UNBLOCKED@));
            lemma_none_is_once(t3, UNBLOCKED@);
        } else {
            assert(dep =~= Seq::<(int, TagOp)>::empty());
            if exists|q: int| 0 <= q < k && holds_up(tasks, j, #[trigger] deps_of(tasks[j])[q]) {
                let q = choose|q: int| 0 <= q < k && holds_up(tasks, j, #[trigger] deps_of(tasks[j])[q]);
                assert(q < k - 1);
            }
        }
    }
}

/// What the dependency scan leaves on task `j`: `BLOCKED` exactly when it
/// had it or waits on an open task, `BLOCKING` exactly when it had it or an
/// open task waits on it, `UNBLOCKED` (where it had none before) exactly
/// when it waits on no open task, and every other tag exactly when it had it.
pub proof fn law_dependency_scan(tasks: Seq<TaskRecord>, j: int, t: Seq<char>)
    requires
        0 <= j < tasks.len(),
    ensures
        ({
            let before = tags_of(tasks[j]);
            let after = apply_ops(before, scan_ops(tasks, tasks.len() as int), j);
            &&& after is Some
            &&& has_tag(after, BLOCKED@) <==> has_tag(before, BLOCKED@) || is_blocked(tasks, j)
            &&& has_tag(after, BLOCKING@) <==> has_tag(before, BLOCKING@) || is_blocking(tasks, j)
            &&& !has_tag(before, UNBLOCKED@) ==> (has_tag(after, UNBLOCKED@) <==> !is_blocked(tasks, j))
            &&& t != UNBLOCKED@ && t != BLOCKED@ && t != BLOCKING@ ==> (has_tag(after, t) <==> has_tag(before, t))
        }),
{
    lemma_names_differ();
    let n = tasks.len() as int;
    let before = tags_of(tasks[j]);
    let ops = scan_ops(tasks, n);
    let after = apply_ops(before, ops, j);
    // the scan's own step for `j` adds `UNBLOCKED`, so the list is there
    let pre = scan_ops(tasks, j);
    let own = step_ops(tasks, j);
    assert(scan_ops(tasks, j + 1) =~= pre + own);
    lemma_apply_concat(before, pre, own, j);
    let t1 = apply_ops(before, pre, j);
    let add_u = seq![(j, TagOp::Add(UNBLOCKED@))];
    let k = deps_of(tasks[j]).len() as int;
    lemma_apply_concat(t1, add_u, deps_ops(tasks, j, k), j);
    assert(add_u.drop_last() =~= Seq::<(int, TagOp)>::empty());
    assert(apply_ops(t1, add_u.drop_last(), j) == t1);
    assert(add_u.last() == (j, TagOp::Add(UNBLOCKED@)));
    let t2 = apply_ops(t1, add_u, j);
    assert(t2 == apply_op(t1, TagOp::Add(UNBLOCKED@)));
    assert(t2 is Some);
    assert(scan_ops(tasks, n) =~= scan_ops(tasks, j + 1) + scan_ops(tasks, n).subrange(
        scan_ops(tasks, j + 1).len() as int,
        scan_ops(tasks, n).len() as int,
    )) by {
        lemma_scan_prefix(tasks, j + 1, n);
    }
    let rest = scan_ops(tasks, n).subrange(scan_ops(tasks, j + 1).len() as int, scan_ops(tasks, n).len() as int);
    lemma_apply_concat(before, scan_ops(tasks, j + 1), rest, j);
    lemma_apply_concat(t1, add_u, deps_ops(tasks, j, k), j);
    lemma_apply_some(t2, deps_ops(tasks, j, k), j);
    lemma_apply_some(apply_ops(before, scan_ops(tasks, j + 1), j), rest, j);
    // tags that the scan never takes out
    assert forall|x: (int, TagOp)| #[trigger] ops.contains(x) && x.0 == j implies x.1 != TagOp::Remove(BLOCKED@)
        && x.1 != TagOp::Remove(BLOCKING@) by {
        lemma_scan_shape(tasks, n, x);
    }
    lemma_has_after(before, ops, j, BLOCKED@);
    lemma_has_after(before, ops, j, BLOCKING@);
    lemma_blocked_op(tasks, j);
    lemma_blocking_op(tasks, j);
    if t != UNBLOCKED@ && t != BLOCKED@ && t != BLOCKING@ {
        assert forall|x: (int, TagOp)| #[trigger] ops.contains(x) && x.0 == j implies x.1 != TagOp::Remove(t) by {
            lemma_scan_shape(tasks, n, x);
        }
        if ops.contains((j, TagOp::Add(t))) {
            lemma_scan_shape(tasks, n, (j, TagOp::Add(t)));
        }
        lemma_has_after(before, ops, j, t);
    }
    if !has_tag(before, UNBLOCKED@) {
        lemma_unblocked_before(tasks, j, before);
        let ts2 = t2->0;
        assert(!has_tag(t1, UNBLOCKED@));
        match t1 {
            Some(ts1) => {
                assert(ts2 == ts1.push(UNBLOCKED@));
                lemma_none_is_once(ts1, UNBLOCKED@);
                assert forall|a: int, b: int|
                    0 <= a < ts2.len() && 0 <= b < ts2.len() && ts2[a] == UNBLOCKED@ && ts2[b] == UNBLOCKED@ implies a == b by {
                    if a < ts1.len() {
                        assert(ts1[a] == UNBLOCKED@);
                        assert(ts1.contains(UNBLOCKED@));
                    }
                    if b < ts1.len() {
                        assert(ts1[b] == UNBLOCKED@);
                        assert(ts1.contains(UNBLOCKED@));
                    }
                }
            },
            None => {
                assert(ts2 == seq![UNBLOCKED@]);
            },
        }
        assert(ts2.contains(UNBLOCKED@)) by {
            assert(ts2[ts2.len() - 1] == UNBLOCKED@);
        }
        lemma_unblocked_own(tasks, j, k, ts2);
        lemma_unblocked_after(tasks, j, n, before);
    }
}

proof fn lemma_scan_prefix(tasks: Seq<TaskRecord>, l: int, n: int)
    requires
        0 <= l <= n,
    ensures
        scan_ops(tasks, l).len() <= scan_ops(tasks, n).len(),
        scan_ops(tasks, n) =~= scan_ops(tasks, l) + scan_ops(tasks, n).subrange(
            scan_ops(tasks, l).len() as int,
            scan_ops(tasks, n).len() as int,
        ),
    decreases n - l,
{
    if l < n {
        lemma_scan_prefix(tasks, l, n - 1);
        assert(scan_ops(tasks, n) =~= scan_ops(tasks, n - 1) + step_ops(tasks, n - 1));
        assert(scan_ops(tasks, n).subrange(0, scan_ops(tasks, l).len() as int) =~= scan_ops(tasks, n - 1).subrange(
            0,
            scan_ops(tasks, l).len() as int,
        ));
    }
}


/// A tag name that the virtual tag pass can add.
pub open spec fn virtual_name(t: Seq<char>) -> bool {
    t == "WAITING"@ || t == "COMPLETED"@ || t == "PENDING"@ || t == "DELETED"@ || t == "ACTIVE"@ || t
        == "SCHEDULED"@ || t == "INSTANCE"@ || t == "UNTIL"@ || t == "ANNOTATED"@ || t == "TAGGED"@ || t
        == "UDA"@ || t == "TEMPLATE"@ || t == "PROJECT"@ || t == "PRIORITY"@ || t == "RECURRING"@ || t
        == "MONTH"@ || t == "QUARTER"@ || t == "YEAR"@ || t == "DUE"@ || t == "TODAY"@ || t == "DUETODAY"@ || t
        == "TOMORROW"@ || t == "OVERDUE"@
}

broadcast proof fn lemma_add_if_has(tags: Option<Seq<Seq<char>>>, c: bool, x: Seq<char>, t: Seq<char>)
    ensures
        #[trigger] has_tag(add_if(tags, c, x), t) <==> has_tag(tags, t) || (c && x == t),
{
    if c {
        match tags {
            Some(ts) => lemma_seq_contains_after_push(ts, x, t),
            None => {
                lemma_seq_contains_after_push(Seq::<Seq<char>>::empty(), x, t);
                assert(seq![x] =~= Seq::<Seq<char>>::empty().push(x));
            },
        }
    }
}

/// The virtual tag pass keeps every tag it does not add.
proof fn lemma_virtual_keeps(task: TaskRecord, tags: Option<Seq<Seq<char>>>, vt: Seq<Seq<char>>, c: Clock, t: Seq<char>)
    requires
        !virtual_name(t),
    ensures
        has_tag(virtual_tags_of(task, tags, vt, c), t) <==> has_tag(tags, t),
{
    broadcast use lemma_add_if_has;

}

/// The virtual tag pass adds `PENDING` to pending tasks, and to no others.
proof fn lemma_virtual_pending(task: TaskRecord, tags: Option<Seq<Seq<char>>>, vt: Seq<Seq<char>>, c: Clock)
    ensures
        has_tag(virtual_tags_of(task, tags, vt, c), "PENDING"@) <==> has_tag(tags, "PENDING"@) || task.status
            == TaskStatus::Pending,
{
    broadcast use lemma_add_if_has;

    reveal_strlit("WAITING");
    reveal_strlit("COMPLETED");
    reveal_strlit("PENDING");
    reveal_strlit("DELETED");
    reveal_strlit("ACTIVE");
    reveal_strlit("SCHEDULED");
    reveal_strlit("INSTANCE");
    reveal_strlit("UNTIL");
    reveal_strlit("ANNOTATED");
    reveal_strlit("TAGGED");
    reveal_strlit("UDA");
    reveal_strlit("TEMPLATE");
    reveal_strlit("PROJECT");
    reveal_strlit("PRIORITY");
    reveal_strlit("RECURRING");
    reveal_strlit("MONTH");
    reveal_strlit("QUARTER");
    reveal_strlit("YEAR");
    reveal_strlit("DUE");
    reveal_strlit("TODAY");
    reveal_strlit("DUETODAY");
    reveal_strlit("TOMORROW");
    reveal_strlit("OVERDUE");
    assert("PENDING"@[0] != "WAITING"@[0]);
    assert("PENDING"@.len() != "COMPLETED"@.len());
    assert("PENDING"@[0] != "DELETED"@[0]);
    assert("PENDING"@.len() != "ACTIVE"@.len());
    assert("PENDING"@.len() != "SCHEDULED"@.len());
    assert("PENDING"@.len() != "INSTANCE"@.len());
    assert("PENDING"@.len() != "UNTIL"@.len());
    assert("PENDING"@.len() != "ANNOTATED"@.len());
    assert("PENDING"@.len() != "TAGGED"@.len());
    assert("PENDING"@.len() != "UDA"@.len());
    assert("PENDING"@.len() != "TEMPLATE"@.len());
    assert("PENDING"@[1] != "PROJECT"@[1]);
    assert("PENDING"@.len() != "PRIORITY"@.len());
    assert("PENDING"@.len() != "RECURRING"@.len());
    assert("PENDING"@.len() != "MONTH"@.len());
    assert("PENDING"@[0] != "QUARTER"@[0]);
    assert("PENDING"@.len() != "YEAR"@.len());
    assert("PENDING"@.len() != "DUE"@.len());
    assert("PENDING"@.len() != "TODAY"@.len());
    assert("PENDING"@.len() != "DUETODAY"@.len());
    assert("PENDING"@.len() != "TOMORROW"@.len());
    assert("PENDING"@[0] != "OVERDUE"@[0]);
}

proof fn lemma_dependency_names_not_virtual()
    ensures
        !virtual_name(UNBLOCKED@),
        !virtual_name(BLOCKED@),
        !virtual_name(BLOCKING@),
        "PENDING"@ != UNBLOCKED@,
        "PENDING"@ != BLOCKED@,
        "PENDING"@ != BLOCKING@,
{
    reveal_strlit("UNBLOCKED");
    reveal_strlit("BLOCKED");
    reveal_strlit("BLOCKING");
    reveal_strlit("WAITING");
    reveal_strlit("COMPLETED");
    reveal_strlit("PENDING");
    reveal_strlit("DELETED");
    reveal_strlit("ACTIVE");
    reveal_strlit("SCHEDULED");
    reveal_strlit("INSTANCE");
    reveal_strlit("UNTIL");
    reveal_strlit("ANNOTATED");
    reveal_strlit("TAGGED");
    reveal_strlit("UDA");
    reveal_strlit("TEMPLATE");
    reveal_strlit("PROJECT");
    reveal_strlit("PRIORITY");
    reveal_strlit("RECURRING");
    reveal_strlit("MONTH");
    reveal_strlit("QUARTER");
    reveal_strlit("YEAR");
    reveal_strlit("DUE");
    reveal_strlit("TODAY");
    reveal_strlit("DUETODAY");
    reveal_strlit("TOMORROW");
    reveal_strlit("OVERDUE");
    assert(UNBLOCKED@.len() != "WAITING"@.len());
    assert(UNBLOCKED@[0] != "COMPLETED"@[0]);
    assert(UNBLOCKED@.len() != "PENDING"@.len());
    assert(UNBLOCKED@.len() != "DELETED"@.len());
    assert(UNBLOCKED@.len() != "ACTIVE"@.len());
    assert(UNBLOCKED@[0] != "SCHEDULED"@[0]);
    assert(UNBLOCKED@.len() != "INSTANCE"@.len());
    assert(UNBLOCKED@.len() != "UNTIL"@.len());
    assert(UNBLOCKED@[0] != "ANNOTATED"@[0]);
    assert(UNBLOCKED@.len() != "TAGGED"@.len());
    assert(UNBLOCKED@.len() != "UDA"@.len());
    assert(UNBLOCKED@.len() != "TEMPLATE"@.len());
    assert(UNBLOCKED@.len() != "PROJECT"@.len());
    assert(UNBLOCKED@.len() != "PRIORITY"@.len());
    assert(UNBLOCKED@[0] != "RECURRING"@[0]);
    assert(UNBLOCKED@.len() != "MONTH"@.len());
    assert(UNBLOCKED@.len() != "QUARTER"@.len());
    assert(UNBLOCKED@.len() != "YEAR"@.len());
    assert(UNBLOCKED@.len() != "DUE"@.len());
    assert(UNBLOCKED@.len() != "TODAY"@.len());
    assert(UNBLOCKED@.len() != "DUETODAY"@.len());
    assert(UNBLOCKED@.len() != "TOMORROW"@.len());
    assert(UNBLOCKED@.len() != "OVERDUE"@.len());
    assert(BLOCKED@[0] != "WAITING"@[0]);
    assert(BLOCKED@.len() != "COMPLETED"@.len());
    assert(BLOCKED@[0] != "PENDING"@[0]);
    assert(BLOCKED@[0] != "DELETED"@[0]);
    assert(BLOCKED@.len() != "ACTIVE"@.len());
    assert(BLOCKED@.len() != "SCHEDULED"@.len());
    assert(BLOCKED@.len() != "INSTANCE"@.len());
    assert(BLOCKED@.len() != "UNTIL"@.len());
    assert(BLOCKED@.len() != "ANNOTATED"@.len());
    assert(BLOCKED@.len() != "TAGGED"@.len());
    assert(BLOCKED@.len() != "UDA"@.len());
    assert(BLOCKED@.len() != "TEMPLATE"@.len());
    assert(BLOCKED@[0] != "PROJECT"@[0]);
    assert(BLOCKED@.len() != "PRIORITY"@.len());
    assert(BLOCKED@.len() != "RECURRING"@.len());
    assert(BLOCKED@.len() != "MONTH"@.len());
    assert(BLOCKED@[0] != "QUARTER"@[0]);
    assert(BLOCKED@.len() != "YEAR"@.len());
    assert(BLOCKED@.len() != "DUE"@.len());
    assert(BLOCKED@.len() != "TODAY"@.len());
    assert(BLOCKED@.len() != "DUETODAY"@.len());
    assert(BLOCKED@.len() != "TOMORROW"@.len());
    assert(BLOCKED@[0] != "OVERDUE"@[0]);
    assert(BLOCKING@.len() != "WAITING"@.len());
    assert(BLOCKING@.len() != "COMPLETED"@.len());
    assert(BLOCKING@.len() != "PENDING"@.len());
    assert(BLOCKING@.len() != "DELETED"@.len());
    assert(BLOCKING@.len() != "ACTIVE"@.len());
    assert(BLOCKING@.len() != "SCHEDULED"@.len());
    assert(BLOCKING@[0] != "INSTANCE"@[0]);
    assert(BLOCKING@.len() != "UNTIL"@.len());
    assert(BLOCKING@.len() != "ANNOTATED"@.len());
    assert(BLOCKING@.len() != "TAGGED"@.len());
    assert(BLOCKING@.len() != "UDA"@.len());
    assert(BLOCKING@[0] != "TEMPLATE"@[0]);
    assert(BLOCKING@.len() != "PROJECT"@.len());
    assert(BLOCKING@[0] != "PRIORITY"@[0]);
    assert(BLOCKING@.len() != "RECURRING"@.len());
    assert(BLOCKING@.len() != "MONTH"@.len());
    assert(BLOCKING@.len() != "QUARTER"@.len());
    assert(BLOCKING@.len() != "YEAR"@.len());
    assert(BLOCKING@.len() != "DUE"@.len());
    assert(BLOCKING@.len() != "TODAY"@.len());
    assert(BLOCKING@[0] != "DUETODAY"@[0]);
    assert(BLOCKING@[0] != "TOMORROW"@[0]);
    assert(BLOCKING@.len() != "OVERDUE"@.len());
    assert("PENDING"@.len() != "UNBLOCKED"@.len());
    assert("PENDING"@[0] != "BLOCKED"@[0]);
    assert("PENDING"@.len() != "BLOCKING"@.len());
}

/// The tags `update_tags` gives task `j`: `BLOCKED` exactly when it had it
/// or waits on an open task, `BLOCKING` exactly when it had it or an open
/// task waits on it, `UNBLOCKED` (where it had none before) exactly when it
/// waits on no open task, and `PENDING` exactly when it had it or is pending.
pub proof fn law_dependency_tags(tasks: Seq<TaskRecord>, j: int, vt: Seq<Seq<char>>, c: Clock)
    requires
        0 <= j < tasks.len(),
    ensures
        ({
            let before = tags_of(tasks[j]);
            let after = updated_tags(tasks, j, vt, c);
            &&& has_tag(after, BLOCKED@) <==> has_tag(before, BLOCKED@) || is_blocked(tasks, j)
            &&& has_tag(after, BLOCKING@) <==> has_tag(before, BLOCKING@) || is_blocking(tasks, j)
            &&& !has_tag(before, UNBLOCKED@) ==> (has_tag(after, UNBLOCKED@) <==> !is_blocked(tasks, j))
            &&& has_tag(after, "PENDING"@) <==> has_tag(before, "PENDING"@) || tasks[j].status
                == TaskStatus::Pending
        }),
{
    let scanned = apply_ops(tags_of(tasks[j]), scan_ops(tasks, tasks.len() as int), j);
    lemma_dependency_names_not_virtual();
    law_dependency_scan(tasks, j, "PENDING"@);
    law_dependency_scan(tasks, j, UNBLOCKED@);
    lemma_virtual_keeps(tasks[j], scanned, vt, c, BLOCKED@);
    lemma_virtual_keeps(tasks[j], scanned, vt, c, BLOCKING@);
    lemma_virtual_keeps(tasks[j], scanned, vt, c, UNBLOCKED@);
    lemma_virtual_pending(tasks[j], scanned, vt, c);
}


/// The local day (days since the epoch) of a UTC time, at offset `offset`.
pub open spec fn local_day(seconds: int, offset: int) -> int {
    (seconds + offset) / 86400
}

/// An open task whose due time falls on the local day after today's.
pub open spec fn due_tomorrow(t: TaskRecord, c: Clock) -> bool {
    is_open(t.status) && match t.due {
        Some(d) => local_day(d.seconds as int, c.offset as int) == local_day(c.now as int, c.offset as int) + 1,
        None => false,
    }
}

/// The virtual tag pass adds `TOMORROW` to an open task due on the local day
/// after today, and to no other task.
proof fn lemma_virtual_tomorrow(task: TaskRecord, tags: Option<Seq<Seq<char>>>, vt: Seq<Seq<char>>, c: Clock)
    ensures
        has_tag(virtual_tags_of(task, tags, vt, c), "TOMORROW"@) <==> has_tag(tags, "TOMORROW"@) || due_tomorrow(task, c),
{
    broadcast use lemma_add_if_has;

    reveal_strlit("WAITING");
    reveal_strlit("COMPLETED");
    reveal_strlit("PENDING");
    reveal_strlit("DELETED");
    reveal_strlit("ACTIVE");
    reveal_strlit("SCHEDULED");
    reveal_strlit("INSTANCE");
    reveal_strlit("UNTIL");
    reveal_strlit("ANNOTATED");
    reveal_strlit("TAGGED");
    reveal_strlit("UDA");
    reveal_strlit("TEMPLATE");
    reveal_strlit("PROJECT");
    reveal_strlit("PRIORITY");
    reveal_strlit("RECURRING");
    reveal_strlit("MONTH");
    reveal_strlit("QUARTER");
    reveal_strlit("YEAR");
    reveal_strlit("DUE");
    reveal_strlit("TODAY");
    reveal_strlit("DUETODAY");
    reveal_strlit("TOMORROW");
    reveal_strlit("OVERDUE");
    reveal_strlit("UNBLOCKED");
    reveal_strlit("BLOCKED");
    reveal_strlit("BLOCKING");
    assert("TOMORROW"@.len() != "WAITING"@.len());
    assert("TOMORROW"@.len() != "COMPLETED"@.len());
    assert("TOMORROW"@.len() != "PENDING"@.len());
    assert("TOMORROW"@.len() != "DELETED"@.len());
    assert("TOMORROW"@.len() != "ACTIVE"@.len());
    assert("TOMORROW"@.len() != "SCHEDULED"@.len());
    assert("TOMORROW"@[0] != "INSTANCE"@[0]);
    assert("TOMORROW"@.len() != "UNTIL"@.len());
    assert("TOMORROW"@.len() != "ANNOTATED"@.len());
    assert("TOMORROW"@.len() != "TAGGED"@.len());
    assert("TOMORROW"@.len() != "UDA"@.len());
    assert("TOMORROW"@[1] != "TEMPLATE"@[1]);
    assert("TOMORROW"@.len() != "PROJECT"@.len());
    assert("TOMORROW"@[0] != "PRIORITY"@[0]);
    assert("TOMORROW"@.len() != "RECURRING"@.len());
    assert("TOMORROW"@.len() != "MONTH"@.len());
    assert("TOMORROW"@.len() != "QUARTER"@.len());
    assert("TOMORROW"@.len() != "YEAR"@.len());
    assert("TOMORROW"@.len() != "DUE"@.len());
    assert("TOMORROW"@.len() != "TODAY"@.len());
    assert("TOMORROW"@[0] != "DUETODAY"@[0]);
    assert("TOMORROW"@.len() != "OVERDUE"@.len());
    assert("TOMORROW"@.len() != "UNBLOCKED"@.len());
    assert("TOMORROW"@.len() != "BLOCKED"@.len());
    assert("TOMORROW"@[0] != "BLOCKING"@[0]);
    if task.due is Some {
        let r = task.due->0.seconds + c.offset;
        let n = c.now + c.offset;
        assert((n + 86400) / 86400 == n / 86400 + 1);
        if r / 86400 == n / 86400 + 1 {
            assert(r < (n / 86400) * 86400 + 2 * 86400);
            assert(n / 86400 * 86400 <= n);
            assert(date_state(task.due->0.seconds as int, c) == DateState::AfterToday);
        }
    }
}

/// `update_tags` gives a task `TOMORROW` exactly when it had it or it is
/// open and due on the local day after today.
pub proof fn law_tomorrow_tag(tasks: Seq<TaskRecord>, j: int, vt: Seq<Seq<char>>, c: Clock)
    requires
        0 <= j < tasks.len(),
    ensures
        has_tag(updated_tags(tasks, j, vt, c), "TOMORROW"@) <==> has_tag(tags_of(tasks[j]), "TOMORROW"@)
            || due_tomorrow(tasks[j], c),
{
    reveal_strlit("WAITING");
    reveal_strlit("COMPLETED");
    reveal_strlit("PENDING");
    reveal_strlit("DELETED");
    reveal_strlit("ACTIVE");
    reveal_strlit("SCHEDULED");
    reveal_strlit("INSTANCE");
    reveal_strlit("UNTIL");
    reveal_strlit("ANNOTATED");
    reveal_strlit("TAGGED");
    reveal_strlit("UDA");
    reveal_strlit("TEMPLATE");
    reveal_strlit("PROJECT");
    reveal_strlit("PRIORITY");
    reveal_strlit("RECURRING");
    reveal_strlit("MONTH");
    reveal_strlit("QUARTER");
    reveal_strlit("YEAR");
    reveal_strlit("DUE");
    reveal_strlit("TODAY");
    reveal_strlit("DUETODAY");
    reveal_strlit("TOMORROW");
    reveal_strlit("OVERDUE");
    reveal_strlit("UNBLOCKED");
    reveal_strlit("BLOCKED");
    reveal_strlit("BLOCKING");
    assert("TOMORROW"@.len() != "WAITING"@.len());
    assert("TOMORROW"@.len() != "COMPLETED"@.len());
    assert("TOMORROW"@.len() != "PENDING"@.len());
    assert("TOMORROW"@.len() != "DELETED"@.len());
    assert("TOMORROW"@.len() != "ACTIVE"@.len());
    assert("TOMORROW"@.len() != "SCHEDULED"@.len());
    assert("TOMORROW"@[0] != "INSTANCE"@[0]);
    assert("TOMORROW"@.len() != "UNTIL"@.len());
    assert("TOMORROW"@.len() != "ANNOTATED"@.len());
    assert("TOMORROW"@.len() != "TAGGED"@.len());
    assert("TOMORROW"@.len() != "UDA"@.len());
    assert("TOMORROW"@[1] != "TEMPLATE"@[1]);
    assert("TOMORROW"@.len() != "PROJECT"@.len());
    assert("TOMORROW"@[0] != "PRIORITY"@[0]);
    assert("TOMORROW"@.len() != "RECURRING"@.len());
    assert("TOMORROW"@.len() != "MONTH"@.len());
    assert("TOMORROW"@.len() != "QUARTER"@.len());
    assert("TOMORROW"@.len() != "YEAR"@.len());
    assert("TOMORROW"@.len() != "DUE"@.len());
    assert("TOMORROW"@.len() != "TODAY"@.len());
    assert("TOMORROW"@[0] != "DUETODAY"@[0]);
    assert("TOMORROW"@.len() != "OVERDUE"@.len());
    assert("TOMORROW"@.len() != "UNBLOCKED"@.len());
    assert("TOMORROW"@.len() != "BLOCKED"@.len());
    assert("TOMORROW"@[0] != "BLOCKING"@[0]);
    let scanned = apply_ops(tags_of(tasks[j]), scan_ops(tasks, tasks.len() as int), j);
    law_dependency_scan(tasks, j, "TOMORROW"@);
    lemma_virtual_tomorrow(tasks[j], scanned, vt, c);
}


/// An open task due on today's local day.
pub open spec fn due_today(t: TaskRecord, c: Clock) -> bool {
    is_open(t.status) && match t.due {
        Some(d) => local_day(d.seconds as int, c.offset as int) == local_day(c.now as int, c.offset as int),
        None => false,
    }
}

/// An open task due today, or due later but within seven days from now.
pub open spec fn due_soon(t: TaskRecord, c: Clock) -> bool {
    is_open(t.status) && match t.due {
        Some(d) => local_day(d.seconds as int, c.offset as int) == local_day(c.now as int, c.offset as int) || (
        local_day(d.seconds as int, c.offset as int) > local_day(c.now as int, c.offset as int) && d.seconds
            <= c.now + 7 * 86400),
        None => false,
    }
}

/// An open task, not a recurring template, whose due time has passed.
pub open spec fn overdue(t: TaskRecord, c: Clock) -> bool {
    is_open(t.status) && t.status != TaskStatus::Recurring && match t.due {
        Some(d) => d.seconds < c.now || (d.seconds == c.now && c.now_nanos > 0),
        None => false,
    }
}

proof fn lemma_virtual_today(task: TaskRecord, tags: Option<Seq<Seq<char>>>, vt: Seq<Seq<char>>, c: Clock)
    ensures
        has_tag(virtual_tags_of(task, tags, vt, c), "TODAY"@) <==> has_tag(tags, "TODAY"@) || due_today(task, c),
{
    broadcast use lemma_add_if_has;

    reveal_strlit("ACTIVE");
    reveal_strlit("ANNOTATED");
    reveal_strlit("BLOCKED");
    reveal_strlit("BLOCKING");
    reveal_strlit("COMPLETED");
    reveal_strlit("DELETED");
    reveal_strlit("DUE");
    reveal_strlit("DUETODAY");
    reveal_strlit("INSTANCE");
    reveal_strlit("MONTH");
    reveal_strlit("OVERDUE");
    reveal_strlit("PENDING");
    reveal_strlit("PRIORITY");
    reveal_strlit("PROJECT");
    reveal_strlit("QUARTER");
    reveal_strlit("RECURRING");
    reveal_strlit("SCHEDULED");
    reveal_strlit("TAGGED");
    reveal_strlit("TEMPLATE");
    reveal_strlit("TODAY");
    reveal_strlit("TOMORROW");
    reveal_strlit("UDA");
    reveal_strlit("UNBLOCKED");
    reveal_strlit("UNTIL");
    reveal_strlit("WAITING");
    reveal_strlit("YEAR");
    assert("TODAY"@.len() != "WAITING"@.len());
    assert("TODAY"@.len() != "COMPLETED"@.len());
    assert("TODAY"@.len() != "PENDING"@.len());
    assert("TODAY"@.len() != "DELETED"@.len());
    assert("TODAY"@.len() != "ACTIVE"@.len());
    assert("TODAY"@.len() != "SCHEDULED"@.len());
    assert("TODAY"@.len() != "INSTANCE"@.len());
    assert("TODAY"@[0] != "UNTIL"@[0]);
    assert("TODAY"@.len() != "ANNOTATED"@.len());
    assert("TODAY"@.len() != "TAGGED"@.len());
    assert("TODAY"@.len() != "UDA"@.len());
    assert("TODAY"@.len() != "TEMPLATE"@.len());
    assert("TODAY"@.len() != "PROJECT"@.len());
    assert("TODAY"@.len() != "PRIORITY"@.len());
    assert("TODAY"@.len() != "RECURRING"@.len());
    assert("TODAY"@[0] != "MONTH"@[0]);
    assert("TODAY"@.len() != "QUARTER"@.len());
    assert("TODAY"@.len() != "YEAR"@.len());
    assert("TODAY"@.len() != "DUE"@.len());
    assert("TODAY"@.len() != "DUETODAY"@.len());
    assert("TODAY"@.len() != "TOMORROW"@.len());
    assert("TODAY"@.len() != "OVERDUE"@.len());
    assert("TODAY"@.len() != "UNBLOCKED"@.len());
    assert("TODAY"@.len() != "BLOCKED"@.len());
    assert("TODAY"@.len() != "BLOCKING"@.len());
    if task.due is Some {
        let r = task.due->0.seconds + c.offset;
        let n = c.now + c.offset;
        assert((n + 86400) / 86400 == n / 86400 + 1);
        assert(n / 86400 * 86400 <= n < n / 86400 * 86400 + 86400);
        assert(r / 86400 * 86400 <= r < r / 86400 * 86400 + 86400);
    }
}

proof fn lemma_virtual_duetoday(task: TaskRecord, tags: Option<Seq<Seq<char>>>, vt: Seq<Seq<char>>, c: Clock)
    ensures
        has_tag(virtual_tags_of(task, tags, vt, c), "DUETODAY"@) <==> has_tag(tags, "DUETODAY"@) || due_today(task, c),
{
    broadcast use lemma_add_if_has;

    reveal_strlit("ACTIVE");
    reveal_strlit("ANNOTATED");
    reveal_strlit("BLOCKED");
    reveal_strlit("BLOCKING");
    reveal_strlit("COMPLETED");
    reveal_strlit("DELETED");
    reveal_strlit("DUE");
    reveal_strlit("DUETODAY");
    reveal_strlit("INSTANCE");
    reveal_strlit("MONTH");
    reveal_strlit("OVERDUE");
    reveal_strlit("PENDING");
    reveal_strlit("PRIORITY");
    reveal_strlit("PROJECT");
    reveal_strlit("QUARTER");
    reveal_strlit("RECURRING");
    reveal_strlit("SCHEDULED");
    reveal_strlit("TAGGED");
    reveal_strlit("TEMPLATE");
    reveal_strlit("TODAY");
    reveal_strlit("TOMORROW");
    reveal_strlit("UDA");
    reveal_strlit("UNBLOCKED");
    reveal_strlit("UNTIL");
    reveal_strlit("WAITING");
    reveal_strlit("YEAR");
    assert("DUETODAY"@.len() != "WAITING"@.len());
    assert("DUETODAY"@.len() != "COMPLETED"@.len());
    assert("DUETODAY"@.len() != "PENDING"@.len());
    assert("DUETODAY"@.len() != "DELETED"@.len());
    assert("DUETODAY"@.len() != "ACTIVE"@.len());
    assert("DUETODAY"@.len() != "SCHEDULED"@.len());
    assert("DUETODAY"@[0] != "INSTANCE"@[0]);
    assert("DUETODAY"@.len() != "UNTIL"@.len());
    assert("DUETODAY"@.len() != "ANNOTATED"@.len());
    assert("DUETODAY"@.len() != "TAGGED"@.len());
    assert("DUETODAY"@.len() != "UDA"@.len());
    assert("DUETODAY"@[0] != "TEMPLATE"@[0]);
    assert("DUETODAY"@.len() != "PROJECT"@.len());
    assert("DUETODAY"@[0] != "PRIORITY"@[0]);
    assert("DUETODAY"@.len() != "RECURRING"@.len());
    assert("DUETODAY"@.len() != "MONTH"@.len());
    assert("DUETODAY"@.len() != "QUARTER"@.len());
    assert("DUETODAY"@.len() != "YEAR"@.len());
    assert("DUETODAY"@.len() != "DUE"@.len());
    assert("DUETODAY"@.len() != "TODAY"@.len());
    assert("DUETODAY"@[0] != "TOMORROW"@[0]);
    assert("DUETODAY"@.len() != "OVERDUE"@.len());
    assert("DUETODAY"@.len() != "UNBLOCKED"@.len());
    assert("DUETODAY"@.len() != "BLOCKED"@.len());
    assert("DUETODAY"@[0] != "BLOCKING"@[0]);
    if task.due is Some {
        let r = task.due->0.seconds + c.offset;
        let n = c.now + c.offset;
        assert((n + 86400) / 86400 == n / 86400 + 1);
        assert(n / 86400 * 86400 <= n < n / 86400 * 86400 + 86400);
        assert(r / 86400 * 86400 <= r < r / 86400 * 86400 + 86400);
    }
}

proof fn lemma_virtual_due(task: TaskRecord, tags: Option<Seq<Seq<char>>>, vt: Seq<Seq<char>>, c: Clock)
    ensures
        has_tag(virtual_tags_of(task, tags, vt, c), "DUE"@) <==> has_tag(tags, "DUE"@) || due_soon(task, c),
{
    broadcast use lemma_add_if_has;

    reveal_strlit("ACTIVE");
    reveal_strlit("ANNOTATED");
    reveal_strlit("BLOCKED");
    reveal_strlit("BLOCKING");
    reveal_strlit("COMPLETED");
    reveal_strlit("DELETED");
    reveal_strlit("DUE");
    reveal_strlit("DUETODAY");
    reveal_strlit("INSTANCE");
    reveal_strlit("MONTH");
    reveal_strlit("OVERDUE");
    reveal_strlit("PENDING");
    reveal_strlit("PRIORITY");
    reveal_strlit("PROJECT");
    reveal_strlit("QUARTER");
    reveal_strlit("RECURRING");
    reveal_strlit("SCHEDULED");
    reveal_strlit("TAGGED");
    reveal_strlit("TEMPLATE");
    reveal_strlit("TODAY");
    reveal_strlit("TOMORROW");
    reveal_strlit("UDA");
    reveal_strlit("UNBLOCKED");
    reveal_strlit("UNTIL");
    reveal_strlit("WAITING");
    reveal_strlit("YEAR");
    assert("DUE"@.len() != "WAITING"@.len());
    assert("DUE"@.len() != "COMPLETED"@.len());
    assert("DUE"@.len() != "PENDING"@.len());
    assert("DUE"@.len() != "DELETED"@.len());
    assert("DUE"@.len() != "ACTIVE"@.len());
    assert("DUE"@.len() != "SCHEDULED"@.len());
    assert("DUE"@.len() != "INSTANCE"@.len());
    assert("DUE"@.len() != "UNTIL"@.len());
    assert("DUE"@.len() != "ANNOTATED"@.len());
    assert("DUE"@.len() != "TAGGED"@.len());
    assert("DUE"@[0] != "UDA"@[0]);
    assert("DUE"@.len() != "TEMPLATE"@.len());
    assert("DUE"@.len() != "PROJECT"@.len());
    assert("DUE"@.len() != "PRIORITY"@.len());
    assert("DUE"@.len() != "RECURRING"@.len());
    assert("DUE"@.len() != "MONTH"@.len());
    assert("DUE"@.len() != "QUARTER"@.len());
    assert("DUE"@.len() != "YEAR"@.len());
    assert("DUE"@.len() != "TODAY"@.len());
    assert("DUE"@.len() != "DUETODAY"@.len());
    assert("DUE"@.len() != "TOMORROW"@.len());
    assert("DUE"@.len() != "OVERDUE"@.len());
    assert("DUE"@.len() != "UNBLOCKED"@.len());
    assert("DUE"@.len() != "BLOCKED"@.len());
    assert("DUE"@.len() != "BLOCKING"@.len());
    if task.due is Some {
        let r = task.due->0.seconds + c.offset;
        let n = c.now + c.offset;
        assert((n + 86400) / 86400 == n / 86400 + 1);
        assert(n / 86400 * 86400 <= n < n / 86400 * 86400 + 86400);
        assert(r / 86400 * 86400 <= r < r / 86400 * 86400 + 86400);
    }
}

proof fn lemma_virtual_overdue(task: TaskRecord, tags: Option<Seq<Seq<char>>>, vt: Seq<Seq<char>>, c: Clock)
    ensures
        has_tag(virtual_tags_of(task, tags, vt, c), "OVERDUE"@) <==> has_tag(tags, "OVERDUE"@) || overdue(task, c),
{
    broadcast use lemma_add_if_has;

    reveal_strlit("ACTIVE");
    reveal_strlit("ANNOTATED");
    reveal_strlit("BLOCKED");
    reveal_strlit("BLOCKING");
    reveal_strlit("COMPLETED");
    reveal_strlit("DELETED");
    reveal_strlit("DUE");
    reveal_strlit("DUETODAY");
    reveal_strlit("INSTANCE");
    reveal_strlit("MONTH");
    reveal_strlit("OVERDUE");
    reveal_strlit("PENDING");
    reveal_strlit("PRIORITY");
    reveal_strlit("PROJECT");
    reveal_strlit("QUARTER");
    reveal_strlit("RECURRING");
    reveal_strlit("SCHEDULED");
    reveal_strlit("TAGGED");
    reveal_strlit("TEMPLATE");
    reveal_strlit("TODAY");
    reveal_strlit("TOMORROW");
    reveal_strlit("UDA");
    reveal_strlit("UNBLOCKED");
    reveal_strlit("UNTIL");
    reveal_strlit("WAITING");
    reveal_strlit("YEAR");
    assert("OVERDUE"@[0] != "WAITING"@[0]);
    assert("OVERDUE"@.len() != "COMPLETED"@.len());
    assert("OVERDUE"@[0] != "PENDING"@[0]);
    assert("OVERDUE"@[0] != "DELETED"@[0]);
    assert("OVERDUE"@.len() != "ACTIVE"@.len());
    assert("OVERDUE"@.len() != "SCHEDULED"@.len());
    assert("OVERDUE"@.len() != "INSTANCE"@.len());
    assert("OVERDUE"@.len() != "UNTIL"@.len());
    assert("OVERDUE"@.len() != "ANNOTATED"@.len());
    assert("OVERDUE"@.len() != "TAGGED"@.len());
    assert("OVERDUE"@.len() != "UDA"@.len());
    assert("OVERDUE"@.len() != "TEMPLATE"@.len());
    assert("OVERDUE"@[0] != "PROJECT"@[0]);
    assert("OVERDUE"@.len() != "PRIORITY"@.len());
    assert("OVERDUE"@.len() != "RECURRING"@.len());
    assert("OVERDUE"@.len() != "MONTH"@.len());
    assert("OVERDUE"@[0] != "QUARTER"@[0]);
    assert("OVERDUE"@.len() != "YEAR"@.len());
    assert("OVERDUE"@.len() != "DUE"@.len());
    assert("OVERDUE"@.len() != "TODAY"@.len());
    assert("OVERDUE"@.len() != "DUETODAY"@.len());
    assert("OVERDUE"@.len() != "TOMORROW"@.len());
    assert("OVERDUE"@.len() != "UNBLOCKED"@.len());
    assert("OVERDUE"@[0] != "BLOCKED"@[0]);
    assert("OVERDUE"@.len() != "BLOCKING"@.len());
    if task.due is Some {
        let r = task.due->0.seconds + c.offset;
        let n = c.now + c.offset;
        assert((n + 86400) / 86400 == n / 86400 + 1);
        assert(n / 86400 * 86400 <= n < n / 86400 * 86400 + 86400);
        assert(r / 86400 * 86400 <= r < r / 86400 * 86400 + 86400);
    }
}

/// What `update_tags` gives a task of its due date: `TODAY` and `DUETODAY`
/// exactly when it had them or it is open and due on today's local day;
/// `DUE` exactly when it had it or it is open and due today or within the
/// next seven days; `OVERDUE` exactly when it had it or it is open, not
/// recurring, and its due time has passed.
pub proof fn law_due_tags(tasks: Seq<TaskRecord>, j: int, vt: Seq<Seq<char>>, c: Clock)
    requires
        0 <= j < tasks.len(),
    ensures
        ({
            let before = tags_of(tasks[j]);
            let after = updated_tags(tasks, j, vt, c);
            &&& has_tag(after, "TODAY"@) <==> has_tag(before, "TODAY"@) || due_today(tasks[j], c)
            &&& has_tag(after, "DUETODAY"@) <==> has_tag(before, "DUETODAY"@) || due_today(tasks[j], c)
            &&& has_tag(after, "DUE"@) <==> has_tag(before, "DUE"@) || due_soon(tasks[j], c)
            &&& has_tag(after, "OVERDUE"@) <==> has_tag(before, "OVERDUE"@) || overdue(tasks[j], c)
        }),
{
    reveal_strlit("ACTIVE");
    reveal_strlit("ANNOTATED");
    reveal_strlit("BLOCKED");
    reveal_strlit("BLOCKING");
    reveal_strlit("COMPLETED");
    reveal_strlit("DELETED");
    reveal_strlit("DUE");
    reveal_strlit("DUETODAY");
    reveal_strlit("INSTANCE");
    reveal_strlit("MONTH");
    reveal_strlit("OVERDUE");
    reveal_strlit("PENDING");
    reveal_strlit("PRIORITY");
    reveal_strlit("PROJECT");
    reveal_strlit("QUARTER");
    reveal_strlit("RECURRING");
    reveal_strlit("SCHEDULED");
    reveal_strlit("TAGGED");
    reveal_strlit("TEMPLATE");
    reveal_strlit("TODAY");
    reveal_strlit("TOMORROW");
    reveal_strlit("UDA");
    reveal_strlit("UNBLOCKED");
    reveal_strlit("UNTIL");
    reveal_strlit("WAITING");
    reveal_strlit("YEAR");
    assert("TODAY"@.len() != "UNBLOCKED"@.len());
    assert("TODAY"@.len() != "BLOCKED"@.len());
    assert("TODAY"@.len() != "BLOCKING"@.len());
    assert("DUETODAY"@.len() != "UNBLOCKED"@.len());
    assert("DUETODAY"@.len() != "BLOCKED"@.len());
    assert("DUETODAY"@[0] != "BLOCKING"@[0]);
    assert("DUE"@.len() != "UNBLOCKED"@.len());
    assert("DUE"@.len() != "BLOCKED"@.len());
    assert("DUE"@.len() != "BLOCKING"@.len());
    assert("OVERDUE"@.len() != "UNBLOCKED"@.len());
    assert("OVERDUE"@[0] != "BLOCKED"@[0]);
    assert("OVERDUE"@.len() != "BLOCKING"@.len());
    let scanned = apply_ops(tags_of(tasks[j]), scan_ops(tasks, tasks.len() as int), j);
    law_dependency_scan(tasks, j, "TODAY"@);
    lemma_virtual_today(tasks[j], scanned, vt, c);
    law_dependency_scan(tasks, j, "DUETODAY"@);
    lemma_virtual_duetoday(tasks[j], scanned, vt, c);
    law_dependency_scan(tasks, j, "DUE"@);
    lemma_virtual_due(tasks[j], scanned, vt, c);
    law_dependency_scan(tasks, j, "OVERDUE"@);
    lemma_virtual_overdue(tasks[j], scanned, vt, c);
}

} // verus!

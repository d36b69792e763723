//! A task as the report reads it, with plain values in place of the
//! taskwarrior export format, and the virtual tags that the report adds to
//! each task.
use vstd::prelude::*;

use crate::text::{chars_eq, chars_eq_str, chars_of};

verus! {

/// The status of a task.
#[derive(Debug, Clone, Copy, PartialEq, Eq, Structural)]
pub enum TaskStatus {
    Pending,
    Deleted,
    Completed,
    Waiting,
    Recurring,
}

/// The name of a status, as taskwarrior writes it.
pub open spec fn status_name(s: TaskStatus) -> Seq<char> {
    match s {
        TaskStatus::Pending => "Pending"@,
        TaskStatus::Deleted => "Deleted"@,
        TaskStatus::Completed => "Completed"@,
        TaskStatus::Waiting => "Waiting"@,
        TaskStatus::Recurring => "Recurring"@,
    }
}

impl TaskStatus {
    /// The name of the status.
    pub fn name(&self) -> (r: String)
        ensures
            r@ == status_name(*self),
    {
        match self {
            TaskStatus::Pending => String::from_str("Pending"),
            TaskStatus::Deleted => String::from_str("Deleted"),
            TaskStatus::Completed => String::from_str("Completed"),
            TaskStatus::Waiting => String::from_str("Waiting"),
            TaskStatus::Recurring => String::from_str("Recurring"),
        }
    }
}

/// A user-defined attribute's value: text, a number rendered as text, or
/// an unsigned number.
#[derive(Debug, Clone)]
pub enum UdaValue {
    Str(String),
    Float(String),
    U64(u64),
}

/// A point in time: seconds since the epoch, read as UTC, and its date as
/// the user's time zone writes it (`%Y-%m-%d`).
#[derive(Debug, Clone)]
pub struct TaskDate {
    pub seconds: i64,
    pub local_date: String,
}

/// A task.
#[derive(Debug, Clone)]
pub struct TaskRecord {
    pub id: Option<u64>,
    /// The 128 bits of the task's UUID.
    pub uuid: u128,
    pub description: String,
    pub status: TaskStatus,
    pub entry: TaskDate,
    pub due: Option<TaskDate>,
    pub until: Option<TaskDate>,
    pub start: Option<TaskDate>,
    pub end: Option<TaskDate>,
    pub wait: Option<TaskDate>,
    pub scheduled: Option<TaskDate>,
    pub project: Option<String>,
    pub priority: Option<String>,
    pub tags: Option<Vec<String>>,
    pub depends: Option<Vec<u128>>,
    pub recur: Option<String>,
    pub parent: Option<u128>,
    pub mask: Option<String>,
    /// The number of annotations, when the task has its list of them.
    pub annotations: Option<usize>,
    /// The urgency with two decimals, when the task has one.
    pub urgency: Option<String>,
    pub udas: Vec<(String, UdaValue)>,
}

/// The tags of a task, if it has its list of them.
pub open spec fn tags_of(t: TaskRecord) -> Option<Seq<Seq<char>>> {
    list_view(t.tags)
}

/// `tags` with the first `tag` taken out, if there is one.
pub open spec fn without_first(tags: Seq<Seq<char>>, tag: Seq<char>) -> Seq<Seq<char>> {
    if tags.contains(tag) {
        let i = choose|i: int| 0 <= i < tags.len() && tags[i] == tag && forall|k: int| 0 <= k < i ==> tags[k] != tag;
        tags.remove(i)
    } else {
        tags
    }
}

/// Adding and removing tags.
pub trait TaskwarriorTuiTask {
    /// The tags, if the task has its list of them.
    spec fn tag_list(&self) -> Option<Seq<Seq<char>>>;

    /// Append `tag`, starting the list if there is none.
    fn add_tag(&mut self, tag: String)
        ensures
            final(self).tag_list() == Some(
                match old(self).tag_list() {
                    Some(t) => t.push(tag@),
                    None => seq![tag@],
                },
            ),
    ;

    /// Take out the first `tag`, if there is one.
    fn remove_tag(&mut self, tag: &str)
        ensures
            final(self).tag_list() == match old(self).tag_list() {
                Some(t) => Some(without_first(t, tag@)),
                None => None::<Seq<Seq<char>>>,
            },
    ;
}

proof fn lemma_without_first_at(tags: Seq<Seq<char>>, tag: Seq<char>, i: int)
    requires
        0 <= i < tags.len(),
        tags[i] == tag,
        forall|k: int| 0 <= k < i ==> tags[k] != tag,
    ensures
        without_first(tags, tag) == tags.remove(i),
{
    let j = choose|j: int| 0 <= j < tags.len() && tags[j] == tag && forall|k: int| 0 <= k < j ==> tags[k] != tag;
    if j < i {
        assert(tags[j] != tag);
    } else if j > i {
        assert(tags[i] != tag);
    }
}

/// Append `tag` to a tag list, starting the list if there is none.
pub fn add_to_list(list: &mut Option<Vec<String>>, tag: String)
    ensures
        list_view(*final(list)) == Some(
            match list_view(*old(list)) {
                Some(t) => t.push(tag@),
                None => seq![tag@],
            },
        ),
{
    let ghost tv = tag@;
    match list.take() {
        Some(mut t) => {
            let ghost before = t@.map_values(|s: String| s@);
            t.push(tag);
            assert(t@.map_values(|s: String| s@) =~= before.push(tv));
            *list = Some(t);
        },
        None => {
            let t = vec![tag];
            assert(t@.map_values(|s: String| s@) =~= seq![tv]);
            *list = Some(t);
        },
    }
}

/// Take the first `tag` out of a tag list, if there is one.
pub fn remove_from_list(list: &mut Option<Vec<String>>, tag: &str)
    ensures
        list_view(*final(list)) == match list_view(*old(list)) {
            Some(t) => Some(without_first(t, tag@)),
            None => None::<Seq<Seq<char>>>,
        },
{
    let ts = String::from_str(tag);
    match list.take() {
        Some(mut t) => {
            let ghost before = t@.map_values(|s: String| s@);
            let mut i: usize = 0;
            let mut found = false;
            while i < t.len() && !found
                invariant
                    i <= t@.len(),
                    ts@ == tag@,
                    before == t@.map_values(|s: String| s@),
                    found ==> i < t@.len() && before[i as int] == tag@,
                    forall|k: int| 0 <= k < i ==> before[k] != tag@,
                decreases t.len() - i, if found { 0int } else { 1int },
            {
                if t[i].eq(&ts) {
                    found = true;
                } else {
                    i += 1;
                }
            }
            if found {
                proof {
                    lemma_without_first_at(before, tag@, i as int);
                }
                t.remove(i);
                assert(t@.map_values(|s: String| s@) =~= before.remove(i as int));
            } else {
                proof {
                    if before.contains(tag@) {
                        let k = choose|k: int| 0 <= k < before.len() && before[k] == tag@;
                    }
                }
            }
            *list = Some(t);
        },
        None => {},
    }
}

impl TaskwarriorTuiTask for TaskRecord {
    open spec fn tag_list(&self) -> Option<Seq<Seq<char>>> {
        tags_of(*self)
    }

    fn add_tag(&mut self, tag: String)
        ensures
            fields_equal(*final(self), *old(self)),
    {
        add_to_list(&mut self.tags, tag);
    }

    fn remove_tag(&mut self, tag: &str)
        ensures
            fields_equal(*final(self), *old(self)),
    {
        remove_from_list(&mut self.tags, tag);
    }
}

/// A change to the tags of one task.
pub enum TagOp {
    Add(Seq<char>),
    Remove(Seq<char>),
}

/// The tags after `op`.
pub open spec fn apply_op(tags: Option<Seq<Seq<char>>>, op: TagOp) -> Option<Seq<Seq<char>>> {
    match op {
        TagOp::Add(t) => Some(
            match tags {
                Some(ts) => ts.push(t),
                None => seq![t],
            },
        ),
        TagOp::Remove(t) => match tags {
            Some(ts) => Some(without_first(ts, t)),
            None => None,
        },
    }
}

/// The tags of task `i` after the changes `ops`, in order, of which those
/// of other tasks do not touch it.
pub open spec fn apply_ops(tags: Option<Seq<Seq<char>>>, ops: Seq<(int, TagOp)>, i: int) -> Option<Seq<Seq<char>>>
    decreases ops.len(),
{
    if ops.len() == 0 {
        tags
    } else {
        let prev = apply_ops(tags, ops.drop_last(), i);
        if ops.last().0 == i {
            apply_op(prev, ops.last().1)
        } else {
            prev
        }
    }
}

/// Neither completed nor deleted.
pub open spec fn is_open(s: TaskStatus) -> bool {
    s != TaskStatus::Completed && s != TaskStatus::Deleted
}

/// The index of the first task with UUID `u`.
#[verifier::opaque]
pub open spec fn first_with_uuid(tasks: Seq<TaskRecord>, u: u128) -> Option<int> {
    if exists|r: int| 0 <= r < tasks.len() && tasks[r].uuid == u {
        Some(choose|r: int| 0 <= r < tasks.len() && tasks[r].uuid == u && forall|k: int| 0 <= k < r ==> tasks[k].uuid != u)
    } else {
        None
    }
}

/// Tag names the report adds.
pub const UNBLOCKED: &'static str = "UNBLOCKED";

/// A task that waits on an open task.
pub const BLOCKED: &'static str = "BLOCKED";

/// A task that an open task waits on.
pub const BLOCKING: &'static str = "BLOCKING";

/// The changes that dependency `u` of task `l` makes: when both `l` and the
/// first task with that UUID are open, `l` loses `UNBLOCKED` and gains
/// `BLOCKED`, and the other gains `BLOCKING`.
pub open spec fn dependency_ops(tasks: Seq<TaskRecord>, l: int, u: u128) -> Seq<(int, TagOp)> {
    match first_with_uuid(tasks, u) {
        Some(r) => if is_open(tasks[l].status) && is_open(tasks[r].status) {
            seq![(l, TagOp::Remove(UNBLOCKED@)), (l, TagOp::Add(BLOCKED@)), (r, TagOp::Add(BLOCKING@))]
        } else {
            Seq::empty()
        },
        None => Seq::empty(),
    }
}

/// The dependencies of a task.
pub open spec fn deps_of(t: TaskRecord) -> Seq<u128> {
    match t.depends {
        Some(v) => v@,
        None => Seq::empty(),
    }
}

/// The changes that the first `k` dependencies of task `l` make.
pub open spec fn deps_ops(tasks: Seq<TaskRecord>, l: int, k: int) -> Seq<(int, TagOp)>
    decreases k,
{
    if k <= 0 {
        Seq::empty()
    } else {
        deps_ops(tasks, l, k - 1) + dependency_ops(tasks, l, deps_of(tasks[l])[k - 1])
    }
}

/// The changes that the dependency scan makes for the first `l` tasks: each
/// gains `UNBLOCKED`, then its dependencies act in order.
pub open spec fn scan_ops(tasks: Seq<TaskRecord>, l: int) -> Seq<(int, TagOp)>
    decreases l,
{
    if l <= 0 {
        Seq::empty()
    } else {
        scan_ops(tasks, l - 1) + seq![(l - 1, TagOp::Add(UNBLOCKED@))] + deps_ops(
            tasks,
            l - 1,
            deps_of(tasks[l - 1]).len() as int,
        )
    }
}

/// `a` and `b` agree on everything but their tags.
pub open spec fn fields_equal(a: TaskRecord, b: TaskRecord) -> bool {
    &&& a.id == b.id
    &&& a.uuid == b.uuid
    &&& a.description == b.description
    &&& a.status == b.status
    &&& a.entry == b.entry
    &&& a.due == b.due
    &&& a.until == b.until
    &&& a.start == b.start
    &&& a.end == b.end
    &&& a.wait == b.wait
    &&& a.scheduled == b.scheduled
    &&& a.project == b.project
    &&& a.priority == b.priority
    &&& a.depends == b.depends
    &&& a.recur == b.recur
    &&& a.parent == b.parent
    &&& a.mask == b.mask
    &&& a.annotations == b.annotations
    &&& a.urgency == b.urgency
    &&& a.udas == b.udas
}

/// `after` holds the tasks of `before` with only their tags changed.
pub open spec fn same_but_tags(before: Seq<TaskRecord>, after: Seq<TaskRecord>) -> bool {
    &&& before.len() == after.len()
    &&& forall|i: int| 0 <= i < before.len() ==> fields_equal(#[trigger] after[i], before[i])
}

/// The tags that a tag list holds.
pub open spec fn list_view(o: Option<Vec<String>>) -> Option<Seq<Seq<char>>> {
    match o {
        Some(v) => Some(v@.map_values(|s: String| s@)),
        None => None,
    }
}

fn apply_to(
    lists: &mut Vec<Option<Vec<String>>>,
    i: usize,
    op_add: bool,
    tag: &str,
    Ghost(ops): Ghost<Seq<(int, TagOp)>>,
    Ghost(orig): Ghost<Seq<Option<Seq<Seq<char>>>>>,
)
    requires
        i < old(lists)@.len(),
        old(lists)@.len() == orig.len(),
        forall|j: int| 0 <= j < orig.len() ==> #[trigger] list_view(old(lists)@[j]) == apply_ops(orig[j], ops, j),
    ensures
        final(lists)@.len() == orig.len(),
        forall|j: int|
            0 <= j < orig.len() ==> #[trigger] list_view(final(lists)@[j]) == apply_ops(
                orig[j],
                ops.push((i as int, if op_add { TagOp::Add(tag@) } else { TagOp::Remove(tag@) })),
                j,
            ),
{
    let ghost op = if op_add { TagOp::Add(tag@) } else { TagOp::Remove(tag@) };
    let ghost new_ops = ops.push((i as int, op));
    let ghost before = lists@;
    let mut cur = lists.remove(i);
    if op_add {
        add_to_list(&mut cur, String::from_str(tag));
    } else {
        remove_from_list(&mut cur, tag);
    }
    lists.insert(i, cur);
    proof {
        assert forall|j: int| 0 <= j < orig.len() implies #[trigger] list_view(lists@[j]) == apply_ops(orig[j], new_ops, j) by {
            assert(new_ops.drop_last() =~= ops);
            if j != i {
                assert(lists@[j] == before[j]);
            }
        }
    }
}

/// The index of the first task with UUID `u`.
pub fn first_index_with_uuid(tasks: &Vec<TaskRecord>, u: u128) -> (r: Option<usize>)
    ensures
        match r {
            Some(k) => k < tasks@.len() && first_with_uuid(tasks@, u) == Some(k as int),
            None => first_with_uuid(tasks@, u) is None,
        },
{
    proof {
        reveal(first_with_uuid);
    }
    let mut k: usize = 0;
    while k < tasks.len()
        invariant
            k <= tasks@.len(),
            forall|m: int| 0 <= m < k ==> tasks@[m].uuid != u,
        decreases tasks.len() - k,
    {
        if tasks[k].uuid == u {
            proof {
                reveal(first_with_uuid);
                let c = choose|r: int| 0 <= r < tasks@.len() && tasks@[r].uuid == u && forall|m: int| 0 <= m < r ==> tasks@[m].uuid != u;
                if c < k {
                } else if c > k {
                    assert(tasks@[k as int].uuid == u);
                }
            }
            return Some(k);
        }
        k += 1;
    }
    None
}

fn scan_dependency(
    tasks: &Vec<TaskRecord>,
    lists: &mut Vec<Option<Vec<String>>>,
    l: usize,
    u: u128,
    Ghost(orig): Ghost<Seq<Option<Seq<Seq<char>>>>>,
    Ghost(base): Ghost<Seq<(int, TagOp)>>,
)
    requires
        l < tasks@.len(),
        old(lists)@.len() == orig.len(),
        orig.len() == tasks@.len(),
        forall|j: int| 0 <= j < orig.len() ==> #[trigger] list_view(old(lists)@[j]) == apply_ops(orig[j], base, j),
    ensures
        final(lists)@.len() == orig.len(),
        forall|j: int| 0 <= j < orig.len() ==> #[trigger] list_view(final(lists)@[j]) == apply_ops(
            orig[j],
            base + dependency_ops(tasks@, l as int, u),
            j,
        ),
{
    match first_index_with_uuid(tasks, u) {
        Some(r) => {
            let open_l = tasks[l].status != TaskStatus::Completed && tasks[l].status != TaskStatus::Deleted;
            let open_r = tasks[r].status != TaskStatus::Completed && tasks[r].status != TaskStatus::Deleted;
            if open_l && open_r {
                apply_to(lists, l, false, UNBLOCKED, Ghost(base), Ghost(orig));
                let ghost b1 = base.push((l as int, TagOp::Remove(UNBLOCKED@)));
                apply_to(lists, l, true, BLOCKED, Ghost(b1), Ghost(orig));
                let ghost b2 = b1.push((l as int, TagOp::Add(BLOCKED@)));
                apply_to(lists, r, true, BLOCKING, Ghost(b2), Ghost(orig));
                proof {
                    let b3 = b2.push((r as int, TagOp::Add(BLOCKING@)));
                    assert(base + dependency_ops(tasks@, l as int, u) =~= b3);
                }
            } else {
                proof {
                    assert(base + dependency_ops(tasks@, l as int, u) =~= base);
                }
            }
        },
        None => {
            proof {
                assert(base + dependency_ops(tasks@, l as int, u) =~= base);
            }
        },
    }
}

fn tag_lists(tasks: &Vec<TaskRecord>) -> (r: Vec<Option<Vec<String>>>)
    ensures
        r@.len() == tasks@.len(),
        forall|j: int| 0 <= j < tasks@.len() ==> #[trigger] list_view(r@[j]) == tags_of(tasks@[j]),
{
    let n = tasks.len();
    let mut lists: Vec<Option<Vec<String>>> = Vec::new();
    let mut i: usize = 0;
    while i < n
        invariant
            n == tasks@.len(),
            i <= n,
            lists@.len() == i,
            forall|j: int| 0 <= j < i ==> #[trigger] list_view(lists@[j]) == tags_of(tasks@[j]),
        decreases n - i,
    {
        let copy = copy_list(&tasks[i].tags);
        lists.push(copy);
        i += 1;
    }
    lists
}

fn copy_list(o: &Option<Vec<String>>) -> (r: Option<Vec<String>>)
    ensures
        list_view(r) == list_view(*o),
{
    match o {
        Some(v) => {
            let mut c: Vec<String> = Vec::new();
            let mut k: usize = 0;
            while k < v.len()
                invariant
                    k <= v@.len(),
                    c@.len() == k,
                    forall|q: int| 0 <= q < k ==> #[trigger] c@[q] == v@[q],
                decreases v.len() - k,
            {
                c.push(v[k].clone());
                k += 1;
            }
            assert(c@.map_values(|s: String| s@) =~= v@.map_values(|s: String| s@));
            Some(c)
        },
        None => None,
    }
}

fn scan_task(
    tasks: &Vec<TaskRecord>,
    lists: &mut Vec<Option<Vec<String>>>,
    l: usize,
    Ghost(orig): Ghost<Seq<Option<Seq<Seq<char>>>>>,
)
    requires
        l < tasks@.len(),
        old(lists)@.len() == orig.len(),
        orig.len() == tasks@.len(),
        forall|j: int| 0 <= j < orig.len() ==> #[trigger] list_view(old(lists)@[j]) == apply_ops(orig[j], scan_ops(tasks@, l as int), j),
    ensures
        final(lists)@.len() == orig.len(),
        forall|j: int| 0 <= j < orig.len() ==> #[trigger] list_view(final(lists)@[j]) == apply_ops(orig[j], scan_ops(tasks@, l + 1), j),
{
    let n = tasks.len();
    let ghost ops0 = scan_ops(tasks@, l as int);
    apply_to(lists, l, true, UNBLOCKED, Ghost(ops0), Ghost(orig));
    let ghost head = ops0.push((l as int, TagOp::Add(UNBLOCKED@)));
    let empty: Vec<u128> = Vec::new();
    let deps: &Vec<u128> = match &tasks[l].depends {
        Some(v) => v,
        None => &empty,
    };
    assert(deps@ == deps_of(tasks@[l as int]));
    let mut k: usize = 0;
    let ghost mut ops = head;
    proof {
        assert(head + deps_ops(tasks@, l as int, 0) =~= head);
    }
    while k < deps.len()
        invariant
            n == tasks@.len(),
            n == orig.len(),
            l < n,
            k <= deps@.len(),
            lists@.len() == n,
            deps@ == deps_of(tasks@[l as int]),
            ops == head + deps_ops(tasks@, l as int, k as int),
            forall|j: int| 0 <= j < orig.len() ==> #[trigger] list_view(lists@[j]) == apply_ops(orig[j], ops, j),
        decreases deps.len() - k,
    {
        let u = deps[k];
        scan_dependency(tasks, lists, l, u, Ghost(orig), Ghost(ops));
        proof {
            assert(head + deps_ops(tasks@, l as int, k + 1) =~= ops + dependency_ops(tasks@, l as int, u));
            ops = ops + dependency_ops(tasks@, l as int, u);
        }
        k += 1;
    }
    proof {
        assert(scan_ops(tasks@, l + 1) =~= head + deps_ops(tasks@, l as int, deps_of(tasks@[l as int]).len() as int));
    }
}

/// The tags of every task after the dependency scan: every task gains
/// `UNBLOCKED`; a task waiting on an open task, while open itself, loses it
/// and gains `BLOCKED`, and the task it waits on gains `BLOCKING`.
pub fn scan_dependencies(tasks: &Vec<TaskRecord>) -> (r: Vec<Option<Vec<String>>>)
    ensures
        r@.len() == tasks@.len(),
        forall|j: int|
            0 <= j < tasks@.len() ==> #[trigger] list_view(r@[j]) == apply_ops(
                tags_of(tasks@[j]),
                scan_ops(tasks@, tasks@.len() as int),
                j,
            ),
{
    let ghost orig = tasks@.map_values(|t: TaskRecord| tags_of(t));
    let n = tasks.len();
    let mut lists = tag_lists(tasks);
    let mut l: usize = 0;
    proof {
        assert forall|j: int| 0 <= j < orig.len() implies #[trigger] list_view(lists@[j]) == apply_ops(orig[j], scan_ops(tasks@, 0), j) by {}
    }
    while l < n
        invariant
            n == tasks@.len(),
            n == orig.len(),
            orig == tasks@.map_values(|t: TaskRecord| tags_of(t)),
            l <= n,
            lists@.len() == n,
            forall|j: int| 0 <= j < orig.len() ==> #[trigger] list_view(lists@[j]) == apply_ops(orig[j], scan_ops(tasks@, l as int), j),
        decreases n - l,
    {
        scan_task(tasks, &mut lists, l, Ghost(orig));
        l += 1;
    }
    lists
}


/// The moment the virtual tags are computed for: the time in seconds since
/// the epoch (read as UTC) with its nanoseconds, and how far local time is
/// ahead of UTC, in seconds.
#[derive(Debug, Clone, Copy)]
pub struct Clock {
    pub now: i64,
    pub now_nanos: u32,
    pub offset: i64,
}

/// Times up to this many seconds from the epoch, either way, are handled.
pub const TIME_LIMIT: i64 = 0x4_0000_0000_0000;

/// Offsets up to this many seconds, either way, are handled.
pub const OFFSET_LIMIT: i64 = 0x10_0000;

/// The clock is within the handled range.
pub open spec fn clock_ok(c: Clock) -> bool {
    -TIME_LIMIT < c.now < TIME_LIMIT && -OFFSET_LIMIT < c.offset < OFFSET_LIMIT && c.now_nanos < 1_000_000_000
}

/// Every date of the task is within the handled range.
pub open spec fn dates_ok(t: TaskRecord) -> bool {
    t.due matches Some(d) ==> -TIME_LIMIT < d.seconds < TIME_LIMIT
}

/// The date (year, month from 1, day from 1) that is `z` days after
/// 1970-01-01 in the proleptic Gregorian calendar.
pub open spec fn civil_from_days(z: int) -> (int, int, int) {
    let z = z + 719468;
    let era = z / 146097;
    let doe = z - era * 146097;
    let yoe = (doe - doe / 1460 + doe / 36524 - doe / 146096) / 365;
    let doy = doe - (365 * yoe + yoe / 4 - yoe / 100);
    let mp = (5 * doy + 2) / 153;
    let d = doy - (153 * mp + 2) / 5 + 1;
    let m = if mp < 10 {
        mp + 3
    } else {
        mp - 9
    };
    (yoe + era * 400 + if m <= 2 {
        1int
    } else {
        0int
    }, m, d)
}

/// The calendar date and time of a UTC time: year, month (1 to 12), day (1
/// to 31), hour, minute, second; none for a date outside the years -262143
/// to 262142 that `chrono` represents.
pub open spec fn civil_datetime(seconds: int) -> Option<(int, int, int, int, int, int)> {
    let (y, m, d) = civil_from_days(seconds / 86400);
    let s = seconds % 86400;
    if -262143 <= y <= 262142 {
        Some((y, m, d, s / 3600, s % 3600 / 60, s % 60))
    } else {
        None
    }
}

/// `chrono::DateTime::from_timestamp` and the calendar fields of the time it
/// gives: the day is the floor of the seconds over a day, counted from the
/// epoch's day, and the time is the rest; none where the day is no date
/// chrono represents (its `NaiveDate` runs from -262143-01-01 to
/// 262142-12-31).
#[verifier::external_body]
pub(crate) fn civil_of(seconds: i64) -> (r: Option<(i32, u32, u32, u32, u32, u32)>)
    ensures
        match civil_datetime(seconds as int) {
            Some((y, mo, d, h, mi, s)) => r matches Some((a, b, c, e, f, g)) && a as int == y && b as int == mo
                && c as int == d && e as int == h && f as int == mi && g as int == s,
            None => r is None,
        },
{
    match chrono::DateTime::from_timestamp(seconds, 0) {
        Some(t) => Some(
            (
                chrono::Datelike::year(&t),
                chrono::Datelike::month(&t),
                chrono::Datelike::day(&t),
                chrono::Timelike::hour(&t),
                chrono::Timelike::minute(&t),
                chrono::Timelike::second(&t),
            ),
        ),
        None => None,
    }
}

/// The year and month of a UTC time.
pub open spec fn civil_year_month(seconds: int) -> Option<(int, int)> {
    match civil_datetime(seconds) {
        Some((y, mo, _, _, _, _)) => Some((y, mo)),
        None => None,
    }
}

fn year_month(seconds: i64) -> (r: Option<(i32, u32)>)
    ensures
        match civil_year_month(seconds as int) {
            Some((y, m)) => r matches Some((a, b)) && a as int == y && b as int == m,
            None => r is None,
        },
{
    match civil_of(seconds) {
        Some((y, mo, _, _, _, _)) => Some((y, mo)),
        None => None,
    }
}

/// Seconds in a day.
pub const DAY: i64 = 86400;

/// Where a due date falls relative to now.
#[derive(Debug, Clone, Copy, PartialEq, Eq, Structural)]
pub enum DateState {
    BeforeToday,
    EarlierToday,
    LaterToday,
    AfterToday,
    NotDue,
}

/// Where the due time `due` (UTC seconds) falls, in local time: before
/// today, earlier or later today, within the next seven days, or later.
pub open spec fn date_state(due: int, c: Clock) -> DateState {
    let r = due + c.offset;
    let n = c.now + c.offset;
    if r / 86400 < n / 86400 {
        DateState::BeforeToday
    } else if r / 86400 == n / 86400 {
        if r % 86400 < n % 86400 || (r % 86400 == n % 86400 && c.now_nanos > 0) {
            DateState::EarlierToday
        } else {
            DateState::LaterToday
        }
    } else if r <= n + 7 * 86400 {
        DateState::AfterToday
    } else {
        DateState::NotDue
    }
}

const SHIFT_DAYS: i64 = 0x4_0000_0000;

proof fn lemma_shifted_div(x: int)
    requires
        -TIME_LIMIT - OFFSET_LIMIT - 8 * 86400 < x < TIME_LIMIT + OFFSET_LIMIT + 8 * 86400,
    ensures
        0 <= x + SHIFT_DAYS * 86400,
        (x + SHIFT_DAYS * 86400) / 86400 == x / 86400 + SHIFT_DAYS,
        (x + SHIFT_DAYS * 86400) % 86400 == x % 86400,
{
    assert((x + SHIFT_DAYS * 86400) / 86400 == x / 86400 + SHIFT_DAYS) by (nonlinear_arith);
    assert((x + SHIFT_DAYS * 86400) % 86400 == x % 86400) by (nonlinear_arith);
}

fn day_and_time(x: i64) -> (r: (i64, i64))
    requires
        -TIME_LIMIT - OFFSET_LIMIT - 8 * 86400 < x < TIME_LIMIT + OFFSET_LIMIT + 8 * 86400,
    ensures
        r.0 == x / 86400,
        r.1 == x % 86400,
{
    proof {
        lemma_shifted_div(x as int);
    }
    let y = (x + SHIFT_DAYS * DAY) as u64;
    let d = (y / 86400) as i64 - SHIFT_DAYS;
    let t = (y % 86400) as i64;
    (d, t)
}

/// Where the due time `due` falls relative to now.
pub fn get_date_state(due: i64, c: &Clock) -> (r: DateState)
    requires
        clock_ok(*c),
        -TIME_LIMIT < due < TIME_LIMIT,
    ensures
        r == date_state(due as int, *c),
{
    let r = due + c.offset;
    let n = c.now + c.offset;
    let (rd, rt) = day_and_time(r);
    let (nd, nt) = day_and_time(n);
    if rd < nd {
        DateState::BeforeToday
    } else if rd == nd {
        if rt < nt || (rt == nt && c.now_nanos > 0) {
            DateState::EarlierToday
        } else {
            DateState::LaterToday
        }
    } else if r <= n + 7 * DAY {
        DateState::AfterToday
    } else {
        DateState::NotDue
    }
}

/// The month of a local time.
pub open spec fn month_of(seconds: int) -> Option<int> {
    match civil_year_month(seconds) {
        Some((_, m)) => Some(m),
        None => None,
    }
}

/// The year of a local time.
pub open spec fn year_of(seconds: int) -> Option<int> {
    match civil_year_month(seconds) {
        Some((y, _)) => Some(y),
        None => None,
    }
}

/// `tags` with `tag` appended when `cond` holds.
pub open spec fn add_if(tags: Option<Seq<Seq<char>>>, cond: bool, tag: Seq<char>) -> Option<Seq<Seq<char>>> {
    if cond {
        apply_op(tags, TagOp::Add(tag))
    } else {
        tags
    }
}

/// Some tag of `tags` is not a virtual tag.
pub open spec fn has_user_tag(tags: Option<Seq<Seq<char>>>, vt: Seq<Seq<char>>) -> bool {
    tags is Some && exists|i: int| 0 <= i < tags.unwrap().len() && !vt.contains(#[trigger] tags.unwrap()[i])
}

/// The status tags and the tags of the dates and lists a task has.
pub open spec fn state_tags(t: TaskRecord, tags: Option<Seq<Seq<char>>>) -> Option<Seq<Seq<char>>> {
    let a = match t.status {
        TaskStatus::Waiting => add_if(tags, true, "WAITING"@),
        TaskStatus::Completed => add_if(tags, true, "COMPLETED"@),
        TaskStatus::Pending => add_if(tags, true, "PENDING"@),
        TaskStatus::Deleted => add_if(tags, true, "DELETED"@),
        TaskStatus::Recurring => tags,
    };
    let a = add_if(a, t.start is Some, "ACTIVE"@);
    let a = add_if(a, t.scheduled is Some, "SCHEDULED"@);
    let a = add_if(a, t.parent is Some, "INSTANCE"@);
    let a = add_if(a, t.until is Some, "UNTIL"@);
    add_if(a, t.annotations is Some, "ANNOTATED"@)
}

/// The tags of the attributes a task has.
pub open spec fn attribute_tags(t: TaskRecord, tags: Option<Seq<Seq<char>>>) -> Option<Seq<Seq<char>>> {
    let a = add_if(tags, t.udas@.len() > 0, "UDA"@);
    let a = add_if(a, t.mask is Some, "TEMPLATE"@);
    let a = add_if(a, t.project is Some, "PROJECT"@);
    let a = add_if(a, t.priority is Some, "PRIORITY"@);
    add_if(a, t.recur is Some, "RECURRING"@)
}

/// The tags of the due date of an open task: the month, quarter and year it
/// shares with now, and whether it is due today, tomorrow or within a week.
pub open spec fn due_tags(t: TaskRecord, tags: Option<Seq<Seq<char>>>, c: Clock) -> Option<Seq<Seq<char>>> {
    match t.due {
        Some(d) => if is_open(t.status) {
            let r = d.seconds + c.offset;
            let n = c.now + c.offset;
            let before = month_of(r - 1);
            let now_month = month_of(n);
            let a = add_if(tags, before is Some && before == now_month, "MONTH"@);
            let a = add_if(
                a,
                before is Some && now_month is Some && before->0 % 4 == now_month->0 % 4,
                "QUARTER"@,
            );
            let a = add_if(a, year_of(r) is Some && year_of(r) == year_of(n), "YEAR"@);
            match date_state(d.seconds as int, c) {
                DateState::EarlierToday | DateState::LaterToday => add_if(
                    add_if(add_if(a, true, "DUE"@), true, "TODAY"@),
                    true,
                    "DUETODAY"@,
                ),
                DateState::AfterToday => add_if(
                    add_if(a, true, "DUE"@),
                    r / 86400 == (n + 86400) / 86400,
                    "TOMORROW"@,
                ),
                _ => a,
            }
        } else {
            tags
        },
        None => tags,
    }
}

/// The overdue tag of an open, not recurring task whose due time is past.
pub open spec fn overdue_tags(t: TaskRecord, tags: Option<Seq<Seq<char>>>, c: Clock) -> Option<Seq<Seq<char>>> {
    match t.due {
        Some(d) => add_if(
            tags,
            is_open(t.status) && t.status != TaskStatus::Recurring && (d.seconds < c.now || (d.seconds
                == c.now && c.now_nanos > 0)),
            "OVERDUE"@,
        ),
        None => tags,
    }
}

/// The tags of a task once the virtual tags are added to `tags`.
pub open spec fn virtual_tags_of(t: TaskRecord, tags: Option<Seq<Seq<char>>>, vt: Seq<Seq<char>>, c: Clock) -> Option<Seq<Seq<char>>> {
    let a = state_tags(t, tags);
    let a = add_if(a, has_user_tag(a, vt), "TAGGED"@);
    let a = attribute_tags(t, a);
    let a = due_tags(t, a, c);
    overdue_tags(t, a, c)
}

fn add_when(list: &mut Option<Vec<String>>, cond: bool, tag: &str)
    ensures
        list_view(*final(list)) == add_if(list_view(*old(list)), cond, tag@),
{
    if cond {
        add_to_list(list, String::from_str(tag));
    }
}

proof fn lemma_has_user_tag(ts: Seq<Seq<char>>, vt: Seq<Seq<char>>, i: int)
    requires
        0 <= i < ts.len(),
        !vt.contains(ts[i]),
    ensures
        has_user_tag(Some(ts), vt),
{
    assert(Some(ts).unwrap()[i] == ts[i]);
}

fn has_user_tag_in(list: &Option<Vec<String>>, vt: &Vec<String>) -> (r: bool)
    ensures
        r == has_user_tag(list_view(*list), vt@.map_values(|s: String| s@)),
{
    let ghost vs = vt@.map_values(|s: String| s@);
    match list {
        Some(ts) => {
            let ghost tv = ts@.map_values(|s: String| s@);
            assert(list_view(*list) == Some(tv));
            let mut i: usize = 0;
            while i < ts.len()
                invariant
                    i <= ts@.len(),
                    tv == ts@.map_values(|s: String| s@),
                    list_view(*list) == Some(tv),
                    vs == vt@.map_values(|s: String| s@),
                    forall|k: int| 0 <= k < i ==> vs.contains(#[trigger] tv[k]),
                decreases ts.len() - i,
            {
                let mut found = false;
                let mut j: usize = 0;
                while j < vt.len() && !found
                    invariant
                        j <= vt@.len(),
                        i < ts@.len(),
                        tv == ts@.map_values(|s: String| s@),
                        vs == vt@.map_values(|s: String| s@),
                        found ==> vs.contains(tv[i as int]),
                        !found ==> forall|k: int| 0 <= k < j ==> vs[k] != tv[i as int],
                    decreases vt.len() - j, if found { 0int } else { 1int },
                {
                    if vt[j].eq(&ts[i]) {
                        found = true;
                        assert(vs[j as int] == tv[i as int]);
                    } else {
                        j += 1;
                    }
                }
                if !found {
                    assert(!vs.contains(tv[i as int]));
                    assert(tv.len() == ts@.len());
                    assert(0 <= i < tv.len() && !vs.contains(tv[i as int]));
                    proof {
                        lemma_has_user_tag(tv, vs, i as int);
                    }
                    return true;
                }
                i += 1;
            }
            false
        },
        None => false,
    }
}

fn add_state_tags(t: &TaskRecord, list: &mut Option<Vec<String>>)
    ensures
        list_view(*final(list)) == state_tags(*t, list_view(*old(list))),
{
    match t.status {
        TaskStatus::Waiting => add_when(list, true, "WAITING"),
        TaskStatus::Completed => add_when(list, true, "COMPLETED"),
        TaskStatus::Pending => add_when(list, true, "PENDING"),
        TaskStatus::Deleted => add_when(list, true, "DELETED"),
        TaskStatus::Recurring => {},
    }
    add_when(list, t.start.is_some(), "ACTIVE");
    add_when(list, t.scheduled.is_some(), "SCHEDULED");
    add_when(list, t.parent.is_some(), "INSTANCE");
    add_when(list, t.until.is_some(), "UNTIL");
    add_when(list, t.annotations.is_some(), "ANNOTATED");
}

fn add_attribute_tags(t: &TaskRecord, list: &mut Option<Vec<String>>)
    ensures
        list_view(*final(list)) == attribute_tags(*t, list_view(*old(list))),
{
    add_when(list, t.udas.len() > 0, "UDA");
    add_when(list, t.mask.is_some(), "TEMPLATE");
    add_when(list, t.project.is_some(), "PROJECT");
    add_when(list, t.priority.is_some(), "PRIORITY");
    add_when(list, t.recur.is_some(), "RECURRING");
}

fn add_due_tags(t: &TaskRecord, list: &mut Option<Vec<String>>, c: &Clock)
    requires
        clock_ok(*c),
        dates_ok(*t),
    ensures
        list_view(*final(list)) == due_tags(*t, list_view(*old(list)), *c),
{
    if let Some(d) = &t.due {
        if t.status != TaskStatus::Completed && t.status != TaskStatus::Deleted {
            let r = d.seconds + c.offset;
            let n = c.now + c.offset;
            let before = year_month(r - 1);
            let now_ym = year_month(n);
            let same_month = match (before, now_ym) {
                (Some((_, a)), Some((_, b))) => a == b,
                _ => false,
            };
            add_when(list, same_month, "MONTH");
            let same_quarter = match (before, now_ym) {
                (Some((_, a)), Some((_, b))) => a % 4 == b % 4,
                _ => false,
            };
            add_when(list, same_quarter, "QUARTER");
            let this_ym = year_month(r);
            let same_year = match (this_ym, now_ym) {
                (Some((a, _)), Some((b, _))) => a == b,
                _ => false,
            };
            add_when(list, same_year, "YEAR");
            match get_date_state(d.seconds, c) {
                DateState::EarlierToday | DateState::LaterToday => {
                    add_when(list, true, "DUE");
                    add_when(list, true, "TODAY");
                    add_when(list, true, "DUETODAY");
                },
                DateState::AfterToday => {
                    add_when(list, true, "DUE");
                    let (rd, _) = day_and_time(r);
                    let (nd, _) = day_and_time(n + DAY);
                    add_when(list, rd == nd, "TOMORROW");
                },
                _ => {},
            }
        }
    }
}

fn add_virtual_tags(t: &TaskRecord, list: &mut Option<Vec<String>>, vt: &Vec<String>, c: &Clock)
    requires
        clock_ok(*c),
        dates_ok(*t),
    ensures
        list_view(*final(list)) == virtual_tags_of(*t, list_view(*old(list)), vt@.map_values(|s: String| s@), *c),
{
    add_state_tags(t, list);
    let tagged = has_user_tag_in(list, vt);
    add_when(list, tagged, "TAGGED");
    add_attribute_tags(t, list);
    add_due_tags(t, list, c);
    if let Some(d) = &t.due {
        let overdue = t.status != TaskStatus::Completed && t.status != TaskStatus::Deleted && t.status
            != TaskStatus::Recurring && (d.seconds < c.now || (d.seconds == c.now && c.now_nanos > 0));
        add_when(list, overdue, "OVERDUE");
    }
}


/// The virtual tags of every task, for the virtual tag names `vt` and the
/// moment `c`: first the dependency scan over all tasks, then each task's own
/// tags in turn.
pub open spec fn updated_tags(tasks: Seq<TaskRecord>, j: int, vt: Seq<Seq<char>>, c: Clock) -> Option<Seq<Seq<char>>> {
    virtual_tags_of(tasks[j], apply_ops(tags_of(tasks[j]), scan_ops(tasks, tasks.len() as int), j), vt, c)
}

/// Add the virtual tags that taskwarrior would give each task.
pub fn update_tags(tasks: &mut Vec<TaskRecord>, virtual_tags: &Vec<String>, c: &Clock)
    requires
        clock_ok(*c),
        forall|i: int| 0 <= i < old(tasks)@.len() ==> dates_ok(#[trigger] old(tasks)@[i]),
    ensures
        same_but_tags(old(tasks)@, final(tasks)@),
        forall|j: int|
            0 <= j < old(tasks)@.len() ==> #[trigger] tags_of(final(tasks)@[j]) == updated_tags(
                old(tasks)@,
                j,
                virtual_tags@.map_values(|s: String| s@),
                *c,
            ),
{
    let ghost orig = tasks@;
    let ghost vs = virtual_tags@.map_values(|s: String| s@);
    let mut lists = scan_dependencies(tasks);
    let n = tasks.len();
    let mut i: usize = 0;
    while i < n
        invariant
            n == tasks@.len(),
            tasks@ == orig,
            i <= n,
            lists@.len() == n,
            clock_ok(*c),
            vs == virtual_tags@.map_values(|s: String| s@),
            forall|k: int| 0 <= k < n ==> dates_ok(#[trigger] orig[k]),
            forall|j: int| 0 <= j < i ==> #[trigger] list_view(lists@[j]) == updated_tags(orig, j, vs, *c),
            forall|j: int|
                i <= j < n ==> #[trigger] list_view(lists@[j]) == apply_ops(tags_of(orig[j]), scan_ops(orig, n as int), j),
        decreases n - i,
    {
        let ghost before = lists@;
        let mut l = lists.remove(i);
        assert(dates_ok(orig[i as int]));
        add_virtual_tags(&tasks[i], &mut l, virtual_tags, c);
        lists.insert(i, l);
        proof {
            assert forall|j: int| 0 <= j < n && j != i implies lists@[j] == before[j] by {}
        }
        i += 1;
    }
    let mut k = n;
    while k > 0
        invariant
            k <= n,
            lists@.len() == k,
            tasks@.len() == n,
            n == orig.len(),
            forall|j: int| 0 <= j < k ==> #[trigger] list_view(lists@[j]) == updated_tags(orig, j, vs, *c),
            forall|j: int| 0 <= j < k ==> tasks@[j] == orig[j],
            forall|j: int| 0 <= j < n ==> fields_equal(#[trigger] tasks@[j], orig[j]),
            forall|j: int| k <= j < n ==> #[trigger] tags_of(tasks@[j]) == updated_tags(orig, j, vs, *c),
        decreases k,
    {
        let l = lists.pop().unwrap();
        let ghost before = tasks@;
        let mut t = tasks.remove(k - 1);
        t.tags = l;
        tasks.insert(k - 1, t);
        proof {
            assert(tasks@ =~= before.update(k - 1, t));
            assert forall|j: int| 0 <= j < n implies fields_equal(#[trigger] tasks@[j], orig[j]) by {
                if j != k - 1 {
                    assert(tasks@[j] == before[j]);
                }
            }
        }
        k -= 1;
    }
}

} // verus!

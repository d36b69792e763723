//! The task report: its columns and labels as `task show` defines them, and
//! the text of each cell.
use vstd::prelude::*;

use crate::utils::{truncate_to_width, truncated_to_width};
use crate::task::{
    deps_of, first_with_uuid, status_name, TaskDate, TaskRecord, UdaValue, TIME_LIMIT,
};
use crate::text::{
    upper_chars, uppercase, lines_of, char_vecs, chars_eq_str, chars_of, decimal_chars, decimal_of, has_prefix, join, join_chars,
    push_all, push_str, slice_range, split_char, split_chars, starts_with, string_of,
};

verus! {

/// Seconds in a minute, an hour, a day, a week, a month and a year, as the
/// report counts them.
pub const MINUTE: i64 = 60;

/// Seconds in an hour.
pub const HOUR: i64 = 3600;

/// Seconds in a day.
pub const DAY: i64 = 86400;

/// Seconds in a week.
pub const WEEK: i64 = 604800;

/// Seconds in a month of thirty days.
pub const MONTH: i64 = 2592000;

/// Seconds in a year of 365 days.
pub const YEAR: i64 = 31536000;

/// Seconds in ninety days.
pub const QUARTER_YEAR: i64 = 7776000;

/// Seconds in fourteen days.
pub const FORTNIGHT: i64 = 1209600;

/// `n` in decimal followed by `unit`.
pub open spec fn amount(n: int, unit: Seq<char>) -> Seq<char> {
    decimal_of(n as nat) + unit
}

/// A span of `seconds` in its largest unit (years, months of thirty days,
/// weeks, days, hours, minutes, seconds), with a minus sign when negative;
/// with `precise`, also the remainder in the next unit.
pub open spec fn vague_text(seconds: int, precise: bool) -> Seq<char> {
    let minus = if seconds < 0 { "-"@ } else { Seq::<char>::empty() };
    let s = if seconds < 0 { -seconds } else { seconds };
    let (mi, ho, da, we, mo, ye) = (MINUTE as int, HOUR as int, DAY as int, WEEK as int, MONTH as int, YEAR as int);
    let body = if s >= ye {
        amount(s / ye, "y"@) + if precise { amount((s - ye * (s / ye)) / mo, "mo"@) } else { Seq::empty() }
    } else if s >= QUARTER_YEAR as int {
        amount(s / mo, "mo"@) + if precise { amount((s - mo * (s / mo)) / we, "w"@) } else { Seq::empty() }
    } else if s >= FORTNIGHT as int {
        amount(s / we, "w"@) + if precise { amount((s - we * (s / we)) / da, "d"@) } else { Seq::empty() }
    } else if s >= da {
        amount(s / da, "d"@) + if precise { amount((s - da * (s / da)) / ho, "h"@) } else { Seq::empty() }
    } else if s >= ho {
        amount(s / ho, "h"@) + if precise { amount((s - ho * (s / ho)) / mi, "min"@) } else { Seq::empty() }
    } else if s >= mi {
        amount(s / mi, "min"@) + if precise { amount(s - mi * (s / mi), "s"@) } else { Seq::empty() }
    } else {
        amount(s, "s"@)
    };
    minus + body
}

/// A span is shown in the largest unit that it reaches (a minute, an hour, a
/// day, two weeks for weeks, ninety days for months of thirty days, a year
/// of 365 days), as the whole number of those units in it, after a minus
/// sign when negative; with `precise`, followed by the whole number of the
/// next smaller unit in what is left.
pub proof fn law_vague_span(d: int, precise: bool)
    ensures
        ({
            let s = if d < 0 { -d } else { d };
            let sign = if d < 0 { "-"@ } else { Seq::<char>::empty() };
            &&& (s < 60 ==> vague_text(d, precise) == sign + decimal_of(s as nat) + "s"@)
            &&& (60 <= s < 3600 ==> vague_text(d, precise) == sign + decimal_of((s / 60) as nat) + "min"@ + if precise {
                decimal_of((s % 60) as nat) + "s"@
            } else {
                Seq::<char>::empty()
            })
            &&& (3600 <= s < 86400 ==> vague_text(d, precise) == sign + decimal_of((s / 3600) as nat) + "h"@ + if precise {
                decimal_of(((s % 3600) / 60) as nat) + "min"@
            } else {
                Seq::<char>::empty()
            })
            &&& (86400 <= s < 1209600 ==> vague_text(d, precise) == sign + decimal_of((s / 86400) as nat) + "d"@ + if precise {
                decimal_of(((s % 86400) / 3600) as nat) + "h"@
            } else {
                Seq::<char>::empty()
            })
            &&& (1209600 <= s < 7776000 ==> vague_text(d, precise) == sign + decimal_of((s / 604800) as nat) + "w"@ + if precise {
                decimal_of(((s % 604800) / 86400) as nat) + "d"@
            } else {
                Seq::<char>::empty()
            })
            &&& (7776000 <= s < 31536000 ==> vague_text(d, precise) == sign + decimal_of((s / 2592000) as nat) + "mo"@ + if precise {
                decimal_of(((s % 2592000) / 604800) as nat) + "w"@
            } else {
                Seq::<char>::empty()
            })
            &&& (31536000 <= s ==> vague_text(d, precise) == sign + decimal_of((s / 31536000) as nat) + "y"@ + if precise {
                decimal_of(((s % 31536000) / 2592000) as nat) + "mo"@
            } else {
                Seq::<char>::empty()
            })
        }),
{
    let s = if d < 0 { -d } else { d };
    let sign = if d < 0 { "-"@ } else { Seq::<char>::empty() };
    if s < 60 {
        assert(vague_text(d, precise) =~= sign + decimal_of(s as nat) + "s"@);
    }
    if 60 <= s < 3600 {
        assert(s - 60 * (s / 60) == s % 60);
        assert(vague_text(d, precise) =~= sign + decimal_of((s / 60) as nat) + "min"@ + if precise {
            decimal_of((s % 60) as nat) + "s"@
        } else {
            Seq::<char>::empty()
        });
    }
    if 3600 <= s < 86400 {
        assert(s - 3600 * (s / 3600) == s % 3600);
        assert(vague_text(d, precise) =~= sign + decimal_of((s / 3600) as nat) + "h"@ + if precise {
            decimal_of(((s % 3600) / 60) as nat) + "min"@
        } else {
            Seq::<char>::empty()
        });
    }
    if 86400 <= s < 1209600 {
        assert(s - 86400 * (s / 86400) == s % 86400);
        assert(vague_text(d, precise) =~= sign + decimal_of((s / 86400) as nat) + "d"@ + if precise {
            decimal_of(((s % 86400) / 3600) as nat) + "h"@
        } else {
            Seq::<char>::empty()
        });
    }
    if 1209600 <= s < 7776000 {
        assert(s - 604800 * (s / 604800) == s % 604800);
        assert(vague_text(d, precise) =~= sign + decimal_of((s / 604800) as nat) + "w"@ + if precise {
            decimal_of(((s % 604800) / 86400) as nat) + "d"@
        } else {
            Seq::<char>::empty()
        });
    }
    if 7776000 <= s < 31536000 {
        assert(s - 2592000 * (s / 2592000) == s % 2592000);
        assert(vague_text(d, precise) =~= sign + decimal_of((s / 2592000) as nat) + "mo"@ + if precise {
            decimal_of(((s % 2592000) / 604800) as nat) + "w"@
        } else {
            Seq::<char>::empty()
        });
    }
    if 31536000 <= s {
        assert(s - 31536000 * (s / 31536000) == s % 31536000);
        assert(vague_text(d, precise) =~= sign + decimal_of((s / 31536000) as nat) + "y"@ + if precise {
            decimal_of(((s % 31536000) / 2592000) as nat) + "mo"@
        } else {
            Seq::<char>::empty()
        });
    }
}

fn push_amount(out: &mut Vec<char>, n: i64, unit: &str)
    requires
        n >= 0,
    ensures
        final(out)@ == old(out)@ + amount(n as int, unit@),
{
    let d = decimal_chars(n as u64);
    push_all(out, d.as_slice());
    push_str(out, unit);
    assert(final(out)@ =~= old(out)@ + amount(n as int, unit@));
}

/// How long the time from `from` to `to` (seconds) is, roughly: see
/// [`vague_text`].
pub fn vague_format_date_time(from: i64, to: i64, precise: bool) -> (r: String)
    requires
        -TIME_LIMIT < from < TIME_LIMIT,
        -TIME_LIMIT < to < TIME_LIMIT,
    ensures
        r@ == vague_text(to - from, precise),
{
    let seconds = to - from;
    let mut out: Vec<char> = Vec::new();
    let s = if seconds < 0 {
        out.push('-');
        -seconds
    } else {
        seconds
    };
    assert(out@ =~= if seconds < 0 { "-"@ } else { Seq::<char>::empty() }) by {
        reveal_strlit("-");
    }
    let ghost minus = out@;
    if s >= YEAR {
        push_amount(&mut out, s / YEAR, "y");
        if precise {
            push_amount(&mut out, (s - YEAR * (s / YEAR)) / MONTH, "mo");
        }
    } else if s >= QUARTER_YEAR {
        push_amount(&mut out, s / MONTH, "mo");
        if precise {
            push_amount(&mut out, (s - MONTH * (s / MONTH)) / WEEK, "w");
        }
    } else if s >= FORTNIGHT {
        push_amount(&mut out, s / WEEK, "w");
        if precise {
            push_amount(&mut out, (s - WEEK * (s / WEEK)) / DAY, "d");
        }
    } else if s >= DAY {
        push_amount(&mut out, s / DAY, "d");
        if precise {
            push_amount(&mut out, (s - DAY * (s / DAY)) / HOUR, "h");
        }
    } else if s >= HOUR {
        push_amount(&mut out, s / HOUR, "h");
        if precise {
            push_amount(&mut out, (s - HOUR * (s / HOUR)) / MINUTE, "min");
        }
    } else if s >= MINUTE {
        push_amount(&mut out, s / MINUTE, "min");
        if precise {
            push_amount(&mut out, s - MINUTE * (s / MINUTE), "s");
        }
    } else {
        push_amount(&mut out, s, "s");
    }
    assert(out@ =~= vague_text(to - from, precise));
    string_of(out.as_slice())
}


/// The text of an optional string: the string, or nothing.
pub open spec fn opt_text(o: Option<String>) -> Seq<char> {
    match o {
        Some(s) => s@,
        None => Seq::empty(),
    }
}

/// The tags of `tags` that are not virtual.
pub open spec fn user_tags(tags: Seq<Seq<char>>, vt: Seq<Seq<char>>) -> Seq<Seq<char>>
    decreases tags.len(),
{
    if tags.len() == 0 {
        Seq::empty()
    } else {
        let prev = user_tags(tags.drop_last(), vt);
        if vt.contains(tags.last()) {
            prev
        } else {
            prev.push(tags.last())
        }
    }
}

/// The ids of the tasks that `deps` names, in order, each as decimal text;
/// UUIDs of no task are skipped.
pub open spec fn dependency_ids(deps: Seq<u128>, tasks: Seq<TaskRecord>) -> Seq<Seq<char>>
    decreases deps.len(),
{
    if deps.len() == 0 {
        Seq::empty()
    } else {
        let prev = dependency_ids(deps.drop_last(), tasks);
        match first_with_uuid(tasks, deps.last()) {
            Some(r) => prev.push(decimal_of(tasks[r].id.unwrap_or(0) as nat)),
            None => prev,
        }
    }
}

/// Every task that a dependency of `t` names has an id.
pub open spec fn dependencies_have_ids(t: TaskRecord, tasks: Seq<TaskRecord>) -> bool {
    forall|k: int|
        0 <= k < deps_of(t).len() ==> (#[trigger] first_with_uuid(tasks, deps_of(t)[k]) matches Some(r) ==> tasks[r].id is Some)
}

/// The annotation count shown after a description: `[n]`, or nothing.
pub open spec fn annotation_mark(t: TaskRecord) -> Seq<char> {
    match t.annotations {
        Some(n) => "["@ + decimal_of(n as nat) + "]"@,
        None => Seq::empty(),
    }
}

/// `d`, with an ellipsis when it is shorter than `full`.
pub open spec fn ellipsized(d: Seq<char>, full: Seq<char>) -> Seq<char> {
    if d != full {
        d + seq!['\u{2026}']
    } else {
        d
    }
}

/// The text of the user-defined attribute `name`, or nothing.
pub open spec fn uda_text(udas: Seq<(String, UdaValue)>, name: Seq<char>) -> Seq<char>
    decreases udas.len(),
{
    if udas.len() == 0 {
        Seq::empty()
    } else if udas[0].0@ == name {
        match udas[0].1 {
            UdaValue::Str(s) => s@,
            UdaValue::Float(s) => s@,
            UdaValue::U64(u) => decimal_of(u as nat),
        }
    } else {
        uda_text(udas.drop_first(), name)
    }
}

/// The text of the cells that both versions of the report compute alike:
/// none for the date columns, which differ.
pub open spec fn common_text(attr: Seq<char>, t: TaskRecord, tasks: Seq<TaskRecord>, vt: Seq<Seq<char>>, width: nat) -> Option<Seq<char>> {
    if attr == "id"@ {
        Some(decimal_of(t.id.unwrap_or(0) as nat))
    } else if attr == "status.short"@ {
        Some(seq![status_name(t.status)[0]])
    } else if attr == "status"@ {
        Some(status_name(t.status))
    } else if attr == "priority"@ {
        Some(opt_text(t.priority))
    } else if attr == "project"@ {
        Some(opt_text(t.project))
    } else if attr == "depends.count"@ {
        Some(
            match t.depends {
                Some(v) => if v@.len() == 0 { Seq::empty() } else { decimal_of(v@.len()) },
                None => Seq::empty(),
            },
        )
    } else if attr == "depends"@ {
        Some(
            match t.depends {
                Some(v) => if v@.len() == 0 { Seq::empty() } else { join(dependency_ids(v@, tasks), ' ') },
                None => Seq::empty(),
            },
        )
    } else if attr == "tags.count"@ {
        Some(
            match t.tags {
                Some(v) => {
                    let n = user_tags(v@.map_values(|s: String| s@), vt).len();
                    if n == 0 { Seq::empty() } else { decimal_of(n) }
                },
                None => Seq::empty(),
            },
        )
    } else if attr == "tags"@ {
        Some(
            match t.tags {
                Some(v) => join(user_tags(v@.map_values(|s: String| s@), vt), ','),
                None => Seq::empty(),
            },
        )
    } else if attr == "recur"@ {
        Some(opt_text(t.recur))
    } else if attr == "description.count"@ {
        Some(t.description@ + " "@ + annotation_mark(t))
    } else if attr == "description.truncated_count"@ {
        let c = annotation_mark(t);
        let avail = if width >= c.len() { (width - c.len()) as nat } else { width };
        Some(ellipsized(truncated_to_width(t.description@, avail), t.description@) + c)
    } else if attr == "description.truncated"@ {
        Some(ellipsized(truncated_to_width(t.description@, width), t.description@))
    } else if attr == "description.desc"@ || attr == "description"@ {
        Some(t.description@)
    } else if attr == "urgency"@ {
        Some(
            match t.urgency {
                Some(u) => u@,
                None => "0.00"@,
            },
        )
    } else {
        None
    }
}


fn string_in(v: &Vec<String>, x: &String) -> (r: bool)
    ensures
        r == v@.map_values(|s: String| s@).contains(x@),
{
    let ghost vs = v@.map_values(|s: String| s@);
    let mut i: usize = 0;
    while i < v.len()
        invariant
            i <= v@.len(),
            vs == v@.map_values(|s: String| s@),
            forall|k: int| 0 <= k < i ==> vs[k] != x@,
        decreases v.len() - i,
    {
        if v[i].eq(x) {
            assert(vs[i as int] == x@);
            return true;
        }
        i += 1;
    }
    false
}

fn user_tags_of(tags: &Vec<String>, vt: &Vec<String>) -> (r: Vec<Vec<char>>)
    ensures
        char_vecs(r@) == user_tags(tags@.map_values(|s: String| s@), vt@.map_values(|s: String| s@)),
{
    let ghost ts = tags@.map_values(|s: String| s@);
    let ghost vs = vt@.map_values(|s: String| s@);
    let mut r: Vec<Vec<char>> = Vec::new();
    let mut i: usize = 0;
    assert(ts.take(0) =~= Seq::<Seq<char>>::empty());
    while i < tags.len()
        invariant
            i <= tags@.len(),
            ts == tags@.map_values(|s: String| s@),
            vs == vt@.map_values(|s: String| s@),
            char_vecs(r@) == user_tags(ts.take(i as int), vs),
        decreases tags.len() - i,
    {
        let ghost before = char_vecs(r@);
        proof {
            assert(ts.take(i + 1).drop_last() =~= ts.take(i as int));
            assert(ts.take(i + 1).last() == ts[i as int]);
        }
        if !string_in(vt, &tags[i]) {
            r.push(chars_of(tags[i].as_str()));
            assert(char_vecs(r@) =~= before.push(ts[i as int]));
        }
        i += 1;
    }
    assert(ts.take(ts.len() as int) =~= ts);
    r
}

fn dependency_ids_of(deps: &Vec<u128>, tasks: &Vec<TaskRecord>) -> (r: Vec<Vec<char>>)
    requires
        forall|k: int|
            0 <= k < deps@.len() ==> (#[trigger] first_with_uuid(tasks@, deps@[k]) matches Some(q) ==> tasks@[q].id is Some),
    ensures
        char_vecs(r@) == dependency_ids(deps@, tasks@),
{
    let mut r: Vec<Vec<char>> = Vec::new();
    let mut i: usize = 0;
    assert(deps@.take(0) =~= Seq::<u128>::empty());
    while i < deps.len()
        invariant
            i <= deps@.len(),
            forall|k: int|
                0 <= k < deps@.len() ==> (#[trigger] first_with_uuid(tasks@, deps@[k]) matches Some(q) ==> tasks@[q].id is Some),
            char_vecs(r@) == dependency_ids(deps@.take(i as int), tasks@),
        decreases deps.len() - i,
    {
        let ghost before = char_vecs(r@);
        proof {
            assert(deps@.take(i + 1).drop_last() =~= deps@.take(i as int));
            assert(deps@.take(i + 1).last() == deps@[i as int]);
        }
        match crate::task::first_index_with_uuid(tasks, deps[i]) {
            Some(q) => {
                assert(first_with_uuid(tasks@, deps@[i as int]) == Some(q as int));
                let id = match tasks[q].id {
                    Some(n) => n,
                    None => 0,
                };
                r.push(decimal_chars(id));
                assert(char_vecs(r@) =~= before.push(decimal_of(tasks@[q as int].id.unwrap_or(0) as nat)));
            },
            None => {},
        }
        i += 1;
    }
    assert(deps@.take(deps@.len() as int) =~= deps@);
    r
}

fn annotation_mark_of(t: &TaskRecord) -> (r: Vec<char>)
    ensures
        r@ == annotation_mark(*t),
{
    match t.annotations {
        Some(n) => {
            let mut m = vec!['['];
            let d = decimal_chars(n as u64);
            push_all(&mut m, d.as_slice());
            m.push(']');
            proof {
                reveal_strlit("[");
                reveal_strlit("]");
            }
            assert(m@ =~= "["@ + decimal_of(n as nat) + "]"@);
            m
        },
        None => Vec::new(),
    }
}

fn ellipsized_of(d: String, full: &String) -> (r: String)
    ensures
        r@ == ellipsized(d@, full@),
{
    if !d.eq(full) {
        let mut v = chars_of(d.as_str());
        v.push('\u{2026}');
        string_of(v.as_slice())
    } else {
        d
    }
}

fn uda_text_of(udas: &Vec<(String, UdaValue)>, name: &str) -> (r: String)
    ensures
        r@ == uda_text(udas@, name@),
{
    let ns = String::from_str(name);
    let mut i: usize = 0;
    assert(udas@.skip(0) =~= udas@);
    while i < udas.len()
        invariant
            i <= udas@.len(),
            ns@ == name@,
            uda_text(udas@, name@) == uda_text(udas@.skip(i as int), name@),
        decreases udas.len() - i,
    {
        let ghost rest = udas@.skip(i as int);
        assert(rest[0] == udas@[i as int]);
        if udas[i].0.eq(&ns) {
            return match &udas[i].1 {
                UdaValue::Str(s) => s.clone(),
                UdaValue::Float(s) => s.clone(),
                UdaValue::U64(u) => string_of(decimal_chars(*u).as_slice()),
            };
        }
        assert(rest.drop_first() =~= udas@.skip(i + 1));
        i += 1;
    }
    assert(udas@.skip(i as int) =~= Seq::<(String, UdaValue)>::empty());
    String::new()
}

fn opt_text_of(o: &Option<String>) -> (r: String)
    ensures
        r@ == opt_text(*o),
{
    match o {
        Some(s) => s.clone(),
        None => String::new(),
    }
}

/// The text of a cell that both versions of the report compute alike, if
/// `attr` is such a column.
pub fn common_attribute(attr: &str, t: &TaskRecord, tasks: &Vec<TaskRecord>, vt: &Vec<String>, width: usize) -> (r: Option<String>)
    requires
        attr@ == "depends"@ ==> dependencies_have_ids(*t, tasks@),
    ensures
        match common_text(attr@, *t, tasks@, vt@.map_values(|s: String| s@), width as nat) {
            Some(x) => r matches Some(y) && y@ == x,
            None => r is None,
        },
{
    let a = chars_of(attr);
    let a = a.as_slice();
    if chars_eq_str(a, "id") {
        let id = match t.id {
            Some(n) => n,
            None => 0,
        };
        Some(string_of(decimal_chars(id).as_slice()))
    } else if chars_eq_str(a, "status.short") {
        let n = t.status.name();
        let c = chars_of(n.as_str());
        proof {
            reveal_strlit("Pending");
            reveal_strlit("Deleted");
            reveal_strlit("Completed");
            reveal_strlit("Waiting");
            reveal_strlit("Recurring");
        }
        let first = vec![c[0]];
        assert(first@ =~= seq![status_name(t.status)[0]]);
        Some(string_of(first.as_slice()))
    } else if chars_eq_str(a, "status") {
        Some(t.status.name())
    } else if chars_eq_str(a, "priority") {
        Some(opt_text_of(&t.priority))
    } else if chars_eq_str(a, "project") {
        Some(opt_text_of(&t.project))
    } else if chars_eq_str(a, "depends.count") {
        Some(
            match &t.depends {
                Some(v) => if v.len() == 0 {
                    String::new()
                } else {
                    string_of(decimal_chars(v.len() as u64).as_slice())
                },
                None => String::new(),
            },
        )
    } else if chars_eq_str(a, "depends") {
        Some(
            match &t.depends {
                Some(v) => if v.len() == 0 {
                    String::new()
                } else {
                    proof {
                        assert forall|k: int| 0 <= k < v@.len() implies (#[trigger] first_with_uuid(tasks@, v@[k]) matches Some(q) ==> tasks@[q].id is Some) by {
                            assert(deps_of(*t)[k] == v@[k]);
                        }
                    }
                    let ids = dependency_ids_of(v, tasks);
                    string_of(join_chars(&ids, ' ').as_slice())
                },
                None => String::new(),
            },
        )
    } else if chars_eq_str(a, "tags.count") {
        Some(
            match &t.tags {
                Some(v) => {
                    let u = user_tags_of(v, vt);
                    if u.len() == 0 {
                        String::new()
                    } else {
                        string_of(decimal_chars(u.len() as u64).as_slice())
                    }
                },
                None => String::new(),
            },
        )
    } else if chars_eq_str(a, "tags") {
        Some(
            match &t.tags {
                Some(v) => {
                    let u = user_tags_of(v, vt);
                    string_of(join_chars(&u, ',').as_slice())
                },
                None => String::new(),
            },
        )
    } else if chars_eq_str(a, "recur") {
        Some(opt_text_of(&t.recur))
    } else if chars_eq_str(a, "description.count") {
        let mut d = chars_of(t.description.as_str());
        push_str(&mut d, " ");
        let m = annotation_mark_of(t);
        push_all(&mut d, m.as_slice());
        Some(string_of(d.as_slice()))
    } else if chars_eq_str(a, "description.truncated_count") {
        let m = annotation_mark_of(t);
        let avail = if width >= m.len() { width - m.len() } else { width };
        let d = truncate_to_width(t.description.as_str(), avail);
        let e = ellipsized_of(d, &t.description);
        let mut v = chars_of(e.as_str());
        push_all(&mut v, m.as_slice());
        Some(string_of(v.as_slice()))
    } else if chars_eq_str(a, "description.truncated") {
        let d = truncate_to_width(t.description.as_str(), width);
        Some(ellipsized_of(d, &t.description))
    } else if chars_eq_str(a, "description.desc") || chars_eq_str(a, "description") {
        Some(t.description.clone())
    } else if chars_eq_str(a, "urgency") {
        Some(
            match &t.urgency {
                Some(u) => u.clone(),
                None => String::from_str("0.00"),
            },
        )
    } else {
        None
    }
}


/// How long until `d`, from `now`.
pub open spec fn time_until(d: Option<TaskDate>, now: int, precise: bool) -> Seq<char> {
    match d {
        Some(v) => vague_text(v.seconds - now, precise),
        None => Seq::empty(),
    }
}

/// How long since `d`, at `now`.
pub open spec fn time_since(d: Option<TaskDate>, now: int, precise: bool) -> Seq<char> {
    match d {
        Some(v) => vague_text(now - v.seconds, precise),
        None => Seq::empty(),
    }
}

/// The local date of `d`, if there is one.
pub open spec fn date_text(d: Option<TaskDate>) -> Seq<char> {
    match d {
        Some(v) => v.local_date@,
        None => Seq::empty(),
    }
}

/// The text of column `attr` for task `t` in the task report, at `now`.
pub open spec fn report_text(
    attr: Seq<char>,
    t: TaskRecord,
    tasks: Seq<TaskRecord>,
    vt: Seq<Seq<char>>,
    width: nat,
    precise: bool,
    now: int,
) -> Seq<char> {
    if attr == "scheduled.relative"@ {
        time_until(t.scheduled, now, precise)
    } else if attr == "due.relative"@ {
        time_until(t.due, now, precise)
    } else if attr == "due"@ {
        date_text(t.due)
    } else if attr == "until.remaining"@ {
        time_until(t.until, now, precise)
    } else if attr == "until"@ {
        date_text(t.until)
    } else if attr == "entry.age"@ {
        vague_text(now - t.entry.seconds, precise)
    } else if attr == "entry"@ {
        t.entry.local_date@
    } else if attr == "start.age"@ {
        time_since(t.start, now, precise)
    } else if attr == "start"@ {
        date_text(t.start)
    } else if attr == "end.age"@ {
        time_since(t.end, now, precise)
    } else if attr == "end"@ {
        date_text(t.end)
    } else if attr == "wait"@ {
        time_since(t.wait, now, precise)
    } else if attr == "wait.remaining"@ {
        time_until(t.wait, now, precise)
    } else {
        match common_text(attr, t, tasks, vt, width) {
            Some(x) => x,
            None => uda_text(t.udas@, attr),
        }
    }
}

/// The dates of the task and `now` are within the handled range.
pub open spec fn times_ok(t: TaskRecord, now: int) -> bool {
    &&& -TIME_LIMIT < now < TIME_LIMIT
    &&& -TIME_LIMIT < t.entry.seconds < TIME_LIMIT
    &&& t.due matches Some(d) ==> -TIME_LIMIT < d.seconds < TIME_LIMIT
    &&& t.until matches Some(d) ==> -TIME_LIMIT < d.seconds < TIME_LIMIT
    &&& t.start matches Some(d) ==> -TIME_LIMIT < d.seconds < TIME_LIMIT
    &&& t.end matches Some(d) ==> -TIME_LIMIT < d.seconds < TIME_LIMIT
    &&& t.wait matches Some(d) ==> -TIME_LIMIT < d.seconds < TIME_LIMIT
    &&& t.scheduled matches Some(d) ==> -TIME_LIMIT < d.seconds < TIME_LIMIT
}

fn until_text(d: &Option<TaskDate>, now: i64, precise: bool) -> (r: String)
    requires
        -TIME_LIMIT < now < TIME_LIMIT,
        d matches Some(v) ==> -TIME_LIMIT < v.seconds < TIME_LIMIT,
    ensures
        r@ == time_until(*d, now as int, precise),
{
    match d {
        Some(v) => vague_format_date_time(now, v.seconds, precise),
        None => String::new(),
    }
}

fn since_text(d: &Option<TaskDate>, now: i64, precise: bool) -> (r: String)
    requires
        -TIME_LIMIT < now < TIME_LIMIT,
        d matches Some(v) ==> -TIME_LIMIT < v.seconds < TIME_LIMIT,
    ensures
        r@ == time_since(*d, now as int, precise),
{
    match d {
        Some(v) => vague_format_date_time(v.seconds, now, precise),
        None => String::new(),
    }
}

fn date_text_of(d: &Option<TaskDate>) -> (r: String)
    ensures
        r@ == date_text(*d),
{
    match d {
        Some(v) => v.local_date.clone(),
        None => String::new(),
    }
}

/// The text of column `attr` for task `t` in the task report, at `now`
/// (seconds), with descriptions cut to `width` columns and ages `precise`.
pub fn get_string_attribute(
    attr: &str,
    t: &TaskRecord,
    tasks: &Vec<TaskRecord>,
    vt: &Vec<String>,
    width: usize,
    precise: bool,
    now: i64,
) -> (r: String)
    requires
        times_ok(*t, now as int),
        attr@ == "depends"@ ==> dependencies_have_ids(*t, tasks@),
    ensures
        r@ == report_text(attr@, *t, tasks@, vt@.map_values(|s: String| s@), width as nat, precise, now as int),
{
    let a = chars_of(attr);
    let a = a.as_slice();
    if chars_eq_str(a, "scheduled.relative") {
        until_text(&t.scheduled, now, precise)
    } else if chars_eq_str(a, "due.relative") {
        until_text(&t.due, now, precise)
    } else if chars_eq_str(a, "due") {
        date_text_of(&t.due)
    } else if chars_eq_str(a, "until.remaining") {
        until_text(&t.until, now, precise)
    } else if chars_eq_str(a, "until") {
        date_text_of(&t.until)
    } else if chars_eq_str(a, "entry.age") {
        vague_format_date_time(t.entry.seconds, now, precise)
    } else if chars_eq_str(a, "entry") {
        t.entry.local_date.clone()
    } else if chars_eq_str(a, "start.age") {
        since_text(&t.start, now, precise)
    } else if chars_eq_str(a, "start") {
        date_text_of(&t.start)
    } else if chars_eq_str(a, "end.age") {
        since_text(&t.end, now, precise)
    } else if chars_eq_str(a, "end") {
        date_text_of(&t.end)
    } else if chars_eq_str(a, "wait") {
        since_text(&t.wait, now, precise)
    } else if chars_eq_str(a, "wait.remaining") {
        until_text(&t.wait, now, precise)
    } else {
        match common_attribute(attr, t, tasks, vt, width) {
            Some(x) => x,
            None => uda_text_of(&t.udas, attr),
        }
    }
}


/// The virtual tags that taskwarrior sets, which the report does not count
/// as the user's tags.
pub open spec fn virtual_tag_names() -> Seq<Seq<char>> {
    seq![
        "PROJECT"@, "BLOCKED"@, "UNBLOCKED"@, "BLOCKING"@, "DUE"@, "DUETODAY"@, "TODAY"@, "OVERDUE"@,
        "WEEK"@, "MONTH"@, "QUARTER"@, "YEAR"@, "ACTIVE"@, "SCHEDULED"@, "PARENT"@, "CHILD"@, "UNTIL"@,
        "WAITING"@, "ANNOTATED"@, "READY"@, "YESTERDAY"@, "TOMORROW"@, "TAGGED"@, "PENDING"@,
        "COMPLETED"@, "DELETED"@, "UDA"@, "ORPHAN"@, "PRIORITY"@, "PROJECT"@, "LATEST"@, "RECURRING"@,
        "INSTANCE"@,
    ]
}

/// The table of the task report: its column labels and names, the text of
/// each cell, the virtual tag names, and the width a description may take.
pub struct TaskReportTable {
    pub labels: Vec<String>,
    pub columns: Vec<String>,
    pub tasks: Vec<Vec<String>>,
    pub virtual_tags: Vec<String>,
    pub description_width: usize,
}

/// The views of a list of strings.
pub open spec fn texts(v: Seq<String>) -> Seq<Seq<char>> {
    v.map_values(|s: String| s@)
}

/// The views of the rows of a table.
pub open spec fn rows_of(v: Seq<Vec<String>>) -> Seq<Seq<Seq<char>>> {
    v.map_values(|r: Vec<String>| texts(r@))
}

/// The names that the lines of `lines` beginning with `key` list: the
/// second word of each such line, split at commas, in order.
pub open spec fn listed_names(lines: Seq<Seq<char>>, key: Seq<char>) -> Seq<Seq<char>>
    decreases lines.len(),
{
    if lines.len() == 0 {
        Seq::empty()
    } else {
        let prev = listed_names(lines.drop_last(), key);
        if starts_with(lines.last(), key) {
            prev + split_char(split_char(lines.last(), ' ')[1], ',')
        } else {
            prev
        }
    }
}

/// Every line of `data` that begins with `key` has a second word.
pub open spec fn settings_ok(data: Seq<char>, key: Seq<char>) -> bool {
    let lines = split_char(data, '\n');
    forall|i: int| 0 <= i < lines.len() && starts_with(#[trigger] lines[i], key) ==> split_char(lines[i], ' ').len() >= 2
}

/// Whether every line of `data` that starts with `key` holds a value after
/// a space.
pub fn settings_are_ok(data: &str, key: &str) -> (r: bool)
    ensures
        r == settings_ok(data@, key@),
{
    let lines = split_chars(chars_of(data).as_slice(), '\n');
    let ghost ls = split_char(data@, '\n');
    let k = chars_of(key);
    let mut i: usize = 0;
    while i < lines.len()
        invariant
            i <= lines@.len(),
            ls == split_char(data@, '\n'),
            lines@.len() == ls.len(),
            forall|j: int| 0 <= j < lines@.len() ==> #[trigger] lines@[j]@ == ls[j],
            k@ == key@,
            forall|j: int| 0 <= j < i && starts_with(#[trigger] ls[j], key@) ==> split_char(ls[j], ' ').len() >= 2,
        decreases lines.len() - i,
    {
        if has_prefix(lines[i].as_slice(), k.as_slice()) && split_chars(lines[i].as_slice(), ' ').len() < 2 {
            return false;
        }
        i += 1;
    }
    true
}

/// The report settings of `report` in `data` (columns) and `label_data`
/// (labels) can be read.
pub fn report_settings_are_ok(data: &str, label_data: &str, report: &str) -> (r: bool)
    ensures
        r == (settings_ok(data@, report_key(report@, "columns"@)) && settings_ok(
            label_data@,
            report_key(report@, "labels"@),
        )),
{
    let mut c: Vec<char> = chars_of("report.");
    push_str(&mut c, report);
    push_str(&mut c, ".columns");
    let mut l: Vec<char> = chars_of("report.");
    push_str(&mut l, report);
    push_str(&mut l, ".labels");
    proof {
        reveal_strlit(".columns");
        reveal_strlit(".labels");
        assert(".columns"@ =~= seq!['.'] + "columns"@) by {
            reveal_strlit("columns");
        }
        assert(".labels"@ =~= seq!['.'] + "labels"@) by {
            reveal_strlit("labels");
        }
        assert(c@ =~= report_key(report@, "columns"@));
        assert(l@ =~= report_key(report@, "labels"@));
    }
    settings_are_ok(data, string_of(c.as_slice()).as_str()) && settings_are_ok(label_data, string_of(l.as_slice()).as_str())
}

/// The key of a setting of `report`: `report.<report>.<what>`.
pub open spec fn report_key(report: Seq<char>, what: Seq<char>) -> Seq<char> {
    "report."@ + report + seq!['.'] + what
}

/// The label made from a column name: the part before its first dot,
/// `id` written `ID`, with its first character upper-cased.
pub open spec fn label_of(column: Seq<char>) -> Seq<char> {
    let l = split_char(column, '.')[0];
    let l = if l == "id"@ { "ID"@ } else { l };
    if l.len() == 0 {
        Seq::empty()
    } else {
        uppercase(seq![l[0]]) + l.drop_first()
    }
}

/// The non-empty labels made from `columns`.
pub open spec fn labels_from(columns: Seq<Seq<char>>) -> Seq<Seq<char>>
    decreases columns.len(),
{
    if columns.len() == 0 {
        Seq::empty()
    } else {
        let prev = labels_from(columns.drop_last());
        let l = label_of(columns.last());
        if l.len() == 0 {
            prev
        } else {
            prev.push(l)
        }
    }
}

/// The labels of a report: those its settings list, else those made from
/// its columns.
pub open spec fn report_labels(columns: Seq<Seq<char>>, label_data: Seq<char>, report: Seq<char>) -> Seq<Seq<char>> {
    let listed = listed_names(split_char(label_data, '\n'), report_key(report, "labels"@));
    if listed.len() > 0 {
        listed
    } else {
        labels_from(columns)
    }
}

fn names_listed(data: &str, key: &[char]) -> (r: Vec<Vec<char>>)
    requires
        settings_ok(data@, key@),
    ensures
        char_vecs(r@) == listed_names(split_char(data@, '\n'), key@),
{
    let d = chars_of(data);
    let lines = split_chars(d.as_slice(), '\n');
    let ghost ls = split_char(data@, '\n');
    let mut r: Vec<Vec<char>> = Vec::new();
    let mut i: usize = 0;
    assert(ls.take(0) =~= Seq::<Seq<char>>::empty());
    while i < lines.len()
        invariant
            i <= lines@.len(),
            lines@.len() == ls.len(),
            ls == split_char(data@, '\n'),
            settings_ok(data@, key@),
            forall|k: int| 0 <= k < lines@.len() ==> #[trigger] lines@[k]@ == ls[k],
            char_vecs(r@) == listed_names(ls.take(i as int), key@),
        decreases lines.len() - i,
    {
        let ghost before = char_vecs(r@);
        proof {
            assert(ls.take(i + 1).drop_last() =~= ls.take(i as int));
            assert(ls.take(i + 1).last() == ls[i as int]);
        }
        let line = lines[i].as_slice();
        if has_prefix(line, key) {
            let words = split_chars(line, ' ');
            let names = split_chars(words[1].as_slice(), ',');
            let mut k: usize = 0;
            let ghost ns = split_char(split_char(line@, ' ')[1], ',');
            while k < names.len()
                invariant
                    k <= names@.len(),
                    names@.len() == ns.len(),
                    forall|q: int| 0 <= q < names@.len() ==> #[trigger] names@[q]@ == ns[q],
                    char_vecs(r@) == before + ns.take(k as int),
                decreases names.len() - k,
            {
                let ghost b2 = char_vecs(r@);
                let piece = slice_range(names[k].as_slice(), 0, names[k].len());
                assert(piece@ =~= ns[k as int]);
                r.push(piece);
                assert(char_vecs(r@) =~= b2.push(ns[k as int]));
                assert(before + ns.take(k + 1) =~= (before + ns.take(k as int)).push(ns[k as int]));
                k += 1;
            }
            assert(ns.take(ns.len() as int) =~= ns);
        }
        i += 1;
    }
    assert(ls.take(ls.len() as int) =~= ls);
    r
}

fn label_from(column: &[char]) -> (r: Vec<char>)
    ensures
        r@ == label_of(column@),
{
    let parts = split_chars(column, '.');
    proof {
        crate::text::lemma_split_char_nonempty(column@, '.');
    }
    let mut l = slice_range(parts[0].as_slice(), 0, parts[0].len());
    let ghost head = split_char(column@, '.')[0];
    assert(l@ == head);
    if chars_eq_str(l.as_slice(), "id") {
        l = chars_of("ID");
    }
    assert(l@ == (if head == "id"@ { "ID"@ } else { head }));
    if l.len() == 0 {
        Vec::new()
    } else {
        let first = vec![l[0]];
        let mut u = upper_chars(first.as_slice());
        let rest = slice_range(l.as_slice(), 1, l.len());
        push_all(&mut u, rest.as_slice());
        assert(first@ =~= seq![l@[0]]);
        assert(rest@ =~= l@.drop_first());
        u
    }
}

fn strings_of(v: &Vec<Vec<char>>) -> (r: Vec<String>)
    ensures
        texts(r@) == char_vecs(v@),
{
    let mut r: Vec<String> = Vec::new();
    let mut i: usize = 0;
    while i < v.len()
        invariant
            i <= v@.len(),
            texts(r@) == char_vecs(v@).take(i as int),
        decreases v.len() - i,
    {
        let ghost before = texts(r@);
        let x = string_of(v[i].as_slice());
        r.push(x);
        assert(texts(r@) =~= before.push(v@[i as int]@));
        assert(char_vecs(v@).take(i + 1) =~= char_vecs(v@).take(i as int).push(v@[i as int]@));
        i += 1;
    }
    assert(char_vecs(v@).take(v@.len() as int) =~= char_vecs(v@));
    r
}

fn key_of(report: &str, what: &str) -> (r: Vec<char>)
    ensures
        r@ == report_key(report@, what@),
{
    let mut k = chars_of("report.");
    push_str(&mut k, report);
    k.push('.');
    push_str(&mut k, what);
    assert(k@ =~= report_key(report@, what@));
    k
}

impl TaskReportTable {
    /// A table with the columns and labels of `report`, read from the
    /// `task show` outputs `data` (its columns) and `label_data` (its labels).
    pub fn new(data: &str, label_data: &str, report: &str) -> (r: Self)
        requires
            settings_ok(data@, report_key(report@, "columns"@)),
            settings_ok(label_data@, report_key(report@, "labels"@)),
        ensures
            texts(r.columns@) == listed_names(split_char(data@, '\n'), report_key(report@, "columns"@)),
            texts(r.labels@) == report_labels(texts(r.columns@), label_data@, report@),
            rows_of(r.tasks@) == seq![Seq::<Seq<char>>::empty()],
            texts(r.virtual_tags@) == virtual_tag_names(),
            r.description_width == 100,
    {
        let names = [
            "PROJECT", "BLOCKED", "UNBLOCKED", "BLOCKING", "DUE", "DUETODAY", "TODAY", "OVERDUE",
            "WEEK", "MONTH", "QUARTER", "YEAR", "ACTIVE", "SCHEDULED", "PARENT", "CHILD", "UNTIL",
            "WAITING", "ANNOTATED", "READY", "YESTERDAY", "TOMORROW", "TAGGED", "PENDING",
            "COMPLETED", "DELETED", "UDA", "ORPHAN", "PRIORITY", "PROJECT", "LATEST", "RECURRING",
            "INSTANCE",
        ];
        let mut vt: Vec<String> = Vec::new();
        let mut i: usize = 0;
        while i < names.len()
            invariant
                i <= names@.len(),
                names@.len() == 33,
                vt@.len() == i,
                forall|k: int| 0 <= k < i ==> #[trigger] vt@[k]@ == names@[k]@,
            decreases names.len() - i,
        {
            vt.push(String::from_str(names[i]));
            i += 1;
        }
        assert(texts(vt@) =~= virtual_tag_names());
        let tasks0: Vec<Vec<String>> = vec![Vec::new()];
        assert(tasks0@[0]@.len() == 0);
        assert(texts(tasks0@[0]@) =~= Seq::<Seq<char>>::empty());
        assert(rows_of(tasks0@) =~= seq![Seq::<Seq<char>>::empty()]);
        let mut t = TaskReportTable {
            labels: Vec::new(),
            columns: Vec::new(),
            tasks: tasks0,
            virtual_tags: vt,
            description_width: 100,
        };
        t.export_headers(data, label_data, report);
        t
    }

    /// Read the columns and labels of `report` from the `task show` outputs
    /// `data` and `label_data`; without labels, make them from the columns.
    pub fn export_headers(&mut self, data: &str, label_data: &str, report: &str)
        requires
            settings_ok(data@, report_key(report@, "columns"@)),
            settings_ok(label_data@, report_key(report@, "labels"@)),
        ensures
            texts(final(self).columns@) == listed_names(split_char(data@, '\n'), report_key(report@, "columns"@)),
            texts(final(self).labels@) == report_labels(texts(final(self).columns@), label_data@, report@),
            final(self).tasks == old(self).tasks,
            final(self).virtual_tags == old(self).virtual_tags,
            final(self).description_width == old(self).description_width,
    {
        let ck = key_of(report, "columns");
        let columns = names_listed(data, ck.as_slice());
        let lk = key_of(report, "labels");
        let listed = names_listed(label_data, lk.as_slice());
        let labels = if listed.len() > 0 {
            listed
        } else {
            let mut ls: Vec<Vec<char>> = Vec::new();
            let mut i: usize = 0;
            assert(char_vecs(columns@).take(0) =~= Seq::<Seq<char>>::empty());
            while i < columns.len()
                invariant
                    i <= columns@.len(),
                    char_vecs(ls@) == labels_from(char_vecs(columns@).take(i as int)),
                decreases columns.len() - i,
            {
                let ghost before = char_vecs(ls@);
                proof {
                    let t = char_vecs(columns@).take(i + 1);
                    assert(t.drop_last() =~= char_vecs(columns@).take(i as int));
                    assert(t.last() == columns@[i as int]@);
                }
                let l = label_from(columns[i].as_slice());
                if l.len() > 0 {
                    ls.push(l);
                    assert(char_vecs(ls@) =~= before.push(label_of(columns@[i as int]@)));
                }
                i += 1;
            }
            assert(char_vecs(columns@).take(columns@.len() as int) =~= char_vecs(columns@));
            ls
        };
        self.columns = strings_of(&columns);
        self.labels = strings_of(&labels);
    }
}


/// Some row has a non-empty cell in column `i`.
pub open spec fn column_used(rows: Seq<Seq<Seq<char>>>, i: int) -> bool {
    exists|k: int| 0 <= k < rows.len() && i < rows[k].len() && #[trigger] rows[k][i].len() > 0
}

/// The first `n` cells of `cells` whose column is used.
pub open spec fn used_cells(cells: Seq<Seq<char>>, rows: Seq<Seq<Seq<char>>>, n: int) -> Seq<Seq<char>>
    decreases n,
{
    if n <= 0 {
        Seq::empty()
    } else {
        let prev = used_cells(cells, rows, n - 1);
        if column_used(rows, n - 1) {
            prev.push(cells[n - 1])
        } else {
            prev
        }
    }
}

/// The text of column `attr` for task `t` in the simple table, at `now`.
pub open spec fn table_text(attr: Seq<char>, t: TaskRecord, tasks: Seq<TaskRecord>, vt: Seq<Seq<char>>, width: nat, now: int) -> Seq<char> {
    if attr == "due.relative"@ {
        time_until(t.due, now, false)
    } else if attr == "until"@ || attr == "until.remaining"@ {
        time_until(t.until, now, false)
    } else if attr == "entry.age"@ {
        vague_text(now - t.entry.seconds, false)
    } else if attr == "start.age"@ {
        time_since(t.start, now, false)
    } else if attr == "wait"@ {
        time_since(t.wait, now, false)
    } else if attr == "wait.remaining"@ {
        time_until(t.wait, now, false)
    } else {
        match common_text(attr, t, tasks, vt, width) {
            Some(x) => x,
            None => uda_text(t.udas@, attr),
        }
    }
}

fn used_columns(rows: &Vec<Vec<String>>, n: usize) -> (r: Vec<bool>)
    ensures
        r@.len() == n,
        forall|i: int| 0 <= i < n ==> #[trigger] r@[i] == column_used(rows_of(rows@), i),
{
    let ghost rv = rows_of(rows@);
    let mut r: Vec<bool> = Vec::new();
    let mut i: usize = 0;
    while i < n
        invariant
            i <= n,
            r@.len() == i,
            rv == rows_of(rows@),
            forall|q: int| 0 <= q < i ==> #[trigger] r@[q] == column_used(rv, q),
        decreases n - i,
    {
        let mut used = false;
        let mut k: usize = 0;
        while k < rows.len()
            invariant
                k <= rows@.len(),
                rv == rows_of(rows@),
                used == exists|m: int| 0 <= m < k && i < rv[m].len() && #[trigger] rv[m][i as int].len() > 0,
            decreases rows.len() - k,
        {
            assert(rv[k as int] == texts(rows@[k as int]@));
            if i < rows[k].len() && !rows[k][i].as_str().is_empty() {
                used = true;
            }
            proof {
                if i < rows@[k as int]@.len() {
                    let c = rows@[k as int]@[i as int];
                    assert(rv[k as int][i as int] == c@);
                }
            }
            k += 1;
        }
        r.push(used);
        i += 1;
    }
    r
}

impl TaskReportTable {
    /// The text of column `attr` for task `t` at `now` (seconds).
    pub fn get_string_attribute(&self, attr: &str, t: &TaskRecord, tasks: &Vec<TaskRecord>, now: i64) -> (r: String)
        requires
            times_ok(*t, now as int),
            attr@ == "depends"@ ==> dependencies_have_ids(*t, tasks@),
        ensures
            r@ == table_text(attr@, *t, tasks@, texts(self.virtual_tags@), self.description_width as nat, now as int),
    {
        let a = chars_of(attr);
        let a = a.as_slice();
        if chars_eq_str(a, "due.relative") {
            until_text(&t.due, now, false)
        } else if chars_eq_str(a, "until") || chars_eq_str(a, "until.remaining") {
            until_text(&t.until, now, false)
        } else if chars_eq_str(a, "entry.age") {
            vague_format_date_time(t.entry.seconds, now, false)
        } else if chars_eq_str(a, "start.age") {
            since_text(&t.start, now, false)
        } else if chars_eq_str(a, "wait") {
            since_text(&t.wait, now, false)
        } else if chars_eq_str(a, "wait.remaining") {
            until_text(&t.wait, now, false)
        } else {
            match common_attribute(attr, t, tasks, &self.virtual_tags, self.description_width) {
                Some(x) => x,
                None => uda_text_of(&t.udas, attr),
            }
        }
    }

    /// Fill the rows with the text of each column of each task, at `now`; no
    /// rows when there are no columns.
    pub fn generate_table(&mut self, tasks: &Vec<TaskRecord>, now: i64)
        requires
            forall|k: int| 0 <= k < tasks@.len() ==> times_ok(#[trigger] tasks@[k], now as int),
            forall|k: int| 0 <= k < tasks@.len() ==> dependencies_have_ids(#[trigger] tasks@[k], tasks@),
        ensures
            final(self).columns == old(self).columns,
            final(self).labels == old(self).labels,
            final(self).virtual_tags == old(self).virtual_tags,
            final(self).description_width == old(self).description_width,
            final(self).tasks@.len() == if old(self).columns@.len() == 0 { 0 } else { tasks@.len() },
            forall|k: int, c: int|
                0 <= k < final(self).tasks@.len() && 0 <= c < old(self).columns@.len() ==> #[trigger] rows_of(final(self).tasks@)[k][c]
                    == table_text(
                    old(self).columns@[c]@,
                    tasks@[k],
                    tasks@,
                    texts(old(self).virtual_tags@),
                    old(self).description_width as nat,
                    now as int,
                ),
            forall|k: int| 0 <= k < final(self).tasks@.len() ==> (#[trigger] final(self).tasks@[k])@.len() == old(self).columns@.len(),
    {
        let mut rows: Vec<Vec<String>> = Vec::new();
        if self.columns.len() > 0 {
            let mut k: usize = 0;
            while k < tasks.len()
                invariant
                    k <= tasks@.len(),
                    rows@.len() == k,
                    self.columns@.len() > 0,
                    forall|q: int| 0 <= q < tasks@.len() ==> times_ok(#[trigger] tasks@[q], now as int),
                    forall|q: int| 0 <= q < tasks@.len() ==> dependencies_have_ids(#[trigger] tasks@[q], tasks@),
                    forall|q: int| 0 <= q < k ==> (#[trigger] rows@[q])@.len() == self.columns@.len(),
                    forall|q: int, c: int|
                        0 <= q < k && 0 <= c < self.columns@.len() ==> #[trigger] rows@[q]@[c]@ == table_text(
                            self.columns@[c]@,
                            tasks@[q],
                            tasks@,
                            texts(self.virtual_tags@),
                            self.description_width as nat,
                            now as int,
                        ),
                decreases tasks.len() - k,
            {
                let mut item: Vec<String> = Vec::new();
                let mut c: usize = 0;
                assert(times_ok(tasks@[k as int], now as int));
                assert(dependencies_have_ids(tasks@[k as int], tasks@));
                while c < self.columns.len()
                    invariant
                        c <= self.columns@.len(),
                        k < tasks@.len(),
                        item@.len() == c,
                        times_ok(tasks@[k as int], now as int),
                        dependencies_have_ids(tasks@[k as int], tasks@),
                        forall|q: int| 0 <= q < c ==> #[trigger] item@[q]@ == table_text(
                            self.columns@[q]@,
                            tasks@[k as int],
                            tasks@,
                            texts(self.virtual_tags@),
                            self.description_width as nat,
                            now as int,
                        ),
                    decreases self.columns.len() - c,
                {
                    let s = self.get_string_attribute(self.columns[c].as_str(), &tasks[k], tasks, now);
                    item.push(s);
                    c += 1;
                }
                let ghost before = rows@;
                rows.push(item);
                proof {
                    assert forall|q: int, c2: int|
                        0 <= q < k + 1 && 0 <= c2 < self.columns@.len() implies #[trigger] rows@[q]@[c2]@ == table_text(
                            self.columns@[c2]@,
                            tasks@[q],
                            tasks@,
                            texts(self.virtual_tags@),
                            self.description_width as nat,
                            now as int,
                        ) by {
                        if q < k {
                            assert(rows@[q] == before[q]);
                        }
                    }
                }
                k += 1;
            }
        }
        self.tasks = rows;
        proof {
            assert forall|k: int, c: int|
                0 <= k < self.tasks@.len() && 0 <= c < self.columns@.len() implies #[trigger] rows_of(self.tasks@)[k][c]
                    == table_text(
                    self.columns@[c]@,
                    tasks@[k],
                    tasks@,
                    texts(self.virtual_tags@),
                    self.description_width as nat,
                    now as int,
                ) by {
                assert(rows_of(self.tasks@)[k] == texts(self.tasks@[k]@));
            }
        }
    }

    /// The rows and labels without the columns in which every row is empty
    /// (nothing at all when there are no rows).
    pub fn simplify_table(&mut self) -> (r: (Vec<Vec<String>>, Vec<String>))
        requires
            old(self).tasks@.len() > 0 ==> forall|k: int| 0 <= k < old(self).tasks@.len() ==> (#[trigger] old(self).tasks@[k])@.len() <= old(self).tasks@[0]@.len(),
            old(self).tasks@.len() > 0 ==> old(self).labels@.len() <= old(self).tasks@[0]@.len(),
        ensures
            *final(self) == *old(self),
            old(self).tasks@.len() == 0 ==> r.0@.len() == 0 && r.1@.len() == 0,
            old(self).tasks@.len() > 0 ==> {
                let rows = rows_of(old(self).tasks@);
                &&& r.0@.len() == rows.len()
                &&& forall|k: int|
                    0 <= k < rows.len() ==> #[trigger] texts(r.0@[k]@) == used_cells(rows[k], rows, rows[k].len() as int)
                &&& texts(r.1@) == used_cells(texts(old(self).labels@), rows, old(self).labels@.len() as int)
            },
    {
        if self.tasks.len() == 0 {
            return (Vec::new(), Vec::new());
        }
        let ghost rows = rows_of(self.tasks@);
        let n = self.tasks[0].len();
        let used = used_columns(&self.tasks, n);
        let mut out: Vec<Vec<String>> = Vec::new();
        let mut k: usize = 0;
        while k < self.tasks.len()
            invariant
                k <= self.tasks@.len(),
                rows == rows_of(self.tasks@),
                n == self.tasks@[0]@.len(),
                used@.len() == n,
                forall|i: int| 0 <= i < n ==> #[trigger] used@[i] == column_used(rows, i),
                forall|q: int| 0 <= q < self.tasks@.len() ==> (#[trigger] self.tasks@[q])@.len() <= n,
                out@.len() == k,
                forall|q: int| 0 <= q < k ==> #[trigger] texts(out@[q]@) == used_cells(rows[q], rows, rows[q].len() as int),
            decreases self.tasks.len() - k,
        {
            let row = &self.tasks[k];
            assert(rows[k as int] == texts(row@));
            let kept = keep_used(row, &used, Ghost(rows));
            out.push(kept);
            k += 1;
        }
        let headers = keep_used(&self.labels, &used, Ghost(rows));
        (out, headers)
    }
}

fn keep_used(cells: &Vec<String>, used: &Vec<bool>, Ghost(rows): Ghost<Seq<Seq<Seq<char>>>>) -> (r: Vec<String>)
    requires
        cells@.len() <= used@.len(),
        forall|i: int| 0 <= i < used@.len() ==> #[trigger] used@[i] == column_used(rows, i),
    ensures
        texts(r@) == used_cells(texts(cells@), rows, cells@.len() as int),
{
    let ghost cv = texts(cells@);
    let mut r: Vec<String> = Vec::new();
    let mut i: usize = 0;
    while i < cells.len()
        invariant
            i <= cells@.len(),
            cells@.len() <= used@.len(),
            cv == texts(cells@),
            forall|q: int| 0 <= q < used@.len() ==> #[trigger] used@[q] == column_used(rows, q),
            texts(r@) == used_cells(cv, rows, i as int),
        decreases cells.len() - i,
    {
        let ghost before = texts(r@);
        if used[i] {
            r.push(cells[i].clone());
            assert(texts(r@) =~= before.push(cv[i as int]));
        }
        i += 1;
    }
    r
}

} // verus!

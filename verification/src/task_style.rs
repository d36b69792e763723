//! The style of a task's row in the report, from the color rules of the
//! configuration.
use vstd::prelude::*;

use crate::app::TaskwarriorTui;
use crate::color::{patched, plain_style, Style};
use crate::config::ColorTable;
use crate::task::{civil_datetime, civil_of, dates_ok, tags_of, TaskRecord, OFFSET_LIMIT};
use crate::text::{chars_of, push_str, string_of, upper_chars};

verus! {

/// The style that the configuration gives `key`, or the plain style.
pub open spec fn color_or_plain(colors: Map<Seq<char>, Style>, key: Seq<char>) -> Style {
    if colors.dom().contains(key) {
        colors[key]
    } else {
        plain_style()
    }
}

/// `s` with the color of each tag laid over it in turn.
pub open spec fn tags_style(s: Style, tags: Seq<Seq<char>>, colors: Map<Seq<char>, Style>) -> Style
    decreases tags.len(),
{
    if tags.len() == 0 {
        s
    } else {
        tags_style(patched(s, color_or_plain(colors, "color.tag."@ + tags[0])), tags.drop_first(), colors)
    }
}

/// `s` without its dots.
pub open spec fn without_dots(s: Seq<char>) -> Seq<char> {
    s.filter(|c: char| c != '.')
}

/// `s` with the color that one rule of `rule.precedence.color` gives the
/// task laid over it: the priority's, each tag's, the project's, or the
/// color of a virtual tag that the task has.
pub open spec fn rule_style(s: Style, rule: Seq<char>, colors: Map<Seq<char>, Style>, t: TaskRecord) -> Style {
    if rule == "uda."@ || rule == "priority"@ {
        match t.priority {
            Some(p) => patched(s, color_or_plain(colors, "color.uda.priority."@ + p@)),
            None => s,
        }
    } else if rule == "tag."@ {
        match tags_of(t) {
            Some(ts) => tags_style(s, ts, colors),
            None => s,
        }
    } else if rule == "project."@ {
        match t.project {
            Some(p) => patched(s, color_or_plain(colors, "color.project."@ + p@)),
            None => s,
        }
    } else if tags_of(t) matches Some(ts) && ts.contains(crate::text::uppercase(without_dots(rule))) {
        patched(s, color_or_plain(colors, "color."@ + rule))
    } else {
        s
    }
}

/// The style of a task under the rules, the last rule applied first so that
/// the first rule wins.
pub open spec fn rules_style(rules: Seq<Seq<char>>, colors: Map<Seq<char>, Style>, t: TaskRecord) -> Style
    decreases rules.len(),
{
    if rules.len() == 0 {
        plain_style()
    } else {
        rule_style(rules_style(rules.drop_first(), colors, t), rules[0], colors, t)
    }
}

/// The style of a project under the rules: only the project rule counts.
pub open spec fn project_rules_style(rules: Seq<Seq<char>>, colors: Map<Seq<char>, Style>, project: Seq<char>) -> Style
    decreases rules.len(),
{
    if rules.len() == 0 {
        plain_style()
    } else {
        let s = project_rules_style(rules.drop_first(), colors, project);
        if rules[0] == "project."@ {
            patched(s, color_or_plain(colors, "color.project."@ + project))
        } else {
            s
        }
    }
}

/// The style that `colors` gives `prefix` followed by `name`, or the plain
/// style.
fn color_for(colors: &ColorTable, prefix: &str, name: &str) -> (r: Style)
    ensures
        r == color_or_plain(colors@, prefix@ + name@),
{
    let mut k: Vec<char> = chars_of(prefix);
    push_str(&mut k, name);
    let key = string_of(k.as_slice());
    match colors.get(key.as_str()) {
        Some(st) => st,
        None => Style::new(),
    }
}

/// `s` without its dots.
fn strip_dots(s: &str) -> (r: Vec<char>)
    ensures
        r@ == without_dots(s@),
{
    let v = chars_of(s);
    let mut r: Vec<char> = Vec::new();
    let mut i: usize = 0;
    while i < v.len()
        invariant
            i <= v@.len(),
            v@ == s@,
            r@ == without_dots(v@.take(i as int)),
        decreases v.len() - i,
    {
        let ghost pre = v@.take(i as int);
        assert(v@.take(i + 1) =~= pre.push(v@[i as int]));
        proof {
            pre.lemma_filter_push(v@[i as int], |c: char| c != '.');
        }
        if v[i] != '.' {
            r.push(v[i]);
        }
        i += 1;
    }
    assert(v@.take(v@.len() as int) =~= v@);
    r
}

/// The local calendar date (year, month, day) of each due date of the
/// tasks, in a time zone `offset` seconds from UTC, with the style of its
/// task; tasks without a due date, or with one the calendar cannot hold, are
/// left out.
pub open spec fn dated_styles(
    tasks: Seq<TaskRecord>,
    rules: Seq<Seq<char>>,
    colors: Map<Seq<char>, Style>,
    offset: int,
) -> Seq<((int, int, int), Style)>
    decreases tasks.len(),
{
    if tasks.len() == 0 {
        Seq::empty()
    } else {
        let t = tasks.last();
        let rest = dated_styles(tasks.drop_last(), rules, colors, offset);
        match t.due {
            Some(d) => match civil_datetime(d.seconds + offset) {
                Some((y, mo, da, _h, _mi, _s)) => rest.push(((y, mo, da), rules_style(rules, colors, t))),
                None => rest,
            },
            None => rest,
        }
    }
}

/// The view of dated styles.
pub open spec fn dated_view(v: Seq<((i32, u32, u32), Style)>) -> Seq<((int, int, int), Style)> {
    v.map_values(|x: ((i32, u32, u32), Style)| ((x.0.0 as int, x.0.1 as int, x.0.2 as int), x.1))
}

impl TaskwarriorTui {
    /// The style of a task's row: the colors of `rule.precedence.color`,
    /// from the last rule to the first.
    pub fn style_for_task(&self, task: &TaskRecord) -> (r: Style)
        ensures
            r == rules_style(
                crate::pane::context::strings_view(self.config.rule_precedence_color@),
                self.config.color@,
                *task,
            ),
    {
        let rules = &self.config.rule_precedence_color;
        let ghost rs = crate::pane::context::strings_view(rules@);
        let mut style = Style::new();
        let mut i: usize = rules.len();
        assert(rs.skip(i as int) =~= Seq::<Seq<char>>::empty());
        while i > 0
            invariant
                i <= rules@.len(),
                rs == crate::pane::context::strings_view(rules@),
                *rules == self.config.rule_precedence_color,
                style == rules_style(rs.skip(i as int), self.config.color@, *task),
            decreases i,
        {
            let rule = rules[i - 1].as_str();
            let ghost rest = rs.skip(i as int);
            assert(rs.skip(i - 1).drop_first() =~= rest);
            assert(rs.skip(i - 1)[0] == rule@);
            style = self.apply_rule(style, rule, task);
            i -= 1;
        }
        assert(rs.skip(0) =~= rs);
        style
    }

    /// `s` with the color that `rule` gives `task` laid over it.
    fn apply_rule(&self, s: Style, rule: &str, task: &TaskRecord) -> (r: Style)
        ensures
            r == rule_style(s, rule@, self.config.color@, *task),
    {
        let colors = &self.config.color;
        proof {
            reveal_strlit("uda.");
            reveal_strlit("priority");
            reveal_strlit("tag.");
            reveal_strlit("project.");
        }
        let rc = chars_of(rule);
        if crate::text::chars_eq_str(rc.as_slice(), "uda.") || crate::text::chars_eq_str(rc.as_slice(), "priority") {
            match &task.priority {
                Some(p) => s.patch(color_for(colors, "color.uda.priority.", p.as_str())),
                None => s,
            }
        } else if crate::text::chars_eq_str(rc.as_slice(), "tag.") {
            match &task.tags {
                Some(ts) => {
                    let ghost tv = crate::pane::context::strings_view(ts@);
                    let mut st = s;
                    let mut k: usize = 0;
                    assert(tv.skip(0) =~= tv);
                    while k < ts.len()
                        invariant
                            k <= ts@.len(),
                            tv == crate::pane::context::strings_view(ts@),
                            tags_style(s, tv, colors@) == tags_style(st, tv.skip(k as int), colors@),
                        decreases ts.len() - k,
                    {
                        assert(tv.skip(k as int).drop_first() =~= tv.skip(k + 1));
                        assert(tv.skip(k as int)[0] == ts@[k as int]@);
                        st = st.patch(color_for(colors, "color.tag.", ts[k].as_str()));
                        k += 1;
                    }
                    assert(tv.skip(ts@.len() as int) =~= Seq::<Seq<char>>::empty());
                    st
                },
                None => s,
            }
        } else if crate::text::chars_eq_str(rc.as_slice(), "project.") {
            match &task.project {
                Some(p) => s.patch(color_for(colors, "color.project.", p.as_str())),
                None => s,
            }
        } else {
            match &task.tags {
                Some(ts) => {
                    let name = string_of(upper_chars(strip_dots(rule).as_slice()).as_slice());
                    if crate::app::contains_text(ts, &name) {
                        s.patch(color_for(colors, "color.", rule))
                    } else {
                        s
                    }
                },
                None => s,
            }
        }
    }

    /// The style of a project's row: the project's color where
    /// `rule.precedence.color` names projects.
    pub fn style_for_project(&self, project: &[String]) -> (r: Style)
        requires
            project@.len() > 0,
        ensures
            r == project_rules_style(
                crate::pane::context::strings_view(self.config.rule_precedence_color@),
                self.config.color@,
                project@[0]@,
            ),
    {
        let rules = &self.config.rule_precedence_color;
        let ghost rs = crate::pane::context::strings_view(rules@);
        let mut style = Style::new();
        let mut i: usize = rules.len();
        assert(rs.skip(i as int) =~= Seq::<Seq<char>>::empty());
        proof {
            reveal_strlit("project.");
        }
        while i > 0
            invariant
                i <= rules@.len(),
                project@.len() > 0,
                rs == crate::pane::context::strings_view(rules@),
                *rules == self.config.rule_precedence_color,
                style == project_rules_style(rs.skip(i as int), self.config.color@, project@[0]@),
            decreases i,
        {
            let ghost rest = rs.skip(i as int);
            assert(rs.skip(i - 1).drop_first() =~= rest);
            assert(rs.skip(i - 1)[0] == rules@[i - 1]@);
            if crate::text::chars_eq_str(chars_of(rules[i - 1].as_str()).as_slice(), "project.") {
                style = style.patch(color_for(&self.config.color, "color.project.", project[0].as_str()));
            }
            i -= 1;
        }
        assert(rs.skip(0) =~= rs);
        style
    }

    /// The local date of each task's due date, in a time zone `offset`
    /// seconds from UTC, with the style of the task, for the calendar.
    pub fn get_dates_with_styles(&self, offset: i32) -> (r: Vec<((i32, u32, u32), Style)>)
        requires
            -OFFSET_LIMIT < offset < OFFSET_LIMIT,
            forall|k: int| 0 <= k < self.tasks@.len() ==> dates_ok(#[trigger] self.tasks@[k]),
        ensures
            dated_view(r@) == dated_styles(
                self.tasks@,
                crate::pane::context::strings_view(self.config.rule_precedence_color@),
                self.config.color@,
                offset as int,
            ),
    {
        let ghost rules = crate::pane::context::strings_view(self.config.rule_precedence_color@);
        let mut r: Vec<((i32, u32, u32), Style)> = Vec::new();
        let mut i: usize = 0;
        assert(self.tasks@.take(0) =~= Seq::<TaskRecord>::empty());
        while i < self.tasks.len()
            invariant
                i <= self.tasks@.len(),
                -OFFSET_LIMIT < offset < OFFSET_LIMIT,
                forall|k: int| 0 <= k < self.tasks@.len() ==> dates_ok(#[trigger] self.tasks@[k]),
                rules == crate::pane::context::strings_view(self.config.rule_precedence_color@),
                dated_view(r@) == dated_styles(self.tasks@.take(i as int), rules, self.config.color@, offset as int),
            decreases self.tasks.len() - i,
        {
            let ghost pre = r@;
            let t = &self.tasks[i];
            assert(self.tasks@.take(i + 1).drop_last() =~= self.tasks@.take(i as int));
            assert(self.tasks@.take(i + 1).last() == self.tasks@[i as int]);
            assert(dates_ok(self.tasks@[i as int]));
            if let Some(d) = &t.due {
                if let Some((y, mo, da, _h, _mi, _s)) = civil_of(d.seconds + offset as i64) {
                    let st = self.style_for_task(t);
                    r.push(((y, mo, da), st));
                    assert(dated_view(r@) =~= dated_view(pre).push(((y as int, mo as int, da as int), st)));
                }
            }
            i += 1;
        }
        assert(self.tasks@.take(self.tasks@.len() as int) =~= self.tasks@);
        r
    }
}


proof fn lemma_no_dots_kept(s: Seq<char>)
    requires
        !s.contains('.'),
    ensures
        without_dots(s) == s,
    decreases s.len(),
{
    if s.len() == 0 {
        reveal(Seq::filter);
    } else {
        let p = s.drop_last();
        if p.contains('.') {
            let k = choose|k: int| 0 <= k < p.len() && p[k] == '.';
            assert(s[k] == '.');
        }
        lemma_no_dots_kept(p);
        assert(s.last() != '.') by {
            assert(s[s.len() - 1] == s.last());
        }
        assert(p.push(s.last()) =~= s);
        p.lemma_filter_push(s.last(), |c: char| c != '.');
    }
}

/// Taking the dots out of a rule name (`due.today` becomes `duetoday`, the
/// form of the task's tag) leaves no dot, keeps a name without dots as it
/// is, and drops each dot while keeping the text on both sides of it.
pub proof fn law_without_dots(s: Seq<char>, a: Seq<char>, b: Seq<char>)
    ensures
        !without_dots(s).contains('.'),
        !s.contains('.') ==> without_dots(s) == s,
        without_dots(a + seq!['.'] + b) == without_dots(a) + without_dots(b),
{
    let pred = |c: char| c != '.';
    if without_dots(s).contains('.') {
        let k = choose|k: int| 0 <= k < without_dots(s).len() && without_dots(s)[k] == '.';
        s.lemma_filter_pred(pred, k);
    }
    if !s.contains('.') {
        lemma_no_dots_kept(s);
    }
    Seq::filter_distributes_over_add(a + seq!['.'], b, pred);
    Seq::filter_distributes_over_add(a, seq!['.'], pred);
    Seq::<char>::empty().lemma_filter_push('.', pred);
    assert(Seq::<char>::empty().push('.') =~= seq!['.']);
    assert(Seq::<char>::empty().filter(pred) =~= Seq::<char>::empty()) by {
        reveal(Seq::filter);
    }
    assert(without_dots(a) + Seq::<char>::empty() =~= without_dots(a));
}

} // verus!

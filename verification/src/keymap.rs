//! Key sequences bound to actions, and the test that no sequence hides
//! another.
use vstd::prelude::*;

use crate::action::Action;
use crate::keyevent::{key_event_to_string, key_sequence_of, keys_text, lemma_keys_text_push, parse_key_sequence, KeyEvent};
use crate::text::{chars_eq, chars_of, push_all, push_str, string_of};

verus! {

/// Two actions are the same: of one kind, with the same contents.
#[verifier::opaque]
pub open spec fn action_eq(a: Action, b: Action) -> bool {
    match a {
        Action::Error(x) => b is Error && x@ == b->Error_0@,
        Action::TaskDetailsUpdateData(u, x) => b is TaskDetailsUpdateData && u == b->TaskDetailsUpdateData_0
            && x@ == b->TaskDetailsUpdateData_1@,
        _ => a == b,
    }
}

/// Whether two actions are the same.
pub fn actions_equal(a: &Action, b: &Action) -> (r: bool)
    ensures
        r == action_eq(*a, *b),
{
    reveal(action_eq);
    match a {
        Action::Tick => matches!(b, Action::Tick),
        Action::Render => matches!(b, Action::Render),
        Action::Suspend => matches!(b, Action::Suspend),
        Action::Resume => matches!(b, Action::Resume),
        Action::Quit => matches!(b, Action::Quit),
        Action::Refresh => matches!(b, Action::Refresh),
        Action::Help => matches!(b, Action::Help),
        Action::MoveDown => matches!(b, Action::MoveDown),
        Action::MoveUp => matches!(b, Action::MoveUp),
        Action::MoveBottom => matches!(b, Action::MoveBottom),
        Action::MoveTop => matches!(b, Action::MoveTop),
        Action::MoveLeft => matches!(b, Action::MoveLeft),
        Action::MoveRight => matches!(b, Action::MoveRight),
        Action::MoveHome => matches!(b, Action::MoveHome),
        Action::MoveEnd => matches!(b, Action::MoveEnd),
        Action::ToggleMark => matches!(b, Action::ToggleMark),
        Action::ToggleMarkAll => matches!(b, Action::ToggleMarkAll),
        Action::Select => matches!(b, Action::Select),
        Action::SelectAll => matches!(b, Action::SelectAll),
        Action::ToggleZoom => matches!(b, Action::ToggleZoom),
        Action::Context => matches!(b, Action::Context),
        Action::RunShell => matches!(b, Action::RunShell),
        Action::ShowTaskReport => matches!(b, Action::ShowTaskReport),
        Action::Resize(w, h) => match b {
            Action::Resize(w2, h2) => *w == *w2 && *h == *h2,
            _ => false,
        },
        Action::ExecuteShortcut(n) => match b {
            Action::ExecuteShortcut(n2) => *n == *n2,
            _ => false,
        },
        Action::ExecuteTask(c) => match b {
            Action::ExecuteTask(c2) => *c == *c2,
            _ => false,
        },
        Action::TaskDetailsUpdateUuid(u) => match b {
            Action::TaskDetailsUpdateUuid(u2) => *u == *u2,
            _ => false,
        },
        Action::Error(x) => match b {
            Action::Error(y) => chars_eq(chars_of(x.as_str()).as_slice(), chars_of(y.as_str()).as_slice()),
            _ => false,
        },
        Action::TaskDetailsUpdateData(u, x) => match b {
            Action::TaskDetailsUpdateData(u2, y) => *u == *u2 && chars_eq(
                chars_of(x.as_str()).as_slice(),
                chars_of(y.as_str()).as_slice(),
            ),
            _ => false,
        },
    }
}

/// A copy of an action.
pub fn copy_action(a: &Action) -> (r: Action)
    ensures
        action_eq(r, *a),
{
    reveal(action_eq);
    match a {
        Action::Tick => Action::Tick,
        Action::Render => Action::Render,
        Action::Suspend => Action::Suspend,
        Action::Resume => Action::Resume,
        Action::Quit => Action::Quit,
        Action::Refresh => Action::Refresh,
        Action::Help => Action::Help,
        Action::MoveDown => Action::MoveDown,
        Action::MoveUp => Action::MoveUp,
        Action::MoveBottom => Action::MoveBottom,
        Action::MoveTop => Action::MoveTop,
        Action::MoveLeft => Action::MoveLeft,
        Action::MoveRight => Action::MoveRight,
        Action::MoveHome => Action::MoveHome,
        Action::MoveEnd => Action::MoveEnd,
        Action::ToggleMark => Action::ToggleMark,
        Action::ToggleMarkAll => Action::ToggleMarkAll,
        Action::Select => Action::Select,
        Action::SelectAll => Action::SelectAll,
        Action::ToggleZoom => Action::ToggleZoom,
        Action::Context => Action::Context,
        Action::RunShell => Action::RunShell,
        Action::ShowTaskReport => Action::ShowTaskReport,
        Action::Resize(w, h) => Action::Resize(*w, *h),
        Action::ExecuteShortcut(n) => Action::ExecuteShortcut(*n),
        Action::ExecuteTask(c) => Action::ExecuteTask(*c),
        Action::TaskDetailsUpdateUuid(u) => Action::TaskDetailsUpdateUuid(*u),
        Action::Error(x) => Action::Error(x.clone()),
        Action::TaskDetailsUpdateData(u, x) => Action::TaskDetailsUpdateData(*u, x.clone()),
    }
}

/// Key sequences and the actions they are bound to.
pub struct KeyMap(pub Vec<(Vec<KeyEvent>, Action)>);

/// The key sequences of a key map.
pub open spec fn sequences(m: Seq<(Vec<KeyEvent>, Action)>) -> Seq<Seq<KeyEvent>> {
    m.map_values(|e: (Vec<KeyEvent>, Action)| e.0@)
}

/// `a` is a prefix of `b`, or equal to it.
pub open spec fn is_prefix_of(a: Seq<KeyEvent>, b: Seq<KeyEvent>) -> bool {
    a.len() <= b.len() && b.subrange(0, a.len() as int) == a
}

/// Two bindings of which the sequence of one is a proper prefix of the
/// other's (a sequence bound twice is the same key, as in a map).
pub open spec fn conflicting(keys: Seq<Seq<KeyEvent>>, i: int, j: int) -> bool {
    0 <= i < keys.len() && 0 <= j < keys.len() && keys[i] != keys[j] && is_prefix_of(keys[i], keys[j])
}

/// The message of a sequence that begins another.
pub open spec fn conflict_message(a: Seq<KeyEvent>, b: Seq<KeyEvent>) -> Seq<char> {
    "Conflict detected: Sequence "@ + keys_text(a) + " is a prefix of sequence "@ + keys_text(b)
}

fn keys_chars(keys: &Vec<KeyEvent>) -> (r: Vec<char>)
    ensures
        r@ == keys_text(keys@),
{
    let mut r: Vec<char> = Vec::new();
    let mut i: usize = 0;
    while i < keys.len()
        invariant
            i <= keys@.len(),
            r@ == keys_text(keys@.take(i as int)),
        decreases keys.len() - i,
    {
        assert(keys@.take(i + 1) =~= keys@.take(i as int).push(keys@[i as int]));
        proof {
            lemma_keys_text_push(keys@.take(i as int), keys@[i as int]);
        }
        let t = key_event_to_string(keys[i]);
        push_all(&mut r, chars_of(t.as_str()).as_slice());
        i += 1;
    }
    assert(keys@.take(keys@.len() as int) =~= keys@);
    r
}

fn begins(a: &Vec<KeyEvent>, b: &Vec<KeyEvent>) -> (r: bool)
    ensures
        r == is_prefix_of(a@, b@),
{
    if a.len() > b.len() {
        return false;
    }
    let mut i: usize = 0;
    while i < a.len()
        invariant
            i <= a@.len() <= b@.len(),
            forall|k: int| 0 <= k < i ==> a@[k] == b@[k],
        decreases a.len() - i,
    {
        if a[i] != b[i] {
            assert(b@.subrange(0, a@.len() as int)[i as int] != a@[i as int]);
            return false;
        }
        i += 1;
    }
    assert(b@.subrange(0, a@.len() as int) =~= a@);
    true
}

/// The action bound to exactly the key sequence `keys`: that of its first
/// binding.
pub open spec fn bound_action(m: Seq<(Vec<KeyEvent>, Action)>, keys: Seq<KeyEvent>) -> Option<Action>
    decreases m.len(),
{
    if m.len() == 0 {
        None
    } else if m[0].0@ == keys {
        Some(m[0].1)
    } else {
        bound_action(m.drop_first(), keys)
    }
}

/// No key sequence is bound twice.
pub open spec fn distinct_sequences(m: Seq<(Vec<KeyEvent>, Action)>) -> bool {
    forall|a: int, b: int| 0 <= a < b < m.len() ==> #[trigger] m[a].0@ != #[trigger] m[b].0@
}

proof fn lemma_bound_at(m: Seq<(Vec<KeyEvent>, Action)>, i: int)
    requires
        distinct_sequences(m),
        0 <= i < m.len(),
    ensures
        bound_action(m, m[i].0@) == Some(m[i].1),
    decreases i,
{
    if i > 0 {
        let t = m.drop_first();
        assert(m[0].0@ != m[i].0@);
        assert(t[i - 1] == m[i]);
        assert forall|a: int, b: int| 0 <= a < b < t.len() implies #[trigger] t[a].0@ != #[trigger] t[b].0@ by {
            assert(t[a] == m[a + 1] && t[b] == m[b + 1]);
        }
        lemma_bound_at(t, i - 1);
    }
}

proof fn lemma_bound_absent(m: Seq<(Vec<KeyEvent>, Action)>, keys: Seq<KeyEvent>)
    requires
        forall|a: int| 0 <= a < m.len() ==> #[trigger] m[a].0@ != keys,
    ensures
        bound_action(m, keys) is None,
    decreases m.len(),
{
    if m.len() > 0 {
        let t = m.drop_first();
        assert(m[0].0@ != keys);
        assert forall|a: int| 0 <= a < t.len() implies #[trigger] t[a].0@ != keys by {
            assert(t[a] == m[a + 1]);
        }
        lemma_bound_absent(t, keys);
    }
}

/// In a map where no sequence is bound twice, `keys` is bound to what the
/// binding with that sequence holds, or to nothing.
proof fn lemma_bound(m: Seq<(Vec<KeyEvent>, Action)>, keys: Seq<KeyEvent>)
    requires
        distinct_sequences(m),
    ensures
        (exists|i: int| 0 <= i < m.len() && m[i].0@ == keys) ==> bound_action(m, keys) == Some(
            m[choose|i: int| 0 <= i < m.len() && m[i].0@ == keys].1,
        ),
        !(exists|i: int| 0 <= i < m.len() && m[i].0@ == keys) ==> bound_action(m, keys) is None,
{
    if exists|i: int| 0 <= i < m.len() && m[i].0@ == keys {
        let i = choose|i: int| 0 <= i < m.len() && m[i].0@ == keys;
        lemma_bound_at(m, i);
    } else {
        lemma_bound_absent(m, keys);
    }
}

impl KeyMap {
    /// No key sequence is bound twice, as in a map.
    pub open spec fn wf(&self) -> bool {
        distinct_sequences(self.0@)
    }

    /// Bind `keys` to `action`, in place of what they were bound to, which is
    /// returned.
    pub fn insert(&mut self, keys: Vec<KeyEvent>, action: Action) -> (r: Option<Action>)
        requires
            old(self).wf(),
        ensures
            final(self).wf(),
            bound_action(final(self).0@, keys@) == Some(action),
            forall|k: Seq<KeyEvent>| k != keys@ ==> bound_action(final(self).0@, k) == bound_action(old(self).0@, k),
            match bound_action(old(self).0@, keys@) {
                Some(a) => r matches Some(x) && action_eq(x, a),
                None => r is None,
            },
    {
        let ghost m0 = self.0@;
        let ghost kv = keys@;
        match position_of(&self.0, &keys) {
            Some(j) => {
                proof {
                    lemma_bound_at(m0, j as int);
                }
                let prev = copy_action(&self.0[j].1);
                self.0.set(j, (keys, action));
                let ghost m1 = self.0@;
                proof {
                    assert forall|a: int, b: int| 0 <= a < b < m1.len() implies #[trigger] m1[a].0@ != #[trigger] m1[b].0@ by {
                        assert(m0[a].0@ != m0[b].0@);
                    }
                    lemma_bound_at(m1, j as int);
                    assert forall|k: Seq<KeyEvent>| k != kv implies bound_action(m1, k) == bound_action(m0, k) by {
                        lemma_bound(m0, k);
                        lemma_bound(m1, k);
                        if exists|i: int| 0 <= i < m0.len() && m0[i].0@ == k {
                            let i = choose|i: int| 0 <= i < m0.len() && m0[i].0@ == k;
                            assert(i != j);
                            assert(m1[i] == m0[i]);
                            lemma_bound_at(m0, i);
                            lemma_bound_at(m1, i);
                        } else {
                            assert forall|i: int| 0 <= i < m1.len() implies #[trigger] m1[i].0@ != k by {
                                if i != j {
                                    assert(m1[i] == m0[i]);
                                }
                            }
                            lemma_bound_absent(m1, k);
                        }
                    }
                }
                Some(prev)
            },
            None => {
                proof {
                    lemma_bound_absent(m0, kv);
                }
                self.0.push((keys, action));
                let ghost m1 = self.0@;
                proof {
                    assert forall|a: int, b: int| 0 <= a < b < m1.len() implies #[trigger] m1[a].0@ != #[trigger] m1[b].0@ by {
                        if b < m0.len() {
                            assert(m0[a].0@ != m0[b].0@);
                        } else {
                            assert(m1[a] == m0[a]);
                        }
                    }
                    lemma_bound_at(m1, m0.len() as int);
                    assert forall|k: Seq<KeyEvent>| k != kv implies bound_action(m1, k) == bound_action(m0, k) by {
                        lemma_bound(m0, k);
                        lemma_bound(m1, k);
                        if exists|i: int| 0 <= i < m0.len() && m0[i].0@ == k {
                            let i = choose|i: int| 0 <= i < m0.len() && m0[i].0@ == k;
                            assert(m1[i] == m0[i]);
                            lemma_bound_at(m0, i);
                            lemma_bound_at(m1, i);
                        } else {
                            assert forall|i: int| 0 <= i < m1.len() implies #[trigger] m1[i].0@ != k by {
                                if i < m0.len() {
                                    assert(m1[i] == m0[i]);
                                }
                            }
                            lemma_bound_absent(m1, k);
                        }
                    }
                }
                None
            },
        }
    }

    /// The action bound to the key sequence `keys`, if one is.
    pub fn get(&self, keys: &Vec<KeyEvent>) -> (r: Option<Action>)
        ensures
            match bound_action(self.0@, keys@) {
                Some(a) => r matches Some(x) && action_eq(x, a),
                None => r is None,
            },
    {
        let ghost m = self.0@;
        let mut i: usize = 0;
        assert(m.skip(0) =~= m);
        while i < self.0.len()
            invariant
                i <= m.len(),
                m == self.0@,
                bound_action(m, keys@) == bound_action(m.skip(i as int), keys@),
            decreases self.0.len() - i,
        {
            assert(m.skip(i as int).drop_first() =~= m.skip(i + 1));
            assert(m.skip(i as int)[0] == m[i as int]);
            if self.0[i].0.len() == keys.len() && begins(&self.0[i].0, keys) {
                assert(self.0@[i as int].0@ =~= keys@);
                return Some(copy_action(&self.0[i].1));
            }
            proof {
                if self.0@[i as int].0@ == keys@ {
                    assert(keys@.subrange(0, keys@.len() as int) =~= keys@);
                }
            }
            i += 1;
        }
        None
    }

    /// No key sequence is a proper prefix of another: `Err` with a message
    /// naming two where one is, if any are.
    pub fn validate(&self) -> (r: Result<(), String>)
        ensures
            r is Ok <==> !exists|i: int, j: int| conflicting(sequences(self.0@), i, j),
            r matches Err(m) ==> exists|i: int, j: int|
                conflicting(sequences(self.0@), i, j) && m@ == conflict_message(
                    sequences(self.0@)[i],
                    sequences(self.0@)[j],
                ),
    {
        let ghost keys = sequences(self.0@);
        let n = self.0.len();
        let mut i: usize = 0;
        while i < n
            invariant
                n == self.0@.len(),
                keys == sequences(self.0@),
                i <= n,
                forall|a: int, b: int| 0 <= a < i && 0 <= b < n ==> !#[trigger] conflicting(keys, a, b),
            decreases n - i,
        {
            let mut j: usize = 0;
            while j < n
                invariant
                    n == self.0@.len(),
                    keys == sequences(self.0@),
                    i < n,
                    j <= n,
                    forall|a: int, b: int| 0 <= a < i && 0 <= b < n ==> !#[trigger] conflicting(keys, a, b),
                    forall|b: int| 0 <= b < j ==> !#[trigger] conflicting(keys, i as int, b),
                decreases n - j,
            {
                if !same_keys(&self.0[i].0, &self.0[j].0) && begins(&self.0[i].0, &self.0[j].0) {
                    assert(conflicting(keys, i as int, j as int));
                    let mut m = chars_of("Conflict detected: Sequence ");
                    push_all(&mut m, keys_chars(&self.0[i].0).as_slice());
                    push_str(&mut m, " is a prefix of sequence ");
                    push_all(&mut m, keys_chars(&self.0[j].0).as_slice());
                    return Err(string_of(m.as_slice()));
                }
                j += 1;
            }
            i += 1;
        }
        Ok(())
    }
}


/// The key presses that key sequence text stands for.
#[verifier::opaque]
pub open spec fn sequence_read(s: Seq<char>) -> Result<Seq<KeyEvent>, Seq<char>> {
    key_sequence_of(s)
}

/// Entry `i` can be bound after those before it: its key sequence reads, and
/// every earlier entry with the same key sequence binds the same action.
pub open spec fn binding_fits(entries: Seq<(String, Action)>, i: int) -> bool {
    &&& sequence_read(entries[i].0@) is Ok
    &&& forall|j: int|
        0 <= j < i && #[trigger] sequence_read(entries[j].0@) == sequence_read(entries[i].0@) ==> action_eq(
            entries[j].1,
            entries[i].1,
        )
}

/// Why entry `i` cannot be bound: its key sequence does not read, or it is
/// bound to another action already.
pub open spec fn binding_error(entries: Seq<(String, Action)>, i: int) -> Seq<char> {
    match sequence_read(entries[i].0@) {
        Err(m) => m,
        Ok(_) => "Found a `"@ + entries[i].0@ + "` bound to two different actions"@,
    }
}

proof fn lemma_action_eq(a: Action, b: Action, c: Action)
    ensures
        action_eq(a, a),
        action_eq(a, b) ==> action_eq(b, a),
        action_eq(a, b) && action_eq(b, c) ==> action_eq(a, c),
{
    reveal(action_eq);
}

fn same_keys(a: &Vec<KeyEvent>, b: &Vec<KeyEvent>) -> (r: bool)
    ensures
        r == (a@ == b@),
{
    assert(b@.subrange(0, b@.len() as int) =~= b@);
    a.len() == b.len() && begins(a, b)
}

fn position_of(out: &Vec<(Vec<KeyEvent>, Action)>, keys: &Vec<KeyEvent>) -> (r: Option<usize>)
    ensures
        r matches Some(j) ==> j < out@.len() && out@[j as int].0@ == keys@,
        r is None ==> forall|a: int| 0 <= a < out@.len() ==> #[trigger] out@[a].0@ != keys@,
{
    let mut j: usize = 0;
    while j < out.len()
        invariant
            j <= out@.len(),
            forall|a: int| 0 <= a < j ==> #[trigger] out@[a].0@ != keys@,
        decreases out.len() - j,
    {
        if same_keys(&out[j].0, keys) {
            return Some(j);
        }
        j += 1;
    }
    None
}

/// The bindings `out` hold the first `i` entries: each sequence once, each
/// bound as entry `src[a]` binds it, the sequence of entry `q` bound at
/// `pos[q]`, and every entry binding an action equal to that of its sequence.
pub open spec fn binds_entries(
    es: Seq<(String, Action)>,
    i: int,
    out: Seq<(Vec<KeyEvent>, Action)>,
    pos: Seq<int>,
    src: Seq<int>,
) -> bool {
    &&& forall|a: int, b: int| 0 <= a < b < out.len() ==> #[trigger] out[a].0@ != #[trigger] out[b].0@
    &&& src.len() == out.len()
    &&& pos.len() == i
    &&& forall|a: int|
        0 <= a < out.len() ==> 0 <= #[trigger] src[a] < i && sequence_read(es[src[a]].0@) == Ok::<
            Seq<KeyEvent>,
            Seq<char>,
        >(out[a].0@) && action_eq(es[src[a]].1, out[a].1)
    &&& forall|q: int|
        0 <= q < i ==> 0 <= #[trigger] pos[q] < out.len() && sequence_read(es[q].0@) == Ok::<
            Seq<KeyEvent>,
            Seq<char>,
        >(out[pos[q]].0@) && action_eq(es[q].1, out[pos[q]].1)
}

proof fn lemma_bind_conflict(
    es: Seq<(String, Action)>,
    i: int,
    out: Seq<(Vec<KeyEvent>, Action)>,
    pos: Seq<int>,
    src: Seq<int>,
    j: int,
)
    requires
        0 <= i < es.len(),
        binds_entries(es, i, out, pos, src),
        0 <= j < out.len(),
        sequence_read(es[i].0@) == Ok::<Seq<KeyEvent>, Seq<char>>(out[j].0@),
        !action_eq(out[j].1, es[i].1),
    ensures
        !binding_fits(es, i),
{
    let q = src[j];
    lemma_action_eq(es[q].1, out[j].1, es[i].1);
    lemma_action_eq(out[j].1, es[q].1, es[i].1);
    assert(sequence_read(es[q].0@) == sequence_read(es[i].0@));
}

proof fn lemma_same_binding(
    es: Seq<(String, Action)>,
    i: int,
    out: Seq<(Vec<KeyEvent>, Action)>,
    pos: Seq<int>,
    src: Seq<int>,
    q: int,
)
    requires
        binds_entries(es, i, out, pos, src),
        0 <= q < i,
    ensures
        forall|a: int| 0 <= a < out.len() && sequence_read(es[q].0@) == Ok::<Seq<KeyEvent>, Seq<char>>(out[a].0@)
            ==> a == pos[q],
{
    assert forall|a: int| 0 <= a < out.len() && sequence_read(es[q].0@) == Ok::<Seq<KeyEvent>, Seq<char>>(out[a].0@)
        implies a == pos[q] by {
        let p = pos[q];
        if a < p {
            assert(out[a].0@ != out[p].0@);
        } else if p < a {
            assert(out[p].0@ != out[a].0@);
        }
    }
}

proof fn lemma_bind_replace(
    es: Seq<(String, Action)>,
    i: int,
    out: Seq<(Vec<KeyEvent>, Action)>,
    pos: Seq<int>,
    src: Seq<int>,
    j: int,
    keys: Vec<KeyEvent>,
    action: Action,
)
    requires
        0 <= i < es.len(),
        binds_entries(es, i, out, pos, src),
        0 <= j < out.len(),
        out[j].0@ == keys@,
        sequence_read(es[i].0@) == Ok::<Seq<KeyEvent>, Seq<char>>(keys@),
        action_eq(out[j].1, es[i].1),
        action_eq(action, es[i].1),
    ensures
        binding_fits(es, i),
        binds_entries(es, i + 1, out.update(j, (keys, action)), pos.push(j), src),
{
    let o2 = out.update(j, (keys, action));
    let p2 = pos.push(j);
    lemma_action_eq(action, es[i].1, action);
    lemma_action_eq(out[j].1, es[i].1, action);
    assert forall|q: int| 0 <= q < i && #[trigger] sequence_read(es[q].0@) == sequence_read(es[i].0@)
        implies action_eq(es[q].1, es[i].1) by {
        lemma_same_binding(es, i, out, pos, src, q);
        lemma_action_eq(es[q].1, out[j].1, es[i].1);
    }
    assert forall|q: int| 0 <= q < i + 1 implies 0 <= #[trigger] p2[q] < o2.len() && sequence_read(es[q].0@) == Ok::<
        Seq<KeyEvent>,
        Seq<char>,
    >(o2[p2[q]].0@) && action_eq(es[q].1, o2[p2[q]].1) by {
        if q < i {
            if pos[q] == j {
                lemma_action_eq(es[q].1, out[j].1, es[i].1);
                lemma_action_eq(es[q].1, es[i].1, action);
                lemma_action_eq(action, es[i].1, es[q].1);
                lemma_action_eq(es[i].1, action, es[q].1);
            }
        }
    }
    assert forall|a: int| 0 <= a < o2.len() implies 0 <= #[trigger] src[a] < i + 1 && sequence_read(es[src[a]].0@) == Ok::<
        Seq<KeyEvent>,
        Seq<char>,
    >(o2[a].0@) && action_eq(es[src[a]].1, o2[a].1) by {
        if a == j {
            let q = src[j];
            lemma_action_eq(es[q].1, out[j].1, es[i].1);
            lemma_action_eq(es[q].1, es[i].1, action);
            lemma_action_eq(action, es[i].1, es[q].1);
            lemma_action_eq(es[i].1, action, es[q].1);
        }
    }
    assert forall|a: int, b: int| 0 <= a < b < o2.len() implies #[trigger] o2[a].0@ != #[trigger] o2[b].0@ by {
        assert(out[a].0@ != out[b].0@);
    }
}

proof fn lemma_bind_new(
    es: Seq<(String, Action)>,
    i: int,
    out: Seq<(Vec<KeyEvent>, Action)>,
    pos: Seq<int>,
    src: Seq<int>,
    keys: Vec<KeyEvent>,
    action: Action,
)
    requires
        0 <= i < es.len(),
        binds_entries(es, i, out, pos, src),
        forall|a: int| 0 <= a < out.len() ==> #[trigger] out[a].0@ != keys@,
        sequence_read(es[i].0@) == Ok::<Seq<KeyEvent>, Seq<char>>(keys@),
        action_eq(action, es[i].1),
    ensures
        binding_fits(es, i),
        binds_entries(es, i + 1, out.push((keys, action)), pos.push(out.len() as int), src.push(i)),
{
    let o2 = out.push((keys, action));
    let n = out.len() as int;
    let p2 = pos.push(n);
    let s2 = src.push(i);
    lemma_action_eq(action, es[i].1, action);
    lemma_action_eq(es[i].1, action, es[i].1);
    assert forall|q: int| 0 <= q < i && #[trigger] sequence_read(es[q].0@) == sequence_read(es[i].0@)
        implies action_eq(es[q].1, es[i].1) by {
        assert(out[pos[q]].0@ != keys@);
    }
    assert forall|q: int| 0 <= q < i + 1 implies 0 <= #[trigger] p2[q] < o2.len() && sequence_read(es[q].0@) == Ok::<
        Seq<KeyEvent>,
        Seq<char>,
    >(o2[p2[q]].0@) && action_eq(es[q].1, o2[p2[q]].1) by {
        if q < i {
            assert(o2[pos[q]] == out[pos[q]]);
        }
    }
    assert forall|a: int| 0 <= a < o2.len() implies 0 <= #[trigger] s2[a] < i + 1 && sequence_read(es[s2[a]].0@) == Ok::<
        Seq<KeyEvent>,
        Seq<char>,
    >(o2[a].0@) && action_eq(es[s2[a]].1, o2[a].1) by {
        if a < n {
            assert(o2[a] == out[a]);
        }
    }
    assert forall|a: int, b: int| 0 <= a < b < o2.len() implies #[trigger] o2[a].0@ != #[trigger] o2[b].0@ by {
        if b == n {
            assert(out[a].0@ != keys@);
        } else {
            assert(out[a].0@ != out[b].0@);
        }
    }
}

impl KeyMap {
    /// The bindings of `entries` (key sequences as written, and actions), in
    /// order: the first entry whose key sequence does not read, or that binds
    /// a sequence bound before to another action, ends the reading with an
    /// error.
    pub fn from_entries(entries: &Vec<(String, Action)>) -> (r: Result<KeyMap, String>)
        ensures
            r is Ok <==> forall|i: int| 0 <= i < entries@.len() ==> #[trigger] binding_fits(entries@, i),
            r is Err ==> exists|i: int|
                0 <= i < entries@.len() && (forall|j: int| 0 <= j < i ==> #[trigger] binding_fits(entries@, j))
                    && !binding_fits(entries@, i) && r->Err_0@ == binding_error(entries@, i),
            r matches Ok(m) ==> m.wf(),
            r is Ok ==> exists|pos: Seq<int>, src: Seq<int>|
                #[trigger] binds_entries(entries@, entries@.len() as int, r->Ok_0.0@, pos, src),
    {
        let ghost es = entries@;
        let mut out: Vec<(Vec<KeyEvent>, Action)> = Vec::new();
        let mut i: usize = 0;
        let ghost mut pos: Seq<int> = Seq::empty();
        let ghost mut src: Seq<int> = Seq::empty();
        while i < entries.len()
            invariant
                es == entries@,
                i <= es.len(),
                forall|q: int| 0 <= q < i ==> #[trigger] binding_fits(es, q),
                binds_entries(es, i as int, out@, pos, src),
            decreases es.len() - i,
        {
            let keys = match parse_key_sequence(entries[i].0.as_str()) {
                Ok(k) => k,
                Err(m) => {
                    assert(sequence_read(es[i as int].0@) == Err::<Seq<KeyEvent>, Seq<char>>(m@)) by {
                        reveal(sequence_read);
                    }
                    assert(!binding_fits(es, i as int));
                    assert(binding_error(es, i as int) == m@);
                    return Err(m);
                },
            };
            assert(sequence_read(es[i as int].0@) == Ok::<Seq<KeyEvent>, Seq<char>>(keys@)) by {
                reveal(sequence_read);
            }
            let action = copy_action(&entries[i].1);
            match position_of(&out, &keys) {
                Some(j) => {
                    if !actions_equal(&out[j].1, &entries[i].1) {
                        proof {
                            lemma_bind_conflict(es, i as int, out@, pos, src, j as int);
                        }
                        let mut m = chars_of("Found a `");
                        push_str(&mut m, entries[i].0.as_str());
                        push_str(&mut m, "` bound to two different actions");
                        return Err(string_of(m.as_slice()));
                    }
                    proof {
                        lemma_bind_replace(es, i as int, out@, pos, src, j as int, keys, action);
                        pos = pos.push(j as int);
                    }
                    out.set(j, (keys, action));
                },
                None => {
                    proof {
                        lemma_bind_new(es, i as int, out@, pos, src, keys, action);
                        pos = pos.push(out@.len() as int);
                        src = src.push(i as int);
                    }
                    out.push((keys, action));
                },
            }
            i += 1;
        }
        let km = KeyMap(out);
        assert(binds_entries(entries@, entries@.len() as int, km.0@, pos, src));
        let r: Result<KeyMap, String> = Ok(km);
        assert(r->Ok_0.0@ == out@);
        assert(binds_entries(entries@, entries@.len() as int, r->Ok_0.0@, pos, src));
        assert(exists|p: Seq<int>, q: Seq<int>| #[trigger] binds_entries(entries@, entries@.len() as int, r->Ok_0.0@, p, q));
        r
    }
}

} // verus!

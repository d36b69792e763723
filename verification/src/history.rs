//! The history of what was typed at a prompt, and the search through it that
//! the arrow keys make.
use vstd::prelude::*;

use rustyline::history::{DefaultHistory, FileHistory, History};

verus! {

#[verifier::external_type_specification]
#[verifier::external_body]
pub struct ExFileHistory(rustyline::history::FileHistory);

/// The way a search goes through the history.
#[derive(Clone, Copy, Debug, PartialEq, Eq, Structural)]
pub enum SearchDirection {
    /// From older to newer entries.
    Forward,
    /// From newer to older entries.
    Reverse,
}

/// The entries that a history holds, oldest first.
pub uninterp spec fn history_entries(h: FileHistory) -> Seq<Seq<char>>;

/// The number of entries that a history keeps at most.
pub uninterp spec fn history_max_len(h: FileHistory) -> nat;

/// Whether a history refuses a line equal to its newest entry.
pub uninterp spec fn history_ignores_dups(h: FileHistory) -> bool;

/// Whether a history refuses a line that starts with white space.
pub uninterp spec fn history_ignores_space(h: FileHistory) -> bool;

/// `p` is a prefix of `s`.
pub open spec fn is_prefix(p: Seq<char>, s: Seq<char>) -> bool {
    p.len() <= s.len() && s.subrange(0, p.len() as int) == p
}

/// The newest entry at or before `i` that starts with `term`.
pub open spec fn search_back(e: Seq<Seq<char>>, term: Seq<char>, i: int) -> Option<int>
    decreases i + 1,
{
    if i < 0 || i >= e.len() {
        None
    } else if is_prefix(term, e[i]) {
        Some(i)
    } else {
        search_back(e, term, i - 1)
    }
}

/// The oldest entry at or after `i` that starts with `term`.
pub open spec fn search_forth(e: Seq<Seq<char>>, term: Seq<char>, i: int) -> Option<int>
    decreases e.len() - i,
{
    if i < 0 || i >= e.len() {
        None
    } else if is_prefix(term, e[i]) {
        Some(i)
    } else {
        search_forth(e, term, i + 1)
    }
}

/// The entry that an anchored search for `term` from `start` finds: none for
/// an empty term or a start past the end.
pub open spec fn anchored_search(e: Seq<Seq<char>>, term: Seq<char>, start: int, dir: SearchDirection) -> Option<int> {
    if term.len() == 0 || start < 0 || start >= e.len() {
        None
    } else {
        match dir {
            SearchDirection::Reverse => search_back(e, term, start),
            SearchDirection::Forward => search_forth(e, term, start),
        }
    }
}

/// What a search finds lies between where it starts and the end it goes
/// to, and begins with what was looked for.
pub proof fn lemma_search_found(e: Seq<Seq<char>>, term: Seq<char>, start: int, dir: SearchDirection)
    ensures
        anchored_search(e, term, start, dir) matches Some(i) ==> {
            &&& 0 <= i < e.len()
            &&& is_prefix(term, e[i])
            &&& (dir == SearchDirection::Reverse ==> i <= start)
            &&& (dir == SearchDirection::Forward ==> start <= i)
        },
{
    if term.len() != 0 && 0 <= start < e.len() {
        match dir {
            SearchDirection::Reverse => lemma_back_found(e, term, start),
            SearchDirection::Forward => lemma_forth_found(e, term, start),
        }
    }
}

proof fn lemma_back_found(e: Seq<Seq<char>>, term: Seq<char>, i: int)
    ensures
        search_back(e, term, i) matches Some(j) ==> 0 <= j <= i && j < e.len() && is_prefix(term, e[j]),
    decreases i + 1,
{
    if 0 <= i < e.len() && !is_prefix(term, e[i]) {
        lemma_back_found(e, term, i - 1);
    }
}

proof fn lemma_forth_found(e: Seq<Seq<char>>, term: Seq<char>, i: int)
    ensures
        search_forth(e, term, i) matches Some(j) ==> 0 <= i <= j < e.len() && is_prefix(term, e[j]),
    decreases e.len() - i,
{
    if 0 <= i < e.len() && !is_prefix(term, e[i]) {
        lemma_forth_found(e, term, i + 1);
    }
}

/// Whether a history with these entries and settings takes `line` (for one
/// that does not look at leading white space).
pub open spec fn history_accepts(e: Seq<Seq<char>>, max_len: nat, ignore_dups: bool, line: Seq<char>) -> bool {
    !(max_len == 0 || line.len() == 0 || (ignore_dups && e.len() > 0 && e.last() == line))
}

/// The entries once `line` is taken: the oldest one goes where the history
/// is full.
pub open spec fn history_insert(e: Seq<Seq<char>>, max_len: nat, line: Seq<char>) -> Seq<Seq<char>> {
    if e.len() == max_len {
        e.drop_first().push(line)
    } else {
        e.push(line)
    }
}

/// `DefaultHistory::new()`: an empty history with rustyline's default
/// settings (100 entries, a line equal to the newest one refused, leading
/// white space allowed).
#[verifier::external_body]
fn history_new() -> (h: DefaultHistory)
    ensures
        history_entries(h) == Seq::<Seq<char>>::empty(),
        history_max_len(h) == 100,
        history_ignores_dups(h),
        !history_ignores_space(h),
{
    DefaultHistory::new()
}

/// `History::len`: the number of entries.
#[verifier::external_body]
fn history_length(h: &DefaultHistory) -> (r: usize)
    ensures
        r == history_entries(*h).len(),
{
    h.len()
}

/// `History::is_empty`: whether there is no entry.
#[verifier::external_body]
fn history_is_empty(h: &DefaultHistory) -> (r: bool)
    ensures
        r == (history_entries(*h).len() == 0),
{
    h.is_empty()
}

/// `History::get`: the entry at `index`, none past the end (the in-memory
/// lookup that the file history makes never fails).
#[verifier::external_body]
fn history_get(h: &DefaultHistory, index: usize) -> (r: Option<String>)
    ensures
        if index < history_entries(*h).len() {
            r matches Some(s) && s@ == history_entries(*h)[index as int]
        } else {
            r is None
        },
{
    match h.get(index, rustyline::history::SearchDirection::Forward) {
        Ok(found) => found.map(|x| x.entry.to_string()),
        Err(_) => None,
    }
}

/// `History::starts_with`: from `start`, in direction `dir`, the first entry
/// that begins with `term`, and its index (an empty term finds nothing; the
/// in-memory search that the file history makes never fails).
#[verifier::external_body]
fn history_starts_with(h: &DefaultHistory, term: &str, start: usize, dir: SearchDirection) -> (r: Option<(usize, String)>)
    ensures
        match anchored_search(history_entries(*h), term@, start as int, dir) {
            Some(i) => r matches Some((j, s)) && j == i && s@ == history_entries(*h)[i],
            None => r is None,
        },
{
    let d = match dir {
        SearchDirection::Forward => rustyline::history::SearchDirection::Forward,
        SearchDirection::Reverse => rustyline::history::SearchDirection::Reverse,
    };
    match h.starts_with(term, start, d) {
        Ok(found) => found.map(|x| (x.idx, x.entry.to_string())),
        Err(_) => None,
    }
}

/// `History::add`: the line is appended unless it is empty, equal to the
/// newest entry where duplicates are refused, or the history keeps nothing;
/// a full history drops its oldest entry. The settings stay. What a history
/// that looks at leading white space does with such a line is left unsaid.
#[verifier::external_body]
fn history_add(h: &mut DefaultHistory, line: &str) -> (r: Option<bool>)
    ensures
        history_max_len(*final(h)) == history_max_len(*old(h)),
        history_ignores_dups(*final(h)) == history_ignores_dups(*old(h)),
        history_ignores_space(*final(h)) == history_ignores_space(*old(h)),
        !history_ignores_space(*old(h)) ==> {
            let added = history_accepts(
                history_entries(*old(h)),
                history_max_len(*old(h)),
                history_ignores_dups(*old(h)),
                line@,
            );
            &&& r == Some(added)
            &&& history_entries(*final(h)) == if added {
                history_insert(history_entries(*old(h)), history_max_len(*old(h)), line@)
            } else {
                history_entries(*old(h))
            }
        },
{
    h.add(line).ok()
}

/// What a search of the history gives, and where the search then stands.
pub open spec fn search_outcome(e: Seq<Seq<char>>, index: Option<int>, buf: Seq<char>, dir: SearchDirection) -> (
    Option<Seq<char>>,
    Option<int>,
) {
    let n = e.len() as int;
    if n == 0 {
        (None, index)
    } else if index is None && dir == SearchDirection::Forward {
        (None, index)
    } else if index matches Some(hi) && ((hi == n - 1 && dir == SearchDirection::Forward) || (hi == 0
        && dir == SearchDirection::Reverse)) {
        (None, index)
    } else {
        let start = match index {
            None => n - 1,
            Some(hi) => if dir == SearchDirection::Reverse {
                hi - 1
            } else if hi + 1 < n - 1 {
                hi + 1
            } else {
                n - 1
            },
        };
        let stand = if index is None {
            Some(n - 1)
        } else {
            index
        };
        match anchored_search(e, buf, start, dir) {
            Some(i) => (Some(e[i]), Some(i)),
            None => if buf.len() == 0 {
                (Some(e[start]), Some(start))
            } else {
                (None, stand)
            },
        }
    }
}

/// Once a line is taken, the first step back through the history with
/// nothing typed gives that line.
pub proof fn law_taken_line_recalled(e: Seq<Seq<char>>, max_len: nat, ignore_dups: bool, line: Seq<char>)
    requires
        history_accepts(e, max_len, ignore_dups, line),
    ensures
        ({
            let after = history_insert(e, max_len, line);
            search_outcome(after, None, Seq::<char>::empty(), SearchDirection::Reverse) == (
                Some(line),
                Some(after.len() - 1),
            )
        }),
{
    let after = history_insert(e, max_len, line);
    assert(after.last() == line);
}

/// An entry that a search for typed text gives starts with that text.
pub proof fn law_search_gives_matching_entry(e: Seq<Seq<char>>, index: Option<int>, buf: Seq<char>, dir: SearchDirection)
    requires
        buf.len() > 0,
        index matches Some(i) ==> 0 <= i < e.len(),
    ensures
        search_outcome(e, index, buf, dir).0 matches Some(s) ==> is_prefix(buf, s),
        search_outcome(e, index, buf, dir).1 matches Some(i) ==> 0 <= i < e.len(),
{
    let n = e.len() as int;
    if n > 0 {
        let start = match index {
            None => n - 1,
            Some(hi) => if dir == SearchDirection::Reverse {
                hi - 1
            } else if hi + 1 < n - 1 {
                hi + 1
            } else {
                n - 1
            },
        };
        lemma_search_found(e, buf, start, dir);
    }
}

/// A history never holds more entries than it keeps.
pub proof fn law_history_bounded(e: Seq<Seq<char>>, max_len: nat, ignore_dups: bool, line: Seq<char>)
    requires
        e.len() <= max_len,
        history_accepts(e, max_len, ignore_dups, line),
    ensures
        history_insert(e, max_len, line).len() <= max_len,
        history_insert(e, max_len, line).last() == line,
{
}

/// What was typed at one prompt, and where a search through it stands.
pub struct HistoryContext {
    history: DefaultHistory,
    history_index: Option<usize>,
}

impl HistoryContext {
    /// Where a search stands lies inside the history.
    #[verifier::type_invariant]
    spec fn index_inside(self) -> bool {
        self.history_index matches Some(i) ==> i < history_entries(self.history).len()
    }

    /// The entries, oldest first.
    pub closed spec fn entries(self) -> Seq<Seq<char>> {
        history_entries(self.history)
    }

    /// Where a search stands, if one was made since the last line was added.
    pub closed spec fn index(self) -> Option<int> {
        match self.history_index {
            Some(i) => Some(i as int),
            None => None,
        }
    }

    /// The settings of the history inside.
    pub closed spec fn settings(self) -> (nat, bool, bool) {
        (
            history_max_len(self.history),
            history_ignores_dups(self.history),
            history_ignores_space(self.history),
        )
    }

    /// An empty history with the default settings, and no search made.
    pub fn new() -> (r: Self)
        ensures
            r.entries() == Seq::<Seq<char>>::empty(),
            r.index() is None,
            r.settings() == (100nat, true, false),
    {
        HistoryContext { history: history_new(), history_index: None }
    }

    /// Takes the history read from its file; no search stands.
    pub fn load(&mut self, history: DefaultHistory)
        ensures
            final(self).entries() == history_entries(history),
            final(self).index() is None,
            final(self).settings() == (
                history_max_len(history),
                history_ignores_dups(history),
                history_ignores_space(history),
            ),
    {
        self.history_index = None;
        self.history = history;
    }

    /// The history inside.
    pub fn history(&self) -> (r: &DefaultHistory)
        ensures
            history_entries(*r) == self.entries(),
    {
        &self.history
    }

    /// Where a search stands.
    pub fn history_index(&self) -> (r: Option<usize>)
        ensures
            r matches Some(i) ==> self.index() == Some(i as int),
            r is None ==> self.index() is None,
    {
        self.history_index
    }

    /// The number of entries.
    pub fn history_len(&self) -> (r: usize)
        ensures
            r == self.entries().len(),
    {
        history_length(&self.history)
    }

    /// Forgets where a search stands.
    pub fn reset(&mut self)
        ensures
            final(self).entries() == old(self).entries(),
            final(self).settings() == old(self).settings(),
            final(self).index() is None,
    {
        self.history_index = None;
    }

    /// Adds `buf`, as the history takes it; a search stands nowhere after a
    /// line was taken.
    pub fn add(&mut self, buf: &str)
        ensures
            final(self).settings() == old(self).settings(),
            !old(self).settings().2 ==> {
                let taken = history_accepts(old(self).entries(), old(self).settings().0, old(self).settings().1, buf@);
                &&& final(self).entries() == if taken {
                    history_insert(old(self).entries(), old(self).settings().0, buf@)
                } else {
                    old(self).entries()
                }
                &&& final(self).index() == if taken {
                    None
                } else {
                    old(self).index()
                }
            },
    {
        proof {
            use_type_invariant(&*self);
        }
        let saved = self.history_index;
        self.history_index = None;
        let mut history = history_new();
        std::mem::swap(&mut history, &mut self.history);
        let r = history_add(&mut history, buf);
        let len = history_length(&history);
        self.history = history;
        match r {
            Some(true) => {},
            _ => {
                if let Some(i) = saved {
                    if i < len {
                        self.history_index = Some(i);
                    }
                }
            },
        }
    }

    /// Searches the history for an entry that starts with `buf`, one step
    /// on from where the last search stands, in direction `dir`; with an
    /// empty `buf`, the entry one step on. Gives nothing at either end.
    pub fn history_search(&mut self, buf: &str, dir: SearchDirection) -> (r: Option<String>)
        ensures
            final(self).entries() == old(self).entries(),
            final(self).settings() == old(self).settings(),
            ({
                let (found, stand) = search_outcome(old(self).entries(), old(self).index(), buf@, dir);
                &&& match found {
                    Some(s) => r matches Some(x) && x@ == s,
                    None => r is None,
                }
                &&& final(self).index() == stand
            }),
    {
        proof {
            use_type_invariant(&*self);
        }
        if history_is_empty(&self.history) {
            return None;
        }
        let n = history_length(&self.history);
        let start: usize = match self.history_index {
            None => match dir {
                SearchDirection::Forward => {
                    return None;
                },
                SearchDirection::Reverse => {
                    self.history_index = Some(n - 1);
                    n - 1
                },
            },
            Some(hi) => {
                if (hi == n - 1 && dir == SearchDirection::Forward) || (hi == 0 && dir == SearchDirection::Reverse) {
                    return None;
                }
                match dir {
                    SearchDirection::Reverse => hi - 1,
                    SearchDirection::Forward => if hi + 1 < n - 1 {
                        hi + 1
                    } else {
                        n - 1
                    },
                }
            },
        };
        proof {
            lemma_search_found(history_entries(self.history), buf@, start as int, dir);
        }
        match history_starts_with(&self.history, buf, start, dir) {
            Some((idx, entry)) => {
                self.history_index = Some(idx);
                Some(entry)
            },
            None => {
                if buf.unicode_len() == 0 {
                    match history_get(&self.history, start) {
                        Some(entry) => {
                            self.history_index = Some(start);
                            Some(entry)
                        },
                        None => None,
                    }
                } else {
                    None
                }
            },
        }
    }
}

} // verus!

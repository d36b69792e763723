//! Completion of the word under the cursor in the command line.
use vstd::prelude::*;

use crate::table::ListState;
use crate::text::{
    byte_len, byte_len_chars, char_utf8_len, push_all, chars_eq, chars_of, contains, contains_chars, find_char, find_char_in,
    has_prefix, lowercase, lower_chars, slice_range, split_once_char, split_once_chars,
    starts_with, string_of, utf8_len, ends_with, lemma_find_char_at, lemma_find_char_none,
};
use crate::utils::{text_width, width_of};

verus! {

/// A character that ends a word for completion.
pub open spec fn is_word_break(c: char) -> bool {
    c == ' ' || c == '(' || c == ')'
}

/// The index of the first character of the word that ends at index `k` of `s`.
pub open spec fn word_start(s: Seq<char>, k: int) -> int
    decreases k,
{
    if k <= 0 {
        0
    } else if is_word_break(s[k - 1]) {
        k
    } else {
        word_start(s, k - 1)
    }
}

/// `p` is the byte offset of a character boundary of `s`.
pub open spec fn is_char_boundary(s: Seq<char>, p: int) -> bool {
    exists|k: int| 0 <= k <= s.len() && byte_len(s.take(k)) == p
}

proof fn lemma_byte_len_step(s: Seq<char>, j: int)
    requires
        0 < j <= s.len(),
    ensures
        byte_len(s.take(j)) == byte_len(s.take(j - 1)) + utf8_len(s[j - 1]),
{
    assert(s.take(j).drop_last() =~= s.take(j - 1));
}

proof fn lemma_byte_len_grows(s: Seq<char>, i: int, j: int)
    requires
        0 <= i < j <= s.len(),
    ensures
        byte_len(s.take(i)) < byte_len(s.take(j)),
    decreases j - i,
{
    lemma_byte_len_step(s, j);
    if i < j - 1 {
        lemma_byte_len_grows(s, i, j - 1);
    }
}

/// The byte offset where the word under the cursor begins: from the cursor
/// (a byte offset) back to the nearest space or parenthesis.
pub fn get_start_word_under_cursor(line: &str, cursor_pos: usize) -> (r: usize)
    requires
        is_char_boundary(line@, cursor_pos as int),
    ensures
        forall|k: int|
            0 <= k <= line@.len() && byte_len(line@.take(k)) == cursor_pos ==> r == byte_len(
                line@.take(word_start(line@, k)),
            ),
{
    let s = chars_of(line);
    let i = char_index(s.as_slice(), cursor_pos);
    let ghost kk = i as int;
    let k = i;
    let mut j = k;
    let mut res = cursor_pos;
    while j > 0 && !(s[j - 1] == ' ' || s[j - 1] == '(' || s[j - 1] == ')')
        invariant
            s@ == line@,
            k == kk,
            j <= k <= s@.len(),
            res == byte_len(s@.take(j as int)),
            word_start(s@, k as int) == word_start(s@, j as int),
        decreases j,
    {
        proof {
            lemma_byte_len_step(s@, j as int);
        }
        res = res - char_utf8_len(s[j - 1]);
        j -= 1;
    }
    proof {
        assert forall|k2: int|
            0 <= k2 <= line@.len() && byte_len(line@.take(k2)) == cursor_pos implies k2 == kk by {
            if k2 < kk {
                lemma_byte_len_grows(s@, k2, kk);
            } else if k2 > kk {
                lemma_byte_len_grows(s@, kk, k2);
            }
        }
    }
    res
}


/// The character index at which byte offset `p` of `s` falls.
pub open spec fn char_index_at(s: Seq<char>, p: int) -> int {
    choose|k: int| 0 <= k <= s.len() && byte_len(s.take(k)) == p
}

pub(crate) proof fn lemma_char_index_unique(s: Seq<char>, p: int, k: int)
    requires
        0 <= k <= s.len(),
        byte_len(s.take(k)) == p,
    ensures
        char_index_at(s, p) == k,
{
    let c = char_index_at(s, p);
    if c < k {
        lemma_byte_len_grows(s, c, k);
    } else if c > k {
        lemma_byte_len_grows(s, k, c);
    }
}

/// The character index at which byte offset `pos` of `s` falls.
pub(crate) fn char_index(s: &[char], pos: usize) -> (k: usize)
    requires
        is_char_boundary(s@, pos as int),
    ensures
        k <= s@.len(),
        byte_len(s@.take(k as int)) == pos,
        k == char_index_at(s@, pos as int),
{
    let ghost kk = char_index_at(s@, pos as int);
    let mut i: usize = 0;
    let mut acc: usize = 0;
    assert(s@.take(0) =~= Seq::<char>::empty());
    while acc < pos
        invariant
            0 <= kk <= s@.len(),
            byte_len(s@.take(kk)) == pos,
            i <= kk,
            acc == byte_len(s@.take(i as int)),
        decreases kk - i,
    {
        proof {
            if i == kk {
                assert(false);
            }
            lemma_byte_len_step(s@, i + 1);
            if i + 1 < kk {
                lemma_byte_len_grows(s@, i + 1, kk);
            }
        }
        acc = acc + char_utf8_len(s[i]);
        i += 1;
    }
    proof {
        if i < kk {
            lemma_byte_len_grows(s@, i as int, kk);
        }
        lemma_char_index_unique(s@, pos as int, i as int);
    }
    i
}

/// A completion: what is shown, what replaces the word, the word, and the
/// candidate before and after the cursor.
pub type Completion = (String, String, String, String, String);

/// A completion as plain values.
pub type CompletionView = (Seq<char>, Seq<char>, Seq<char>, Seq<char>, Seq<char>);

/// The plain values of a completion.
pub open spec fn completion_view(c: Completion) -> CompletionView {
    (c.0@, c.1@, c.2@, c.3@, c.4@)
}

/// The candidates that can complete words, each with the context it belongs
/// to; the context of the word being completed; and the whole input.
pub struct TaskwarriorTuiCompletionHelper {
    pub candidates: Vec<(String, String)>,
    pub context: String,
    pub input: String,
}

/// The candidates as plain values.
pub open spec fn candidates_view(c: Seq<(String, String)>) -> Seq<(Seq<char>, Seq<char>)> {
    c.map_values(|p: (String, String)| (p.0@, p.1@))
}

/// `cand`, of context `ctx`, completes `w`: the context is the one being
/// completed, `cand` begins with `w` (or does so lower-cased), and the
/// input does not already hold it.
pub open spec fn offered(ctx: Seq<char>, cand: Seq<char>, context: Seq<char>, input: Seq<char>, w: Seq<char>) -> bool {
    &&& ctx == context
    &&& starts_with(cand, w) || starts_with(lowercase(cand), lowercase(w))
    &&& !contains(input, cand) || !contains(lowercase(input), lowercase(cand))
}

/// The completions of `w`, which ends at byte `pos`, among `cands`, in order.
pub open spec fn completions(
    cands: Seq<(Seq<char>, Seq<char>)>,
    context: Seq<char>,
    input: Seq<char>,
    w: Seq<char>,
    pos: int,
) -> Seq<CompletionView>
    decreases cands.len(),
{
    if cands.len() == 0 {
        Seq::empty()
    } else {
        let prev = completions(cands.drop_last(), context, input, w, pos);
        let (ctx, c) = cands.last();
        if offered(ctx, c, context, input, w) {
            let k = char_index_at(c, pos);
            prev.push((c, c, w, c.take(k), c.skip(k)))
        } else {
            prev
        }
    }
}

/// Every candidate that completes `w` can be cut at byte `pos`.
pub open spec fn cuts_ok(
    cands: Seq<(Seq<char>, Seq<char>)>,
    context: Seq<char>,
    input: Seq<char>,
    w: Seq<char>,
    pos: int,
) -> bool {
    forall|i: int|
        0 <= i < cands.len() && offered(#[trigger] cands[i].0, cands[i].1, context, input, w)
            ==> is_char_boundary(cands[i].1, pos)
}

impl TaskwarriorTuiCompletionHelper {
    /// The completions of the part of `word` before byte `pos`.
    pub fn complete(&self, word: &str, pos: usize) -> (r: Vec<Completion>)
        requires
            is_char_boundary(word@, pos as int),
            cuts_ok(
                candidates_view(self.candidates@),
                self.context@,
                self.input@,
                word@.take(char_index_at(word@, pos as int)),
                pos as int,
            ),
        ensures
            r@.map_values(|c: Completion| completion_view(c)) == completions(
                candidates_view(self.candidates@),
                self.context@,
                self.input@,
                word@.take(char_index_at(word@, pos as int)),
                pos as int,
            ),
    {
        let wv = chars_of(word);
        let kw = char_index(wv.as_slice(), pos);
        let w = slice_range(wv.as_slice(), 0, kw);
        let wl = lower_chars(w.as_slice());
        let ctxv = chars_of(self.context.as_str());
        let inp = chars_of(self.input.as_str());
        let inpl = lower_chars(inp.as_slice());
        let ghost cv = candidates_view(self.candidates@);
        let mut r: Vec<Completion> = Vec::new();
        let mut i: usize = 0;
        assert(cv.take(0) =~= Seq::<(Seq<char>, Seq<char>)>::empty());
        while i < self.candidates.len()
            invariant
                i <= self.candidates@.len(),
                cv == candidates_view(self.candidates@),
                w@ == word@.take(char_index_at(word@, pos as int)),
                wl@ == lowercase(w@),
                ctxv@ == self.context@,
                inp@ == self.input@,
                inpl@ == lowercase(self.input@),
                cuts_ok(cv, self.context@, self.input@, w@, pos as int),
                r@.map_values(|c: Completion| completion_view(c)) == completions(
                    cv.take(i as int),
                    self.context@,
                    self.input@,
                    w@,
                    pos as int,
                ),
            decreases self.candidates.len() - i,
        {
            let pair = &self.candidates[i];
            let cand = chars_of(pair.1.as_str());
            let candl = lower_chars(cand.as_slice());
            let ctx_ok = chars_eq(chars_of(pair.0.as_str()).as_slice(), ctxv.as_slice());
            let prefix_ok = has_prefix(cand.as_slice(), w.as_slice()) || has_prefix(
                candl.as_slice(),
                wl.as_slice(),
            );
            let input_ok = !contains_chars(inp.as_slice(), cand.as_slice()) || !contains_chars(
                inpl.as_slice(),
                candl.as_slice(),
            );
            let ghost before = r@.map_values(|c: Completion| completion_view(c));
            proof {
                assert(cv.take(i + 1).drop_last() =~= cv.take(i as int));
                assert(cv.take(i + 1).last() == cv[i as int]);
                assert(cv[i as int] == (pair.0@, pair.1@));
            }
            if ctx_ok && prefix_ok && input_ok {
                proof {
                    assert(offered(cv[i as int].0, cv[i as int].1, self.context@, self.input@, w@));
                }
                let k = char_index(cand.as_slice(), pos);
                let head = slice_range(cand.as_slice(), 0, k);
                let tail = slice_range(cand.as_slice(), k, cand.len());
                let c: Completion = (
                    pair.1.clone(),
                    pair.1.clone(),
                    string_of(w.as_slice()),
                    string_of(head.as_slice()),
                    string_of(tail.as_slice()),
                );
                r.push(c);
                proof {
                    assert(head@ =~= cand@.take(k as int));
                    assert(tail@ =~= cand@.skip(k as int));
                    assert(r@.map_values(|c: Completion| completion_view(c)) =~= before.push(
                        completion_view(c),
                    ));
                }
            }
            i += 1;
        }
        assert(cv.take(cv.len() as int) =~= cv);
        r
    }
}

/// The completion popup: the word being completed (`current`, whose byte
/// length is `pos`), the selected completion, and the candidates.
pub struct CompletionList {
    pub state: ListState,
    pub current: String,
    pub pos: usize,
    pub helper: TaskwarriorTuiCompletionHelper,
}

/// The item pairs with no pair twice.
pub open spec fn distinct_items(c: Seq<(Seq<char>, Seq<char>)>) -> bool {
    c.no_duplicates()
}

fn pair_eq(a: &(String, String), b: &(String, String)) -> (r: bool)
    ensures
        r == ((a.0@, a.1@) == (b.0@, b.1@)),
{
    a.0.eq(&b.0) && a.1.eq(&b.1)
}

fn contains_pair(v: &Vec<(String, String)>, x: &(String, String)) -> (r: bool)
    ensures
        r == candidates_view(v@).contains((x.0@, x.1@)),
{
    let mut i: usize = 0;
    while i < v.len()
        invariant
            i <= v@.len(),
            forall|k: int| 0 <= k < i ==> #[trigger] candidates_view(v@)[k] != (x.0@, x.1@),
        decreases v.len() - i,
    {
        if pair_eq(&v[i], x) {
            assert(candidates_view(v@)[i as int] == (x.0@, x.1@));
            return true;
        }
        i += 1;
    }
    false
}

impl CompletionList {
    /// The completions of the current word.
    pub open spec fn completions_view(&self) -> Seq<CompletionView> {
        completions(
            candidates_view(self.helper.candidates@),
            self.helper.context@,
            self.helper.input@,
            self.current@.take(char_index_at(self.current@, self.pos as int)),
            self.pos as int,
        )
    }

    /// The current word can be cut at `pos`, and so can every candidate that
    /// completes it.
    pub open spec fn well_cut(&self) -> bool {
        &&& is_char_boundary(self.current@, self.pos as int)
        &&& cuts_ok(
            candidates_view(self.helper.candidates@),
            self.helper.context@,
            self.helper.input@,
            self.current@.take(char_index_at(self.current@, self.pos as int)),
            self.pos as int,
        )
    }

    /// No candidates, nothing selected.
    pub fn new() -> (r: Self)
        ensures
            r.state.selected == None::<usize>,
            r.state.offset == 0,
            r.current@.len() == 0,
            r.pos == 0,
            r.helper.candidates@.len() == 0,
            r.helper.context@.len() == 0,
            r.helper.input@.len() == 0,
    {
        CompletionList {
            state: ListState::new(),
            current: String::new(),
            pos: 0,
            helper: TaskwarriorTuiCompletionHelper {
                candidates: Vec::new(),
                context: String::new(),
                input: String::new(),
            },
        }
    }

    /// The candidates `items`, each kept at its first occurrence.
    pub fn with_items(items: Vec<(String, String)>) -> (r: Self)
        ensures
            r.state.selected == None::<usize>,
            r.current@.len() == 0,
            r.pos == 0,
            r.helper.context@.len() == 0,
            r.helper.input@.len() == 0,
            distinct_items(candidates_view(r.helper.candidates@)),
            candidates_view(r.helper.candidates@).to_set() == candidates_view(items@).to_set(),
    {
        let mut r = CompletionList::new();
        let mut i: usize = 0;
        assert(candidates_view(r.helper.candidates@).to_set() =~= candidates_view(items@).take(0).to_set());
        while i < items.len()
            invariant
                i <= items@.len(),
                r.state.selected == None::<usize>,
                r.current@.len() == 0,
                r.pos == 0,
                r.helper.context@.len() == 0,
                r.helper.input@.len() == 0,
                distinct_items(candidates_view(r.helper.candidates@)),
                candidates_view(r.helper.candidates@).to_set() == candidates_view(items@).take(i as int).to_set(),
            decreases items.len() - i,
        {
            let item = (items[i].0.clone(), items[i].1.clone());
            let ghost before = candidates_view(r.helper.candidates@);
            r.insert(item);
            proof {
                let t0 = candidates_view(items@).take(i as int);
                let t1 = candidates_view(items@).take(i + 1);
                assert(t1 =~= t0.push(candidates_view(items@)[i as int]));
                assert forall|y: (Seq<char>, Seq<char>)| t1.to_set().contains(y) == (t0.to_set().contains(y) || y == (item.0@, item.1@)) by {
                    if t1.contains(y) {
                        let m = choose|m: int| 0 <= m < t1.len() && t1[m] == y;
                        if m < i {
                            assert(t0[m] == y);
                        }
                    }
                    if t0.contains(y) {
                        let m = choose|m: int| 0 <= m < t0.len() && t0[m] == y;
                        assert(t1[m] == y);
                    }
                    if y == (item.0@, item.1@) {
                        assert(t1[i as int] == y);
                    }
                }
                let after = candidates_view(r.helper.candidates@);
                assert forall|y: (Seq<char>, Seq<char>)| after.to_set().contains(y) == (before.to_set().contains(y) || y == (item.0@, item.1@)) by {
                    if !before.contains((item.0@, item.1@)) {
                        assert(after =~= before.push((item.0@, item.1@)));
                        if after.contains(y) {
                            let m = choose|m: int| 0 <= m < after.len() && after[m] == y;
                            if m < before.len() {
                                assert(before[m] == y);
                            }
                        }
                        if before.contains(y) {
                            let m = choose|m: int| 0 <= m < before.len() && before[m] == y;
                            assert(after[m] == y);
                        }
                        if y == (item.0@, item.1@) {
                            assert(after[before.len() as int] == y);
                        }
                    }
                }
                assert(after.to_set() =~= t1.to_set());
            }
            i += 1;
        }
        assert(candidates_view(items@).take(items@.len() as int) =~= candidates_view(items@));
        r
    }

    /// Add `item` unless it is already a candidate.
    pub fn insert(&mut self, item: (String, String))
        requires
            distinct_items(candidates_view(old(self).helper.candidates@)),
        ensures
            distinct_items(candidates_view(final(self).helper.candidates@)),
            candidates_view(final(self).helper.candidates@) == if candidates_view(
                old(self).helper.candidates@,
            ).contains((item.0@, item.1@)) {
                candidates_view(old(self).helper.candidates@)
            } else {
                candidates_view(old(self).helper.candidates@).push((item.0@, item.1@))
            },
            final(self).helper.context == old(self).helper.context,
            final(self).helper.input == old(self).helper.input,
            final(self).current == old(self).current,
            final(self).pos == old(self).pos,
            final(self).state == old(self).state,
    {
        if !contains_pair(&self.helper.candidates, &item) {
            let ghost before = candidates_view(self.helper.candidates@);
            let ghost iv = (item.0@, item.1@);
            self.helper.candidates.push(item);
            proof {
                assert(candidates_view(self.helper.candidates@) =~= before.push(iv));
            }
        }
    }

    /// The number of completions.
    pub fn len(&self) -> (r: usize)
        requires
            self.well_cut(),
        ensures
            r == self.completions_view().len(),
    {
        self.candidates().len()
    }

    /// Whether there is no completion.
    pub fn is_empty(&self) -> (r: bool)
        requires
            self.well_cut(),
        ensures
            r == (self.completions_view().len() == 0),
    {
        self.candidates().len() == 0
    }

    /// The completions of the current word.
    pub fn candidates(&self) -> (r: Vec<Completion>)
        requires
            self.well_cut(),
        ensures
            r@.map_values(|c: Completion| completion_view(c)) == self.completions_view(),
    {
        self.helper.complete(self.current.as_str(), self.pos)
    }

    /// Select the next completion, from the last back to the first.
    pub fn next(&mut self)
        requires
            old(self).well_cut(),
            old(self).state.selected is Some ==> old(self).completions_view().len() > 0,
        ensures
            final(self).state.selected == Some(
                match old(self).state.selected {
                    Some(i) => if i >= old(self).completions_view().len() - 1 {
                        0usize
                    } else {
                        (i + 1) as usize
                    },
                    None => 0usize,
                },
            ),
            final(self).helper == old(self).helper,
            final(self).current == old(self).current,
            final(self).pos == old(self).pos,
    {
        let i = match self.state.selected() {
            Some(i) => {
                let n = self.candidates().len();
                if i >= n - 1 {
                    0
                } else {
                    i + 1
                }
            },
            None => 0,
        };
        self.state.select(Some(i));
    }

    /// Select the previous completion, from the first back to the last.
    pub fn previous(&mut self)
        requires
            old(self).well_cut(),
            old(self).state.selected matches Some(i) && i == 0 ==> old(self).completions_view().len() > 0,
        ensures
            final(self).state.selected == Some(
                match old(self).state.selected {
                    Some(i) => if i == 0 {
                        (old(self).completions_view().len() - 1) as usize
                    } else {
                        (i - 1) as usize
                    },
                    None => 0usize,
                },
            ),
            final(self).helper == old(self).helper,
            final(self).current == old(self).current,
            final(self).pos == old(self).pos,
    {
        let i = match self.state.selected() {
            Some(i) => {
                if i == 0 {
                    self.candidates().len() - 1
                } else {
                    i - 1
                }
            },
            None => 0,
        };
        self.state.select(Some(i));
    }

    /// Select nothing.
    pub fn unselect(&mut self)
        ensures
            final(self).state.selected == None::<usize>,
            final(self).helper == old(self).helper,
            final(self).current == old(self).current,
            final(self).pos == old(self).pos,
    {
        self.state.select(None);
    }

    /// Drop every candidate and select nothing.
    pub fn clear(&mut self)
        ensures
            final(self).state.selected == None::<usize>,
            final(self).helper.candidates@.len() == 0,
            final(self).helper.context == old(self).helper.context,
            final(self).helper.input == old(self).helper.input,
            final(self).current == old(self).current,
            final(self).pos == old(self).pos,
    {
        self.helper.candidates = Vec::new();
        self.state.select(None);
    }

    /// The completion at `i`, if there is one.
    pub fn get(&self, i: usize) -> (r: Option<Completion>)
        requires
            self.well_cut(),
        ensures
            match r {
                Some(c) => i < self.completions_view().len() && completion_view(c) == self.completions_view()[i as int],
                None => i >= self.completions_view().len(),
            },
    {
        let candidates = self.candidates();
        if i < candidates.len() {
            let c = &candidates[i];
            assert(completion_view(candidates@[i as int]) == self.completions_view()[i as int]);
            Some((c.0.clone(), c.1.clone(), c.2.clone(), c.3.clone(), c.4.clone()))
        } else {
            None
        }
    }

    /// The selected completion, with the byte position of the word's end.
    pub fn selected(&self) -> (r: Option<(usize, Completion)>)
        requires
            self.well_cut(),
        ensures
            match self.state.selected {
                Some(i) => if i < self.completions_view().len() {
                    r matches Some((p, c)) && p == self.pos && completion_view(c) == self.completions_view()[i as int]
                } else {
                    r is None
                },
                None => r is None,
            },
    {
        match self.state.selected() {
            Some(i) => match self.get(i) {
                Some(c) => Some((self.pos, c)),
                None => None,
            },
            None => None,
        }
    }
}


/// The context of the completed word.
pub const MODIFIER: &'static str = "modifier";

/// The context of a tag.
pub const TAG: &'static str = "+";

/// The context of an attribute name.
pub const ATTRIBUTE: &'static str = "attribute";

/// The word to complete and its context, read from the word under the
/// cursor: `attr.mod:value` completes `value` among `attr`; `attr.mod`
/// completes `.mod` among the modifiers; `attr:value` completes `value`
/// among `attr`; `x+tag` completes `+tag` among the tags; anything else is
/// an attribute name.
pub open spec fn word_and_context(current: Seq<char>) -> (Seq<char>, Seq<char>) {
    let has_dot = find_char(current, '.') is Some;
    let has_colon = find_char(current, ':') is Some;
    if has_dot && has_colon {
        (after_first(current, ':'), before_first(current, '.'))
    } else if has_dot {
        (seq!['.'] + after_first(current, '.'), MODIFIER@)
    } else if has_colon {
        (after_first(current, ':'), before_first(current, ':'))
    } else if find_char(current, '+') is Some {
        (seq!['+'] + after_first(current, '+'), TAG@)
    } else {
        (current, ATTRIBUTE@)
    }
}

/// What precedes the first `c` in `s`.
pub open spec fn before_first(s: Seq<char>, c: char) -> Seq<char> {
    match split_once_char(s, c) {
        Some((a, _)) => a,
        None => s,
    }
}

/// What follows the first `c` in `s`.
pub open spec fn after_first(s: Seq<char>, c: char) -> Seq<char> {
    match split_once_char(s, c) {
        Some((_, b)) => b,
        None => Seq::empty(),
    }
}

/// The display width of `s` plus four, capped at `usize::MAX`.
pub open spec fn padded_width(s: Seq<char>) -> nat {
    if text_width(s) + 4 <= usize::MAX {
        text_width(s) + 4
    } else {
        usize::MAX as nat
    }
}

/// The byte length of `s`, capped at `usize::MAX`.
pub open spec fn capped_byte_len(s: Seq<char>) -> nat {
    if byte_len(s) <= usize::MAX {
        byte_len(s)
    } else {
        usize::MAX as nat
    }
}

impl CompletionList {
    /// Take the word under the cursor and the whole input, and pick the word
    /// to complete and its context.
    pub fn input(&mut self, current: String, i: String)
        ensures
            final(self).helper.input == i,
            final(self).current@ == word_and_context(current@).0,
            final(self).helper.context@ == word_and_context(current@).1,
            final(self).pos == capped_byte_len(final(self).current@),
            final(self).helper.candidates == old(self).helper.candidates,
            final(self).state == old(self).state,
    {
        self.helper.input = i;
        let c = chars_of(current.as_str());
        let dot = find_char_in(c.as_slice(), '.');
        let colon = find_char_in(c.as_slice(), ':');
        if dot.is_some() && colon.is_some() {
            let (_, after_colon) = split_once_chars(c.as_slice(), ':').unwrap();
            let (before_dot, _) = split_once_chars(c.as_slice(), '.').unwrap();
            self.current = string_of(after_colon.as_slice());
            self.helper.context = string_of(before_dot.as_slice());
        } else if dot.is_some() {
            let (_, after) = split_once_chars(c.as_slice(), '.').unwrap();
            let mut w = vec!['.'];
            push_all(&mut w, after.as_slice());
            assert(w@ =~= seq!['.'] + after@);
            self.current = string_of(w.as_slice());
            self.helper.context = String::from_str(MODIFIER);
        } else if colon.is_some() {
            let (before, after) = split_once_chars(c.as_slice(), ':').unwrap();
            self.current = string_of(after.as_slice());
            self.helper.context = string_of(before.as_slice());
        } else if find_char_in(c.as_slice(), '+').is_some() {
            let (_, after) = split_once_chars(c.as_slice(), '+').unwrap();
            let mut w = vec!['+'];
            push_all(&mut w, after.as_slice());
            assert(w@ =~= seq!['+'] + after@);
            self.current = string_of(w.as_slice());
            self.helper.context = String::from_str(TAG);
        } else {
            self.current = current;
            self.helper.context = String::from_str(ATTRIBUTE);
        }
        let cur = chars_of(self.current.as_str());
        self.pos = byte_len_chars(cur.as_slice());
    }

    /// The widest completion's display width, plus four (at most
    /// `usize::MAX`), if there is a completion.
    pub fn max_width(&self) -> (r: Option<usize>)
        requires
            self.well_cut(),
        ensures
            match r {
                Some(w) => self.completions_view().len() > 0 && (exists|k: int|
                    0 <= k < self.completions_view().len() && w == padded_width(
                        #[trigger] self.completions_view()[k].1,
                    )) && (forall|k: int|
                    0 <= k < self.completions_view().len() ==> padded_width(
                        #[trigger] self.completions_view()[k].1,
                    ) <= w),
                None => self.completions_view().len() == 0,
            },
    {
        let candidates = self.candidates();
        let ghost cv = self.completions_view();
        let mut best: Option<usize> = None;
        let mut i: usize = 0;
        while i < candidates.len()
            invariant
                i <= candidates@.len(),
                candidates@.map_values(|c: Completion| completion_view(c)) == cv,
                match best {
                    Some(w) => i > 0 && (exists|k: int| 0 <= k < i && w == padded_width(#[trigger] cv[k].1))
                        && (forall|k: int| 0 <= k < i ==> padded_width(#[trigger] cv[k].1) <= w),
                    None => i == 0,
                },
            decreases candidates.len() - i,
        {
            assert(completion_view(candidates@[i as int]) == cv[i as int]);
            assert(candidates@[i as int].1@ == cv[i as int].1);
            let w = width_of(candidates[i].1.as_str()).saturating_add(4);
            assert(w == padded_width(cv[i as int].1));
            best = match best {
                Some(b) => if w > b { Some(w) } else { Some(b) },
                None => Some(w),
            };
            i += 1;
        }
        best
    }
}


proof fn lemma_first_char(s: Seq<char>, c: char)
    requires
        s.contains(c),
    ensures
        exists|i: int| 0 <= i < s.len() && s[i] == c && forall|k: int| 0 <= k < i ==> s[k] != c,
    decreases s.len(),
{
    let p = s.drop_last();
    if p.contains(c) {
        lemma_first_char(p, c);
        let i = choose|i: int| 0 <= i < p.len() && p[i] == c && forall|k: int| 0 <= k < i ==> p[k] != c;
        assert(s[i] == p[i]);
        assert forall|k: int| 0 <= k < i implies s[k] != c by {
            assert(s[k] == p[k]);
        }
    } else {
        let n = s.len() - 1;
        assert forall|k: int| 0 <= k < n implies s[k] != c by {
            assert(s[k] == p[k]);
            if s[k] == c {
                assert(p.contains(c));
            }
        }
        let j = choose|j: int| 0 <= j < s.len() && s[j] == c;
        assert(j == n);
    }
}

/// Splitting at the first `c` of a text that holds one: the text is the part
/// before, `c`, and the part after, and the part before holds no `c`.
proof fn lemma_split_at_first(s: Seq<char>, c: char)
    requires
        s.contains(c),
    ensures
        split_once_char(s, c) matches Some((a, b)) && s == a + seq![c] + b && !a.contains(c),
{
    lemma_first_char(s, c);
    let i = choose|i: int| 0 <= i < s.len() && s[i] == c && forall|k: int| 0 <= k < i ==> s[k] != c;
    lemma_find_char_at(s, c, i);
    let a = s.subrange(0, i);
    let b = s.subrange(i + 1, s.len() as int);
    assert(s =~= a + seq![c] + b);
    if a.contains(c) {
        let k = choose|k: int| 0 <= k < a.len() && a[k] == c;
        assert(s[k] == c);
    }
}

/// The word to complete and its context: in `attr.mod:value` the context is
/// the text before the first `.` (so it holds no `.`) and the word is the
/// text after the first `:`; in `attr:value` (no `.`) the text is the
/// context, a `:` and the word, and the context holds no `:`; in
/// `attr.mod` (no `:`) the word is the text from the first `.` on, among the
/// modifiers; in `x+tag` (no `.` or `:`) the word is the text from the first
/// `+` on, among the tags; any other word is an attribute name, whole.
pub proof fn law_word_and_context(current: Seq<char>)
    ensures
        ({
            let (w, ctx) = word_and_context(current);
            &&& (current.contains('.') && current.contains(':')) ==> {
                &&& !ctx.contains('.')
                &&& starts_with(current, ctx + seq!['.'])
                &&& ends_with(current, seq![':'] + w)
                &&& !current.subrange(0, current.len() - w.len() - 1).contains(':')
            }
            &&& (!current.contains('.') && current.contains(':')) ==> {
                &&& current == ctx + seq![':'] + w
                &&& !ctx.contains(':')
            }
            &&& (current.contains('.') && !current.contains(':')) ==> {
                &&& ctx == MODIFIER@
                &&& w.len() >= 1 && w[0] == '.'
                &&& ends_with(current, w)
                &&& !current.subrange(0, current.len() - w.len()).contains('.')
            }
            &&& (!current.contains('.') && !current.contains(':') && current.contains('+')) ==> {
                &&& ctx == TAG@
                &&& w.len() >= 1 && w[0] == '+'
                &&& ends_with(current, w)
                &&& !current.subrange(0, current.len() - w.len()).contains('+')
            }
            &&& (!current.contains('.') && !current.contains(':') && !current.contains('+')) ==> {
                &&& ctx == ATTRIBUTE@
                &&& w == current
            }
        }),
{
    if current.contains('.') {
        lemma_split_at_first(current, '.');
    } else {
        assert forall|k: int| 0 <= k < current.len() implies current[k] != '.' by {
            if current[k] == '.' {
                assert(current.contains('.'));
            }
        }
        lemma_find_char_none(current, '.');
    }
    if current.contains('.') && !current.contains(':') {
        let (x, y) = split_once_char(current, '.')->0;
        assert(current.subrange(0, x.len() as int) =~= x);
        assert(current.subrange(x.len() as int, current.len() as int) =~= seq!['.'] + y);
    }
    if !current.contains(':') {
        assert forall|k: int| 0 <= k < current.len() implies current[k] != ':' by {
            if current[k] == ':' {
                assert(current.contains(':'));
            }
        }
        lemma_find_char_none(current, ':');
    }
    if current.contains('+') {
        lemma_split_at_first(current, '+');
        let (x, y) = split_once_char(current, '+')->0;
        assert(current.subrange(0, x.len() as int) =~= x);
        assert(current.subrange(x.len() as int, current.len() as int) =~= seq!['+'] + y);
    } else {
        assert forall|k: int| 0 <= k < current.len() implies current[k] != '+' by {
            if current[k] == '+' {
                assert(current.contains('+'));
            }
        }
        lemma_find_char_none(current, '+');
    }
    if current.contains(':') {
        lemma_split_at_first(current, ':');
        let (a, b) = split_once_char(current, ':')->0;
        assert(current.subrange(0, current.len() - b.len() - 1) =~= a);
        assert(current.subrange(current.len() - (b.len() + 1), current.len() as int) =~= seq![':'] + b);
        if current.contains('.') {
            let (x, y) = split_once_char(current, '.')->0;
            assert(current.subrange(0, x.len() as int + 1) =~= x + seq!['.']);
        }
    }
}

} // verus!

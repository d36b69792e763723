//! Character-sequence helpers shared by the parsers of this crate.
//!
//! Strings are handled as sequences of `char`; every helper here states its
//! result over the `Seq<char>` view of its arguments.
use vstd::prelude::*;

verus! {

/// Unicode `White_Space`, the set that `char::is_whitespace` and `str::trim` use.
pub open spec fn is_ws(c: char) -> bool {
    ||| '\t' <= c <= '\r'
    ||| c == ' '
    ||| c == '\u{85}'
    ||| c == '\u{a0}'
    ||| c == '\u{1680}'
    ||| '\u{2000}' <= c <= '\u{200a}'
    ||| c == '\u{2028}'
    ||| c == '\u{2029}'
    ||| c == '\u{202f}'
    ||| c == '\u{205f}'
    ||| c == '\u{3000}'
}

/// `s` with its leading white space removed.
pub open spec fn trim_start(s: Seq<char>) -> Seq<char>
    decreases s.len(),
{
    if s.len() > 0 && is_ws(s[0]) {
        trim_start(s.drop_first())
    } else {
        s
    }
}

/// `s` with its trailing white space removed.
pub open spec fn trim_end(s: Seq<char>) -> Seq<char>
    decreases s.len(),
{
    if s.len() > 0 && is_ws(s.last()) {
        trim_end(s.drop_last())
    } else {
        s
    }
}

/// `s` with white space removed at both ends.
pub open spec fn trim(s: Seq<char>) -> Seq<char> {
    trim_end(trim_start(s))
}

/// `p` is a prefix of `s`.
pub open spec fn starts_with(s: Seq<char>, p: Seq<char>) -> bool {
    p.len() <= s.len() && s.subrange(0, p.len() as int) == p
}

/// `p` is a suffix of `s`.
pub open spec fn ends_with(s: Seq<char>, p: Seq<char>) -> bool {
    p.len() <= s.len() && s.subrange(s.len() - p.len(), s.len() as int) == p
}

/// `p` occurs in `s` at position `i`.
pub open spec fn occurs_at(s: Seq<char>, p: Seq<char>, i: int) -> bool {
    0 <= i && i + p.len() <= s.len() && s.subrange(i, i + p.len()) == p
}

/// `p` occurs somewhere in `s`.
pub open spec fn contains(s: Seq<char>, p: Seq<char>) -> bool {
    exists|i: int| occurs_at(s, p, i)
}

/// `i` is the first position at which `p` occurs in `s`.
pub open spec fn is_first_occurrence(s: Seq<char>, p: Seq<char>, i: int) -> bool {
    occurs_at(s, p, i) && forall|k: int| 0 <= k < i ==> !occurs_at(s, p, k)
}

/// The first position at which `p` occurs in `s` (`str::find`).
pub open spec fn find(s: Seq<char>, p: Seq<char>) -> Option<int> {
    if exists|i: int| is_first_occurrence(s, p, i) {
        Some(choose|i: int| is_first_occurrence(s, p, i))
    } else {
        None
    }
}

/// The first position of the character `c` in `s`.
pub open spec fn find_char(s: Seq<char>, c: char) -> Option<int> {
    find(s, seq![c])
}

/// Every leading occurrence of `p` removed from `s` (`str::trim_start_matches`).
pub open spec fn strip_all_prefix(s: Seq<char>, p: Seq<char>) -> Seq<char>
    decreases s.len(),
{
    if p.len() > 0 && starts_with(s, p) {
        strip_all_prefix(s.subrange(p.len() as int, s.len() as int), p)
    } else {
        s
    }
}

/// `s` split at every occurrence of `c` (`str::split` with a `char`).
pub open spec fn split_char(s: Seq<char>, c: char) -> Seq<Seq<char>>
    decreases s.len(),
{
    match find_char(s, c) {
        Some(i) => if 0 <= i < s.len() {
            seq![s.subrange(0, i)] + split_char(s.subrange(i + 1, s.len() as int), c)
        } else {
            seq![s]
        },
        None => seq![s],
    }
}

/// Every `from` in `s` replaced by `to` (`str::replace` with a `char`).
pub open spec fn replace_char(s: Seq<char>, from: char, to: char) -> Seq<char> {
    s.map_values(|x: char| if x == from { to } else { x })
}

/// The two sides of the first `c` in `s` (`str::split_once` with a `char`).
pub open spec fn split_once_char(s: Seq<char>, c: char) -> Option<(Seq<char>, Seq<char>)> {
    match find_char(s, c) {
        Some(i) => Some((s.subrange(0, i), s.subrange(i + 1, s.len() as int))),
        None => None,
    }
}

/// What `str::to_lowercase` returns for a string with these characters.
pub uninterp spec fn lowercase(s: Seq<char>) -> Seq<char>;

/// What `str::to_uppercase` returns for a string with these characters.
pub uninterp spec fn uppercase(s: Seq<char>) -> Seq<char>;

/// The characters of a string slice, in order.
pub fn chars_of(s: &str) -> (r: Vec<char>)
    ensures
        r@ == s@,
{
    let mut r: Vec<char> = Vec::new();
    for c in it: s.chars()
        invariant
            r@ == it.seq().take(it.index() as int),
            it.seq() == s@,
    {
        r.push(c);
    }
    r
}

/// The string made of these characters, through `String::from_iter`.
#[verifier::external_body]
pub(crate) fn string_of(v: &[char]) -> (r: String)
    ensures
        r@ == v@,
{
    String::from_iter(v)
}

/// `str::to_lowercase`; the contract names its result, and states what
/// the documentation gives for ASCII text: its letters A to Z become a to z
/// and every other character stays.
#[verifier::external_body]
pub(crate) fn str_to_lowercase(s: &str) -> (r: String)
    ensures
        r@ == lowercase(s@),
        is_ascii_text(s@) ==> r@ == ascii_lower(s@),
{
    s.to_lowercase()
}

/// `str::to_uppercase`; the contract names its result, and states what
/// the documentation gives for ASCII text: its letters a to z become A to Z
/// and every other character stays.
#[verifier::external_body]
pub(crate) fn str_to_uppercase(s: &str) -> (r: String)
    ensures
        r@ == uppercase(s@),
        is_ascii_text(s@) ==> r@ == ascii_upper(s@),
{
    s.to_uppercase()
}

/// Lowercase a character sequence with `str::to_lowercase`.
pub fn lower_chars(v: &[char]) -> (r: Vec<char>)
    ensures
        r@ == lowercase(v@),
{
    let s = string_of(v);
    let l = str_to_lowercase(s.as_str());
    chars_of(l.as_str())
}

/// Uppercase a character sequence with `str::to_uppercase`.
pub fn upper_chars(v: &[char]) -> (r: Vec<char>)
    ensures
        r@ == uppercase(v@),
{
    let s = string_of(v);
    let l = str_to_uppercase(s.as_str());
    chars_of(l.as_str())
}

/// A character is white space in the sense of `char::is_whitespace`.
pub fn is_whitespace(c: char) -> (r: bool)
    ensures
        r == is_ws(c),
{
    ('\t' <= c && c <= '\r') || c == ' ' || c == '\u{85}' || c == '\u{a0}' || c == '\u{1680}'
        || ('\u{2000}' <= c && c <= '\u{200a}') || c == '\u{2028}' || c == '\u{2029}'
        || c == '\u{202f}' || c == '\u{205f}' || c == '\u{3000}'
}

/// The elements of `v` from `lo` up to `hi`.
pub fn slice_range(v: &[char], lo: usize, hi: usize) -> (r: Vec<char>)
    requires
        lo <= hi <= v@.len(),
    ensures
        r@ == v@.subrange(lo as int, hi as int),
{
    let mut r: Vec<char> = Vec::new();
    let mut i = lo;
    while i < hi
        invariant
            lo <= i <= hi <= v@.len(),
            r@ == v@.subrange(lo as int, i as int),
        decreases hi - i,
    {
        r.push(v[i]);
        i += 1;
    }
    r
}

proof fn lemma_trim_start_skip(s: Seq<char>, i: int)
    requires
        0 <= i <= s.len(),
        forall|k: int| 0 <= k < i ==> is_ws(#[trigger] s[k]),
        i == s.len() || !is_ws(s[i]),
    ensures
        trim_start(s) == s.subrange(i, s.len() as int),
    decreases i,
{
    if i == 0 {
        assert(s.subrange(0, s.len() as int) =~= s);
    } else {
        assert(is_ws(s[0]));
        let t = s.drop_first();
        assert forall|k: int| 0 <= k < i - 1 implies is_ws(#[trigger] t[k]) by {
            assert(t[k] == s[k + 1]);
        }
        lemma_trim_start_skip(t, i - 1);
        assert(t.subrange(i - 1, t.len() as int) =~= s.subrange(i, s.len() as int));
    }
}

proof fn lemma_trim_end_take(s: Seq<char>, j: int)
    requires
        0 <= j <= s.len(),
        forall|k: int| j <= k < s.len() ==> is_ws(#[trigger] s[k]),
        j == 0 || !is_ws(s[j - 1]),
    ensures
        trim_end(s) == s.subrange(0, j),
    decreases s.len() - j,
{
    if j == s.len() {
        assert(s.subrange(0, j) =~= s);
    } else {
        assert(is_ws(s.last()));
        let t = s.drop_last();
        assert forall|k: int| j <= k < t.len() implies is_ws(#[trigger] t[k]) by {
            assert(t[k] == s[k]);
        }
        lemma_trim_end_take(t, j);
        assert(t.subrange(0, j) =~= s.subrange(0, j));
    }
}

/// `s` without leading white space (`str::trim_start`).
pub fn trim_start_chars(s: &[char]) -> (r: Vec<char>)
    ensures
        r@ == trim_start(s@),
{
    let mut i: usize = 0;
    while i < s.len() && is_whitespace(s[i])
        invariant
            i <= s@.len(),
            forall|k: int| 0 <= k < i ==> is_ws(#[trigger] s@[k]),
        decreases s.len() - i,
    {
        i += 1;
    }
    proof {
        lemma_trim_start_skip(s@, i as int);
    }
    slice_range(s, i, s.len())
}

/// `s` without trailing white space (`str::trim_end`).
pub fn trim_end_chars(s: &[char]) -> (r: Vec<char>)
    ensures
        r@ == trim_end(s@),
{
    let mut j: usize = s.len();
    while j > 0 && is_whitespace(s[j - 1])
        invariant
            j <= s@.len(),
            forall|k: int| j <= k < s@.len() ==> is_ws(#[trigger] s@[k]),
        decreases j,
    {
        j -= 1;
    }
    proof {
        lemma_trim_end_take(s@, j as int);
    }
    slice_range(s, 0, j)
}

/// `s` without white space at either end (`str::trim`).
pub fn trim_chars(s: &[char]) -> (r: Vec<char>)
    ensures
        r@ == trim(s@),
{
    let a = trim_start_chars(s);
    trim_end_chars(a.as_slice())
}

/// Whether `s` holds `p` at position `i`.
pub fn matches_at(s: &[char], p: &[char], i: usize) -> (r: bool)
    ensures
        r == occurs_at(s@, p@, i as int),
{
    if i > s.len() || p.len() > s.len() - i {
        return false;
    }
    let mut k: usize = 0;
    let n = s.len();
    while k < p.len()
        invariant
            n == s@.len(),
            i + p@.len() <= s@.len(),
            k <= p@.len(),
            forall|m: int| 0 <= m < k ==> s@[i + m] == p@[m],
        decreases p.len() - k,
    {
        if s[i + k] != p[k] {
            assert(s@.subrange(i as int, i + p@.len())[k as int] != p@[k as int]);
            return false;
        }
        k += 1;
    }
    assert(s@.subrange(i as int, i + p@.len()) =~= p@);
    true
}

/// Whether `p` is a prefix of `s` (`str::starts_with`).
pub fn has_prefix(s: &[char], p: &[char]) -> (r: bool)
    ensures
        r == starts_with(s@, p@),
{
    matches_at(s, p, 0)
}

/// Whether `p` is a suffix of `s` (`str::ends_with`).
pub fn has_suffix(s: &[char], p: &[char]) -> (r: bool)
    ensures
        r == ends_with(s@, p@),
{
    if p.len() > s.len() {
        false
    } else {
        matches_at(s, p, s.len() - p.len())
    }
}

/// The first position of `p` in `s`, searching from position `from` on.
pub fn find_from(s: &[char], p: &[char], from: usize) -> (r: Option<usize>)
    requires
        from <= s@.len(),
    ensures
        match r {
            Some(i) => from <= i && occurs_at(s@, p@, i as int) && forall|k: int|
                from <= k < i ==> !occurs_at(s@, p@, k),
            None => forall|k: int| from <= k ==> !occurs_at(s@, p@, k),
        },
{
    let mut i = from;
    loop
        invariant
            from <= i <= s@.len(),
            forall|k: int| from <= k < i ==> !occurs_at(s@, p@, k),
        decreases s.len() - i,
    {
        if matches_at(s, p, i) {
            return Some(i);
        }
        if i == s.len() {
            assert forall|k: int| from <= k implies !occurs_at(s@, p@, k) by {
                if k > i {
                }
            }
            return None;
        }
        i += 1;
    }
}

/// The first position of `p` in `s` (`str::find`).
pub fn find_chars(s: &[char], p: &[char]) -> (r: Option<usize>)
    ensures
        r matches Some(i) ==> find(s@, p@) == Some(i as int),
        r is None ==> find(s@, p@) is None,
        r matches Some(i) ==> i + p@.len() <= s@.len(),
{
    let r = find_from(s, p, 0);
    match r {
        Some(i) => {
            assert(is_first_occurrence(s@, p@, i as int));
            let ghost j = choose|j: int| is_first_occurrence(s@, p@, j);
            assert(j == i as int) by {
                if j < i {
                    assert(!occurs_at(s@, p@, j));
                } else if j > i {
                    assert(!occurs_at(s@, p@, i as int));
                }
            }
        },
        None => {
            assert(!exists|i: int| is_first_occurrence(s@, p@, i));
        },
    }
    r
}

/// The first position of `c` in `s` (`str::find` with a `char`).
pub fn find_char_in(s: &[char], c: char) -> (r: Option<usize>)
    ensures
        r matches Some(i) ==> find_char(s@, c) == Some(i as int) && i < s@.len() && s@[i as int] == c,
        r is None ==> find_char(s@, c) is None,
{
    let p = vec![c];
    let r = find_chars(s, p.as_slice());
    assert(p@ == seq![c]);
    if let Some(i) = r {
        assert(occurs_at(s@, p@, i as int));
        assert(s@.subrange(i as int, i + 1)[0] == c);
    }
    r
}

/// Whether `p` occurs in `s` (`str::contains`).
pub fn contains_chars(s: &[char], p: &[char]) -> (r: bool)
    ensures
        r == contains(s@, p@),
{
    let r = find_from(s, p, 0);
    match r {
        Some(i) => true,
        None => {
            assert forall|k: int| !occurs_at(s@, p@, k) by {
                if 0 <= k {
                } else {
                }
            }
            false
        },
    }
}

/// `s` with every leading `p` removed (`str::trim_start_matches`).
pub fn strip_all_prefix_chars(s: &[char], p: &[char]) -> (r: Vec<char>)
    ensures
        r@ == strip_all_prefix(s@, p@),
{
    if p.len() == 0 {
        return slice_range(s, 0, s.len());
    }
    let mut i: usize = 0;
    assert(s@.subrange(0, s@.len() as int) =~= s@);
    while matches_at(s, p, i)
        invariant
            p@.len() > 0,
            i <= s@.len(),
            strip_all_prefix(s@, p@) == strip_all_prefix(s@.subrange(i as int, s@.len() as int), p@),
        decreases s.len() - i,
    {
        let ghost rest = s@.subrange(i as int, s@.len() as int);
        assert(rest.subrange(0, p@.len() as int) =~= s@.subrange(i as int, i + p@.len()));
        assert(rest.subrange(p@.len() as int, rest.len() as int) =~= s@.subrange(
            i + p@.len(),
            s@.len() as int,
        ));
        i = i + p.len();
    }
    let ghost rest = s@.subrange(i as int, s@.len() as int);
    assert(!starts_with(rest, p@)) by {
        if starts_with(rest, p@) {
            assert(rest.subrange(0, p@.len() as int) =~= s@.subrange(i as int, i + p@.len()));
        }
    }
    slice_range(s, i, s.len())
}

/// `s` split at every `c` (`str::split` with a `char`).
pub fn split_chars(s: &[char], c: char) -> (r: Vec<Vec<char>>)
    ensures
        r@.len() == split_char(s@, c).len(),
        forall|k: int| 0 <= k < r@.len() ==> #[trigger] r@[k]@ == split_char(s@, c)[k],
{
    let mut r: Vec<Vec<char>> = Vec::new();
    let mut start: usize = 0;
    assert(s@.subrange(0, s@.len() as int) =~= s@);
    loop
        invariant
            start <= s@.len(),
            ({
                let whole = split_char(s@, c);
                let rest = split_char(s@.subrange(start as int, s@.len() as int), c);
                &&& whole.len() == r@.len() + rest.len()
                &&& forall|k: int| 0 <= k < r@.len() ==> #[trigger] r@[k]@ == whole[k]
                &&& forall|k: int| 0 <= k < rest.len() ==> #[trigger] rest[k] == whole[r@.len() + k]
            }),
        decreases s.len() - start,
    {
        let rest = slice_range(s, start, s.len());
        let ghost rest_split = split_char(rest@, c);
        let ghost whole0 = split_char(s@, c);
        assert(forall|k: int| 0 <= k < rest_split.len() ==> #[trigger] rest_split[k] == whole0[r@.len() + k]);
        match find_char_in(rest.as_slice(), c) {
            Some(i) => {
                let piece = slice_range(rest.as_slice(), 0, i);
                let ghost old_r = r@;
                proof {
                    let after = rest@.subrange(i + 1, rest@.len() as int);
                    assert(after =~= s@.subrange(start + i + 1, s@.len() as int));
                    assert(split_char(rest@, c) == seq![rest@.subrange(0, i as int)] + split_char(after, c));
                }
                r.push(piece);
                start = start + i + 1;
                proof {
                    let whole = split_char(s@, c);
                    let rest2 = split_char(s@.subrange(start as int, s@.len() as int), c);
                    assert forall|k: int| 0 <= k < r@.len() implies #[trigger] r@[k]@ == whole[k] by {
                        if k < old_r.len() {
                            assert(r@[k] == old_r[k]);
                        } else {
                            assert(rest_split[0] == whole[old_r.len() as int]);
                        }
                    }
                    assert forall|k: int| 0 <= k < rest2.len() implies #[trigger] rest2[k] == whole[r@.len() + k] by {
                        let rest1 = split_char(rest@, c);
                        assert(rest1[k + 1] == rest2[k]);
                    }
                }
            },
            None => {
                let ghost old_r = r@;
                proof {
                    assert(split_char(rest@, c) == seq![rest@]);
                }
                r.push(rest);
                proof {
                    let whole = split_char(s@, c);
                    assert forall|k: int| 0 <= k < r@.len() implies #[trigger] r@[k]@ == whole[k] by {
                        if k < old_r.len() {
                            assert(r@[k] == old_r[k]);
                        } else {
                            assert(rest_split[0] == whole[old_r.len() as int]);
                        }
                    }
                }
                return r;
            },
        }
    }
}

/// `s` with every `from` replaced by `to`.
pub fn replace_char_chars(s: &[char], from: char, to: char) -> (r: Vec<char>)
    ensures
        r@ == replace_char(s@, from, to),
{
    let mut r: Vec<char> = Vec::new();
    let mut i: usize = 0;
    while i < s.len()
        invariant
            i <= s@.len(),
            r@ == replace_char(s@.subrange(0, i as int), from, to),
        decreases s.len() - i,
    {
        let x = s[i];
        r.push(if x == from { to } else { x });
        proof {
            assert(s@.subrange(0, i + 1) =~= s@.subrange(0, i as int).push(x));
        }
        i += 1;
        proof {
            assert(r@ =~= replace_char(s@.subrange(0, i as int), from, to));
        }
    }
    assert(s@.subrange(0, s@.len() as int) =~= s@);
    r
}

/// The sides of the first `c` in `s` (`str::split_once` with a `char`).
pub fn split_once_chars(s: &[char], c: char) -> (r: Option<(Vec<char>, Vec<char>)>)
    ensures
        match split_once_char(s@, c) {
            Some((a, b)) => r matches Some((x, y)) && x@ == a && y@ == b,
            None => r is None,
        },
{
    let n = s.len();
    match find_char_in(s, c) {
        Some(i) => Some((slice_range(s, 0, i), slice_range(s, i + 1, n))),
        None => None,
    }
}

/// Whether two character sequences are equal.
pub fn chars_eq(a: &[char], b: &[char]) -> (r: bool)
    ensures
        r == (a@ == b@),
{
    if a.len() != b.len() {
        return false;
    }
    let r = matches_at(a, b, 0);
    if r {
        assert(a@.subrange(0, b@.len() as int) =~= a@);
    } else {
        assert(a@.subrange(0, b@.len() as int) =~= a@);
    }
    r
}

/// Whether a character sequence equals a string.
pub fn chars_eq_str(a: &[char], b: &str) -> (r: bool)
    ensures
        r == (a@ == b@),
{
    let bv = chars_of(b);
    chars_eq(a, bv.as_slice())
}

/// The concatenation of two character sequences.
pub fn concat_chars(a: &[char], b: &[char]) -> (r: Vec<char>)
    ensures
        r@ == a@ + b@,
{
    let mut r = slice_range(a, 0, a.len());
    let mut i: usize = 0;
    while i < b.len()
        invariant
            i <= b@.len(),
            r@ == a@ + b@.subrange(0, i as int),
        decreases b.len() - i,
    {
        r.push(b[i]);
        i += 1;
        proof {
            assert(r@ =~= a@ + b@.subrange(0, i as int));
        }
    }
    assert(b@.subrange(0, b@.len() as int) =~= b@);
    r
}

/// Append the characters of `b` to `r`.
pub fn push_all(r: &mut Vec<char>, b: &[char])
    ensures
        final(r)@ == old(r)@ + b@,
{
    let mut i: usize = 0;
    while i < b.len()
        invariant
            i <= b@.len(),
            r@ == old(r)@ + b@.subrange(0, i as int),
        decreases b.len() - i,
    {
        r.push(b[i]);
        i += 1;
        proof {
            assert(r@ =~= old(r)@ + b@.subrange(0, i as int));
        }
    }
    assert(b@.subrange(0, b@.len() as int) =~= b@);
}

/// Append the characters of a string to `r`.
pub fn push_str(r: &mut Vec<char>, b: &str)
    ensures
        final(r)@ == old(r)@ + b@,
{
    let bv = chars_of(b);
    push_all(r, bv.as_slice());
}

/// The digit value of an ASCII decimal digit.
pub open spec fn digit_value(c: char) -> nat {
    (c as nat - '0' as nat) as nat
}

/// `c` is an ASCII decimal digit.
pub open spec fn is_digit(c: char) -> bool {
    '0' <= c <= '9'
}

/// Every character of `s` is an ASCII decimal digit.
pub open spec fn all_digits(s: Seq<char>) -> bool {
    forall|i: int| 0 <= i < s.len() ==> is_digit(#[trigger] s[i])
}

/// The number that the decimal digits `s` spell.
pub open spec fn decimal_value(s: Seq<char>) -> nat
    decreases s.len(),
{
    if s.len() == 0 {
        0
    } else {
        decimal_value(s.drop_last()) * 10 + digit_value(s.last())
    }
}

/// The digits of an unsigned number: `s` without one leading `+`.
pub open spec fn unsigned_digits(s: Seq<char>) -> Seq<char> {
    if s.len() > 0 && s[0] == '+' {
        s.drop_first()
    } else {
        s
    }
}

/// What `str::parse` gives for an unsigned integer type whose largest value is
/// `max`: an optional `+`, then at least one decimal digit, and a value that fits.
pub open spec fn parse_unsigned(s: Seq<char>, max: nat) -> Option<nat> {
    let d = unsigned_digits(s);
    if d.len() == 0 || !all_digits(d) {
        None
    } else if decimal_value(d) <= max {
        Some(decimal_value(d))
    } else {
        None
    }
}

proof fn lemma_decimal_value_grows(s: Seq<char>, i: int)
    requires
        0 <= i <= s.len(),
        all_digits(s),
    ensures
        decimal_value(s.subrange(0, i)) <= decimal_value(s),
    decreases s.len() - i,
{
    if i < s.len() {
        lemma_decimal_value_grows(s, i + 1);
        let t = s.subrange(0, i + 1);
        assert(t.drop_last() =~= s.subrange(0, i));
    } else {
        assert(s.subrange(0, i) =~= s);
    }
}

/// Parse an unsigned decimal number no larger than `max`, as `str::parse` does.
pub fn parse_unsigned_chars(s: &[char], max: u64) -> (r: Option<u64>)
    ensures
        match parse_unsigned(s@, max as nat) {
            Some(v) => r == Some(v as u64),
            None => r is None,
        },
{
    let start: usize = if s.len() > 0 && s[0] == '+' { 1 } else { 0 };
    let ghost d = unsigned_digits(s@);
    assert(d =~= s@.subrange(start as int, s@.len() as int));
    if start == s.len() {
        return None;
    }
    let mut value: u64 = 0;
    let mut i = start;
    while i < s.len()
        invariant
            start <= i <= s@.len(),
            d == unsigned_digits(s@),
            d =~= s@.subrange(start as int, s@.len() as int),
            all_digits(s@.subrange(start as int, i as int)),
            value as nat == decimal_value(s@.subrange(start as int, i as int)),
            value <= max,
        decreases s.len() - i,
    {
        let c = s[i];
        if c < '0' || c > '9' {
            assert(d[i - start] == c);
            assert(!is_digit(d[i - start]));
            assert(!all_digits(d));
            assert(parse_unsigned(s@, max as nat) is None);
            return None;
        }
        let dv = (c as u64) - ('0' as u64);
        let ghost pre = s@.subrange(start as int, i as int);
        let ghost next = s@.subrange(start as int, i + 1);
        assert(next.drop_last() =~= pre);
        assert(all_digits(next));
        if (value as u128) * 10 + (dv as u128) > max as u128 {
            proof {
                assert(decimal_value(next) == decimal_value(pre) * 10 + dv);
                if all_digits(d) {
                    assert(next =~= d.subrange(0, i + 1 - start));
                    lemma_decimal_value_grows(d, i + 1 - start);
                    assert(decimal_value(d) > max);
                }
                assert(parse_unsigned(s@, max as nat) is None);
            }
            return None;
        }
        value = value * 10 + dv;
        i += 1;
    }
    assert(s@.subrange(start as int, s@.len() as int) =~= d);
    Some(value)
}

/// The decimal digits of `n`, without leading zeros.
pub open spec fn decimal_of(n: nat) -> Seq<char>
    decreases n,
{
    if n < 10 {
        seq![digit_char(n)]
    } else {
        decimal_of(n / 10).push(digit_char(n % 10))
    }
}

/// The ASCII digit for `d < 10`.
pub open spec fn digit_char(d: nat) -> char {
    (('0' as nat) + d) as char
}

/// The decimal digits of `n` (what `to_string` gives for an unsigned integer).
pub fn decimal_chars(n: u64) -> (r: Vec<char>)
    ensures
        r@ == decimal_of(n as nat),
    decreases n,
{
    let d = n % 10;
    let c = ((48u8 + (d as u8)) as char);
    proof {
        assert(c == digit_char(d as nat));
    }
    if n < 10 {
        vec![c]
    } else {
        let mut r = decimal_chars(n / 10);
        r.push(c);
        r
    }
}

/// The number of bytes that `c` takes in UTF-8.
pub open spec fn utf8_len(c: char) -> nat {
    if (c as u32) < 0x80 {
        1
    } else if (c as u32) < 0x800 {
        2
    } else if (c as u32) < 0x10000 {
        3
    } else {
        4
    }
}

/// The number of bytes that `s` takes in UTF-8 (`str::len`).
pub open spec fn byte_len(s: Seq<char>) -> nat
    decreases s.len(),
{
    if s.len() == 0 {
        0
    } else {
        byte_len(s.drop_last()) + utf8_len(s.last())
    }
}

/// The number of bytes that `c` takes in UTF-8 (`char::len_utf8`).
pub fn char_utf8_len(c: char) -> (r: usize)
    ensures
        r == utf8_len(c),
{
    let u = c as u32;
    if u < 0x80 {
        1
    } else if u < 0x800 {
        2
    } else if u < 0x10000 {
        3
    } else {
        4
    }
}

/// The number of bytes that `s` takes in UTF-8, capped at `usize::MAX`.
pub fn byte_len_chars(s: &[char]) -> (r: usize)
    ensures
        r == if byte_len(s@) <= usize::MAX { byte_len(s@) } else { usize::MAX as nat },
{
    let mut total: usize = 0;
    let mut i: usize = 0;
    while i < s.len()
        invariant
            i <= s@.len(),
            total == if byte_len(s@.subrange(0, i as int)) <= usize::MAX { byte_len(s@.subrange(0, i as int)) } else { usize::MAX as nat },
        decreases s.len() - i,
    {
        let l = char_utf8_len(s[i]);
        assert(s@.subrange(0, i + 1).drop_last() =~= s@.subrange(0, i as int));
        if total > usize::MAX - l {
            total = usize::MAX;
        } else {
            total = total + l;
        }
        i += 1;
    }
    assert(s@.subrange(0, s@.len() as int) =~= s@);
    total
}

/// A line with one trailing carriage return removed.
pub open spec fn strip_cr(l: Seq<char>) -> Seq<char> {
    if l.len() > 0 && l.last() == '\r' {
        l.drop_last()
    } else {
        l
    }
}

/// The lines of `s` as `str::lines` gives them: split at `\n`, a `\r` before
/// a `\n` dropped, and no empty line after a final `\n`.
pub open spec fn lines_of(s: Seq<char>) -> Seq<Seq<char>> {
    let p = split_char(s, '\n');
    let body = p.drop_last().map_values(|l: Seq<char>| strip_cr(l));
    if p.last().len() == 0 {
        body
    } else {
        body.push(p.last())
    }
}

/// Splitting gives at least one piece.
pub proof fn lemma_split_char_nonempty(s: Seq<char>, c: char)
    ensures
        split_char(s, c).len() >= 1,
    decreases s.len(),
{
    match find_char(s, c) {
        Some(i) => if 0 <= i < s.len() {
            lemma_split_char_nonempty(s.subrange(i + 1, s.len() as int), c);
        },
        None => {},
    }
}

/// The lines of `s` (`str::lines`).
pub fn lines_chars(s: &[char]) -> (r: Vec<Vec<char>>)
    ensures
        r@.len() == lines_of(s@).len(),
        forall|k: int| 0 <= k < r@.len() ==> #[trigger] r@[k]@ == lines_of(s@)[k],
{
    let parts = split_chars(s, '\n');
    let ghost p = split_char(s@, '\n');
    proof {
        lemma_split_char_nonempty(s@, '\n');
    }
    let n = parts.len();
    let mut r: Vec<Vec<char>> = Vec::new();
    let mut k: usize = 0;
    while k + 1 < n
        invariant
            n == parts@.len(),
            n == p.len(),
            n >= 1,
            p == split_char(s@, '\n'),
            forall|m: int| 0 <= m < parts@.len() ==> #[trigger] parts@[m]@ == p[m],
            k + 1 <= n,
            r@.len() == k,
            forall|m: int| 0 <= m < k ==> #[trigger] r@[m]@ == strip_cr(p[m]),
        decreases n - k,
    {
        let l = &parts[k];
        let ln = l.len();
        if ln > 0 && l[ln - 1] == '\r' {
            r.push(slice_range(l.as_slice(), 0, ln - 1));
        } else {
            r.push(slice_range(l.as_slice(), 0, ln));
        }
        proof {
            assert(parts@[k as int]@ == p[k as int]);
            assert(p[k as int].drop_last() =~= p[k as int].subrange(0, p[k as int].len() - 1));
            assert(p[k as int] =~= p[k as int].subrange(0, p[k as int].len() as int));
        }
        k += 1;
    }
    let last = &parts[n - 1];
    if last.len() > 0 {
        r.push(slice_range(last.as_slice(), 0, last.len()));
        proof {
            assert(last@ =~= last@.subrange(0, last@.len() as int));
        }
    }
    proof {
        let body = p.drop_last().map_values(|l: Seq<char>| strip_cr(l));
        assert(parts@[n - 1]@ == p.last());
        if p.last().len() == 0 {
            assert forall|m: int| 0 <= m < r@.len() implies #[trigger] r@[m]@ == lines_of(s@)[m] by {
                assert(body[m] == strip_cr(p[m]));
            }
        } else {
            assert forall|m: int| 0 <= m < r@.len() implies #[trigger] r@[m]@ == lines_of(s@)[m] by {
                if m < n - 1 {
                    assert(body[m] == strip_cr(p[m]));
                }
            }
        }
    }
    r
}

/// The maximal runs of non-white-space characters of `s`
/// (`str::split_whitespace`).
pub open spec fn words(s: Seq<char>) -> Seq<Seq<char>>
    decreases s.len(),
{
    let t = trim_start(s);
    if t.len() == 0 {
        Seq::empty()
    } else {
        let n = word_len(t);
        proof {
            lemma_trim_start_len(s);
            lemma_word_len(t);
        }
        seq![t.subrange(0, n)] + words(t.subrange(n, t.len() as int))
    }
}

/// The number of leading non-white-space characters of `s`.
pub open spec fn word_len(s: Seq<char>) -> int
    decreases s.len(),
{
    if s.len() == 0 || is_ws(s[0]) {
        0
    } else {
        1 + word_len(s.drop_first())
    }
}

pub proof fn lemma_trim_start_len(s: Seq<char>)
    ensures
        trim_start(s).len() <= s.len(),
        trim_start(s).len() > 0 ==> !is_ws(trim_start(s)[0]),
        exists|i: int| 0 <= i <= s.len() && trim_start(s) == s.subrange(i, s.len() as int),
    decreases s.len(),
{
    if s.len() > 0 && is_ws(s[0]) {
        lemma_trim_start_len(s.drop_first());
        let i = choose|i: int| 0 <= i <= s.drop_first().len() && trim_start(s.drop_first()) == s.drop_first().subrange(i, s.drop_first().len() as int);
        assert(s.drop_first().subrange(i, s.drop_first().len() as int) =~= s.subrange(i + 1, s.len() as int));
    } else {
        assert(s.subrange(0, s.len() as int) =~= s);
    }
}

pub proof fn lemma_word_len(s: Seq<char>)
    ensures
        0 <= word_len(s) <= s.len(),
        forall|k: int| 0 <= k < word_len(s) ==> !is_ws(#[trigger] s[k]),
        word_len(s) < s.len() ==> is_ws(s[word_len(s)]),
    decreases s.len(),
{
    if s.len() == 0 || is_ws(s[0]) {
    } else {
        lemma_word_len(s.drop_first());
        assert forall|k: int| 0 <= k < word_len(s) implies !is_ws(#[trigger] s[k]) by {
            if k > 0 {
                assert(s[k] == s.drop_first()[k - 1]);
            }
        }
    }
}

proof fn lemma_word_len_at(s: Seq<char>, n: int)
    requires
        0 <= n <= s.len(),
        forall|k: int| 0 <= k < n ==> !is_ws(#[trigger] s[k]),
        n < s.len() ==> is_ws(s[n]),
    ensures
        word_len(s) == n,
    decreases s.len(),
{
    if n > 0 {
        let t = s.drop_first();
        assert forall|k: int| 0 <= k < n - 1 implies !is_ws(#[trigger] t[k]) by {
            assert(t[k] == s[k + 1]);
        }
        lemma_word_len_at(t, n - 1);
    }
}

/// The words of `s` (`str::split_whitespace`).
pub fn words_chars(s: &[char]) -> (r: Vec<Vec<char>>)
    ensures
        r@.len() == words(s@).len(),
        forall|k: int| 0 <= k < r@.len() ==> #[trigger] r@[k]@ == words(s@)[k],
{
    let mut r: Vec<Vec<char>> = Vec::new();
    let mut rest = slice_range(s, 0, s.len());
    assert(s@.subrange(0, s@.len() as int) =~= s@);
    loop
        invariant
            ({
                let whole = words(s@);
                let tail = words(rest@);
                &&& whole.len() == r@.len() + tail.len()
                &&& forall|k: int| 0 <= k < r@.len() ==> #[trigger] r@[k]@ == whole[k]
                &&& forall|k: int| 0 <= k < tail.len() ==> #[trigger] tail[k] == whole[r@.len() + k]
            }),
        decreases rest@.len(),
    {
        let t = trim_start_chars(rest.as_slice());
        proof {
            lemma_trim_start_len(rest@);
        }
        if t.len() == 0 {
            return r;
        }
        let mut n: usize = 0;
        while n < t.len() && !is_whitespace(t[n])
            invariant
                n <= t@.len(),
                forall|k: int| 0 <= k < n ==> !is_ws(#[trigger] t@[k]),
            decreases t.len() - n,
        {
            n += 1;
        }
        proof {
            lemma_word_len_at(t@, n as int);
        }
        let w = slice_range(t.as_slice(), 0, n);
        let next = slice_range(t.as_slice(), n, t.len());
        let ghost old_r = r@;
        let ghost tail = words(rest@);
        proof {
            assert(tail == seq![w@] + words(next@));
        }
        r.push(w);
        proof {
            let whole = words(s@);
            assert forall|k: int| 0 <= k < r@.len() implies #[trigger] r@[k]@ == whole[k] by {
                if k < old_r.len() {
                    assert(r@[k] == old_r[k]);
                } else {
                    assert(tail[0] == whole[old_r.len() as int]);
                }
            }
            assert forall|k: int| 0 <= k < words(next@).len() implies #[trigger] words(next@)[k] == whole[r@.len() + k] by {
                assert(tail[k + 1] == words(next@)[k]);
            }
        }
        rest = next;
    }
}

/// `s` with its first occurrence of `p` removed (`str::replacen(p, "", 1)`).
pub open spec fn remove_first(s: Seq<char>, p: Seq<char>) -> Seq<char> {
    match find(s, p) {
        Some(i) => s.subrange(0, i) + s.subrange(i + p.len(), s.len() as int),
        None => s,
    }
}

/// `s` with its first occurrence of `p` removed.
pub fn remove_first_chars(s: &[char], p: &[char]) -> (r: Vec<char>)
    ensures
        r@ == remove_first(s@, p@),
{
    let n = s.len();
    match find_chars(s, p) {
        Some(i) => {
            let a = slice_range(s, 0, i);
            let b = slice_range(s, i + p.len(), n);
            concat_chars(a.as_slice(), b.as_slice())
        },
        None => slice_range(s, 0, n),
    }
}

/// `a` comes before `b` in the order of `str`: code point by code point, a
/// proper prefix first.
pub open spec fn seq_lt(a: Seq<char>, b: Seq<char>) -> bool {
    exists|k: int|
        0 <= k <= a.len() && k <= b.len() && a.subrange(0, k) == b.subrange(0, k) && ((k == a.len()
            && k < b.len()) || (k < a.len() && k < b.len() && a[k] < b[k]))
}

/// Whether `a` comes before `b` in the order of `str`.
pub fn chars_lt(a: &[char], b: &[char]) -> (r: bool)
    ensures
        r == seq_lt(a@, b@),
{
    let mut k: usize = 0;
    while k < a.len() && k < b.len() && a[k] == b[k]
        invariant
            k <= a@.len(),
            k <= b@.len(),
            a@.subrange(0, k as int) == b@.subrange(0, k as int),
        decreases a.len() - k,
    {
        proof {
            assert(a@.subrange(0, k + 1) =~= a@.subrange(0, k as int).push(a@[k as int]));
            assert(b@.subrange(0, k + 1) =~= b@.subrange(0, k as int).push(b@[k as int]));
        }
        k += 1;
    }
    let r = if k == a.len() {
        k < b.len()
    } else if k == b.len() {
        false
    } else {
        a[k] < b[k]
    };
    proof {
        if r {
        } else {
            assert forall|m: int|
                0 <= m <= a@.len() && m <= b@.len() && a@.subrange(0, m) == b@.subrange(0, m) implies !((m
                == a@.len() && m < b@.len()) || (m < a@.len() && m < b@.len() && a@[m] < b@[m])) by {
                if m < k {
                    assert(a@.subrange(0, k as int)[m] == a@[m]);
                    assert(b@.subrange(0, k as int)[m] == b@[m]);
                } else if m > k {
                    assert(a@.subrange(0, m)[k as int] == a@[k as int]);
                    assert(b@.subrange(0, m)[k as int] == b@[k as int]);
                }
            }
        }
    }
    r
}


proof fn lemma_common_prefix(a: Seq<char>, b: Seq<char>, k: int) -> (j: int)
    requires
        0 <= k <= a.len(),
        k <= b.len(),
        a.subrange(0, k) == b.subrange(0, k),
    ensures
        k <= j <= a.len(),
        j <= b.len(),
        a.subrange(0, j) == b.subrange(0, j),
        j == a.len() || j == b.len() || a[j] != b[j],
    decreases a.len() - k,
{
    if k == a.len() || k == b.len() || a[k] != b[k] {
        k
    } else {
        assert(a.subrange(0, k + 1) =~= a.subrange(0, k).push(a[k]));
        assert(b.subrange(0, k + 1) =~= b.subrange(0, k).push(b[k]));
        lemma_common_prefix(a, b, k + 1)
    }
}

/// Of two different sequences, one comes before the other.
pub proof fn lemma_seq_lt_total(a: Seq<char>, b: Seq<char>)
    requires
        a != b,
    ensures
        seq_lt(a, b) || seq_lt(b, a),
{
    assert(a.subrange(0, 0) =~= b.subrange(0, 0));
    let j = lemma_common_prefix(a, b, 0);
    if j == a.len() && j == b.len() {
        assert(a =~= a.subrange(0, j));
        assert(b =~= b.subrange(0, j));
    } else if j == a.len() {
        assert(seq_lt(a, b));
    } else if j == b.len() {
        assert(b.subrange(0, j) == a.subrange(0, j));
        assert(seq_lt(b, a));
    } else if a[j] < b[j] {
        assert(seq_lt(a, b));
    } else {
        assert(b.subrange(0, j) == a.subrange(0, j));
        assert(seq_lt(b, a));
    }
}

proof fn lemma_prefix_shorter(a: Seq<char>, b: Seq<char>, k: int, m: int)
    requires
        0 <= m <= k <= a.len(),
        k <= b.len(),
        a.subrange(0, k) == b.subrange(0, k),
    ensures
        a.subrange(0, m) == b.subrange(0, m),
        forall|i: int| 0 <= i < k ==> a[i] == b[i],
{
    assert forall|i: int| 0 <= i < k implies a[i] == b[i] by {
        assert(a.subrange(0, k)[i] == a[i]);
        assert(b.subrange(0, k)[i] == b[i]);
    }
    assert(a.subrange(0, m) =~= b.subrange(0, m));
}

/// The order of sequences is transitive.
pub proof fn lemma_seq_lt_transitive(a: Seq<char>, b: Seq<char>, c: Seq<char>)
    requires
        seq_lt(a, b),
        seq_lt(b, c),
    ensures
        seq_lt(a, c),
{
    let k1 = choose|k: int|
        0 <= k <= a.len() && k <= b.len() && a.subrange(0, k) == b.subrange(0, k) && ((k == a.len()
            && k < b.len()) || (k < a.len() && k < b.len() && a[k] < b[k]));
    let k2 = choose|k: int|
        0 <= k <= b.len() && k <= c.len() && b.subrange(0, k) == c.subrange(0, k) && ((k == b.len()
            && k < c.len()) || (k < b.len() && k < c.len() && b[k] < c[k]));
    if k1 < k2 {
        lemma_prefix_shorter(b, c, k2, k1);
        assert(a.subrange(0, k1) =~= c.subrange(0, k1));
        assert(b[k1] == c[k1]);
    } else if k2 < k1 {
        lemma_prefix_shorter(a, b, k1, k2);
        assert(a.subrange(0, k2) =~= c.subrange(0, k2));
        assert(a[k2] == b[k2]);
    } else {
        assert(a.subrange(0, k1) =~= c.subrange(0, k1));
    }
}


/// Each sequence of `s` comes before the next.
pub open spec fn sorted_strictly(s: Seq<Seq<char>>) -> bool {
    forall|k: int, m: int| 0 <= k < m < s.len() ==> seq_lt(#[trigger] s[k], #[trigger] s[m])
}

/// The character sequences that these vectors hold.
pub open spec fn char_vecs(v: Seq<Vec<char>>) -> Seq<Seq<char>> {
    v.map_values(|w: Vec<char>| w@)
}

proof fn lemma_insert_sorted(s: Seq<Seq<char>>, j: int, x: Seq<char>)
    requires
        sorted_strictly(s),
        0 <= j <= s.len(),
        forall|k: int| 0 <= k < j ==> seq_lt(#[trigger] s[k], x),
        j < s.len() ==> seq_lt(x, s[j]),
    ensures
        sorted_strictly(s.insert(j, x)),
{
    let t = s.insert(j, x);
    assert forall|k: int, m: int| 0 <= k < m < t.len() implies seq_lt(#[trigger] t[k], #[trigger] t[m]) by {
        if m < j {
            assert(t[k] == s[k] && t[m] == s[m]);
        } else if m == j {
            assert(t[k] == s[k]);
        } else if k == j {
            assert(t[m] == s[m - 1]);
            if m - 1 > j {
                lemma_seq_lt_transitive(x, s[j], s[m - 1]);
            }
        } else if k < j {
            assert(t[k] == s[k] && t[m] == s[m - 1]);
        } else {
            assert(t[k] == s[k - 1] && t[m] == s[m - 1]);
        }
    }
}

/// The same character sequences, each once, in increasing order.
pub fn sort_chars(v: &Vec<Vec<char>>) -> (r: Vec<Vec<char>>)
    requires
        char_vecs(v@).no_duplicates(),
    ensures
        r@.len() == v@.len(),
        char_vecs(r@).to_set() == char_vecs(v@).to_set(),
        sorted_strictly(char_vecs(r@)),
{
    let mut r: Vec<Vec<char>> = Vec::new();
    let mut i: usize = 0;
    while i < v.len()
        invariant
            i <= v@.len(),
            r@.len() == i,
            char_vecs(v@).no_duplicates(),
            char_vecs(r@).to_set() == char_vecs(v@).take(i as int).to_set(),
            sorted_strictly(char_vecs(r@)),
        decreases v.len() - i,
    {
        let x = slice_range(v[i].as_slice(), 0, v[i].len());
        let mut j: usize = 0;
        while j < r.len() && !chars_lt(x.as_slice(), r[j].as_slice())
            invariant
                j <= r@.len(),
                forall|k: int| 0 <= k < j ==> !seq_lt(x@, #[trigger] char_vecs(r@)[k]),
            decreases r.len() - j,
        {
            j += 1;
        }
        let ghost before = char_vecs(r@);
        let ghost vs = char_vecs(v@);
        proof {
            assert(x@ == vs[i as int]);
            assert forall|k: int| 0 <= k < j implies seq_lt(#[trigger] before[k], x@) by {
                assert(before.to_set().contains(before[k]));
                assert(vs.take(i as int).to_set().contains(before[k]));
                let t0 = vs.take(i as int);
                let m = choose|m: int| 0 <= m < t0.len() && t0[m] == before[k];
                assert(vs[m] == before[k]);
                assert(before[k] != x@);
                lemma_seq_lt_total(before[k], x@);
            }
            lemma_insert_sorted(before, j as int, x@);
        }
        r.insert(j, x);
        proof {
            let after = char_vecs(r@);
            assert(after =~= before.insert(j as int, x@));
            assert(vs.take(i + 1) =~= vs.take(i as int).push(vs[i as int]));
            assert forall|y: Seq<char>| after.contains(y) <==> (before.contains(y) || y == x@) by {
                if after.contains(y) {
                    let m = choose|m: int| 0 <= m < after.len() && after[m] == y;
                    if m < j {
                        assert(before[m] == y);
                    } else if m > j {
                        assert(before[m - 1] == y);
                    }
                }
                if before.contains(y) {
                    let m = choose|m: int| 0 <= m < before.len() && before[m] == y;
                    if m < j {
                        assert(after[m] == y);
                    } else {
                        assert(after[m + 1] == y);
                    }
                }
                if y == x@ {
                    assert(after[j as int] == y);
                }
            }
            let t1 = vs.take(i + 1);
            let t0 = vs.take(i as int);
            assert forall|y: Seq<char>| t1.contains(y) <==> (t0.contains(y) || y == x@) by {
                if t1.contains(y) {
                    let m = choose|m: int| 0 <= m < t1.len() && t1[m] == y;
                    if m < i {
                        assert(t0[m] == y);
                    }
                }
                if t0.contains(y) {
                    let m = choose|m: int| 0 <= m < t0.len() && t0[m] == y;
                    assert(t1[m] == y);
                }
                if y == x@ {
                    assert(t1[i as int] == y);
                }
            }
            assert forall|y: Seq<char>| after.to_set().contains(y) == t1.to_set().contains(y) by {
                assert(before.to_set().contains(y) == t0.to_set().contains(y));
            }
            assert(after.to_set() =~= t1.to_set());
        }
        i += 1;
    }
    proof {
        assert(char_vecs(v@).take(v@.len() as int) =~= char_vecs(v@));
    }
    r
}


/// The position of `x` among the sequences of `v`.
pub fn index_of_chars(v: &Vec<Vec<char>>, x: &[char]) -> (r: Option<usize>)
    ensures
        match r {
            Some(k) => k < v@.len() && char_vecs(v@)[k as int] == x@,
            None => !char_vecs(v@).contains(x@),
        },
{
    let mut k: usize = 0;
    while k < v.len()
        invariant
            k <= v@.len(),
            forall|m: int| 0 <= m < k ==> #[trigger] char_vecs(v@)[m] != x@,
        decreases v.len() - k,
    {
        if chars_eq(v[k].as_slice(), x) {
            return Some(k);
        }
        k += 1;
    }
    None
}

/// The two sides of the first white-space character of `s`
/// (`str::split_once(char::is_whitespace)`).
pub open spec fn split_once_ws(s: Seq<char>) -> Option<(Seq<char>, Seq<char>)> {
    let n = word_len(s);
    if n < s.len() {
        Some((s.subrange(0, n), s.subrange(n + 1, s.len() as int)))
    } else {
        None
    }
}

/// The sides of the first white-space character of `s`.
pub fn split_once_ws_chars(s: &[char]) -> (r: Option<(Vec<char>, Vec<char>)>)
    ensures
        match split_once_ws(s@) {
            Some((a, b)) => r matches Some((x, y)) && x@ == a && y@ == b,
            None => r is None,
        },
{
    let mut n: usize = 0;
    while n < s.len() && !is_whitespace(s[n])
        invariant
            n <= s@.len(),
            forall|k: int| 0 <= k < n ==> !is_ws(#[trigger] s@[k]),
        decreases s.len() - n,
    {
        n += 1;
    }
    proof {
        lemma_word_len_at(s@, n as int);
    }
    if n < s.len() {
        Some((slice_range(s, 0, n), slice_range(s, n + 1, s.len())))
    } else {
        None
    }
}


/// Every trailing occurrence of `p` removed from `s` (`str::trim_end_matches`).
pub open spec fn strip_all_suffix(s: Seq<char>, p: Seq<char>) -> Seq<char>
    decreases s.len(),
{
    if p.len() > 0 && ends_with(s, p) {
        strip_all_suffix(s.subrange(0, s.len() - p.len()), p)
    } else {
        s
    }
}

/// `s` with every trailing `p` removed.
pub fn strip_all_suffix_chars(s: &[char], p: &[char]) -> (r: Vec<char>)
    ensures
        r@ == strip_all_suffix(s@, p@),
{
    if p.len() == 0 {
        return slice_range(s, 0, s.len());
    }
    let mut j: usize = s.len();
    assert(s@.subrange(0, s@.len() as int) =~= s@);
    while j >= p.len() && matches_at(s, p, j - p.len())
        invariant
            p@.len() > 0,
            j <= s@.len(),
            strip_all_suffix(s@, p@) == strip_all_suffix(s@.subrange(0, j as int), p@),
        decreases j,
    {
        let ghost rest = s@.subrange(0, j as int);
        assert(rest.subrange(rest.len() - p@.len(), rest.len() as int) =~= s@.subrange(
            j - p@.len(),
            j as int,
        ));
        assert(rest.subrange(0, rest.len() - p@.len()) =~= s@.subrange(0, j - p@.len()));
        j = j - p.len();
    }
    let ghost rest = s@.subrange(0, j as int);
    assert(!ends_with(rest, p@)) by {
        if ends_with(rest, p@) {
            assert(rest.subrange(rest.len() - p@.len(), rest.len() as int) =~= s@.subrange(
                j - p@.len(),
                j as int,
            ));
        }
    }
    slice_range(s, 0, j)
}


/// No sequence of `s` comes before an earlier one.
pub open spec fn sorted_loosely(s: Seq<Seq<char>>) -> bool {
    forall|k: int, m: int| 0 <= k < m < s.len() ==> !seq_lt(#[trigger] s[m], #[trigger] s[k])
}

proof fn lemma_insert_sorted_loosely(s: Seq<Seq<char>>, j: int, x: Seq<char>)
    requires
        sorted_loosely(s),
        0 <= j <= s.len(),
        forall|k: int| 0 <= k < j ==> !seq_lt(x, #[trigger] s[k]),
        j < s.len() ==> seq_lt(x, s[j]),
    ensures
        sorted_loosely(s.insert(j, x)),
{
    let t = s.insert(j, x);
    assert forall|k: int, m: int| 0 <= k < m < t.len() implies !seq_lt(#[trigger] t[m], #[trigger] t[k]) by {
        if m < j {
            assert(t[k] == s[k] && t[m] == s[m]);
        } else if m == j {
            assert(t[k] == s[k]);
        } else if k == j {
            assert(t[m] == s[m - 1]);
            if seq_lt(s[m - 1], x) {
                if m - 1 == j {
                    lemma_seq_lt_transitive(x, s[j], x);
                } else {
                    lemma_seq_lt_transitive(s[m - 1], x, s[j]);
                }
            }
        } else if k < j {
            assert(t[k] == s[k] && t[m] == s[m - 1]);
        } else {
            assert(t[k] == s[k - 1] && t[m] == s[m - 1]);
        }
    }
}

/// The same character sequences, as many times each, in order.
pub fn sort_lines(v: &Vec<Vec<char>>) -> (r: Vec<Vec<char>>)
    ensures
        char_vecs(r@).to_multiset() == char_vecs(v@).to_multiset(),
        sorted_loosely(char_vecs(r@)),
{
    broadcast use vstd::seq_lib::group_to_multiset_ensures;
    let mut r: Vec<Vec<char>> = Vec::new();
    let mut i: usize = 0;
    assert(char_vecs(r@) =~= char_vecs(v@).take(0));
    while i < v.len()
        invariant
            i <= v@.len(),
            char_vecs(r@).to_multiset() == char_vecs(v@).take(i as int).to_multiset(),
            sorted_loosely(char_vecs(r@)),
        decreases v.len() - i,
    {
        let x = slice_range(v[i].as_slice(), 0, v[i].len());
        let mut j: usize = 0;
        while j < r.len() && !chars_lt(x.as_slice(), r[j].as_slice())
            invariant
                j <= r@.len(),
                forall|k: int| 0 <= k < j ==> !seq_lt(x@, #[trigger] char_vecs(r@)[k]),
            decreases r.len() - j,
        {
            j += 1;
        }
        let ghost before = char_vecs(r@);
        proof {
            lemma_insert_sorted_loosely(before, j as int, x@);
            vstd::seq_lib::to_multiset_insert(before, j as int, x@);
        }
        r.insert(j, x);
        proof {
            let vs = char_vecs(v@);
            assert(char_vecs(r@) =~= before.insert(j as int, x@));
            assert(vs.take(i + 1) =~= vs.take(i as int).push(vs[i as int]));
            assert(x@ == vs[i as int]);
            vs.take(i as int).to_multiset_ensures();
            assert(vs.take(i as int).push(x@).to_multiset() =~= vs.take(i as int).to_multiset().insert(x@));
            assert(char_vecs(r@).to_multiset() =~= before.to_multiset().insert(x@));
        }
        i += 1;
    }
    assert(char_vecs(v@).take(v@.len() as int) =~= char_vecs(v@));
    r
}

/// The sequences of `xs` with `c` between each two (`slice::join`).
pub open spec fn join(xs: Seq<Seq<char>>, c: char) -> Seq<char>
    decreases xs.len(),
{
    if xs.len() == 0 {
        Seq::empty()
    } else if xs.len() == 1 {
        xs[0]
    } else {
        xs[0] + seq![c] + join(xs.drop_first(), c)
    }
}

/// The sequences of `xs` joined by `c`.
pub fn join_chars(xs: &Vec<Vec<char>>, c: char) -> (r: Vec<char>)
    ensures
        r@ == join(char_vecs(xs@), c),
{
    let n = xs.len();
    if n == 0 {
        return Vec::new();
    }
    let ghost cs = char_vecs(xs@);
    let mut r = slice_range(xs[n - 1].as_slice(), 0, xs[n - 1].len());
    let mut k = n - 1;
    assert(cs.subrange(k as int, n as int) =~= seq![cs[k as int]]);
    while k > 0
        invariant
            n == xs@.len(),
            cs == char_vecs(xs@),
            k < n,
            r@ == join(cs.subrange(k as int, n as int), c),
        decreases k,
    {
        let mut t = slice_range(xs[k - 1].as_slice(), 0, xs[k - 1].len());
        t.push(c);
        push_all(&mut t, r.as_slice());
        proof {
            let tail = cs.subrange(k - 1, n as int);
            assert(tail.drop_first() =~= cs.subrange(k as int, n as int));
            assert(tail[0] == cs[k - 1]);
            assert(t@ =~= cs[k - 1] + seq![c] + r@);
        }
        r = t;
        k -= 1;
    }
    assert(cs.subrange(0, n as int) =~= cs);
    r
}

pub(crate) proof fn lemma_find_char_at(s: Seq<char>, c: char, i: int)
    requires
        0 <= i < s.len(),
        s[i] == c,
        forall|k: int| 0 <= k < i ==> s[k] != c,
    ensures
        find_char(s, c) == Some(i),
{
    let p = seq![c];
    assert(s.subrange(i, i + 1) =~= p);
    assert forall|k: int| 0 <= k < i implies !occurs_at(s, p, k) by {
        if occurs_at(s, p, k) {
            assert(s.subrange(k, k + 1)[0] == s[k]);
        }
    }
    assert(is_first_occurrence(s, p, i));
    let j = choose|j: int| is_first_occurrence(s, p, j);
    if j < i {
        assert(!occurs_at(s, p, j));
    } else if j > i {
        assert(!occurs_at(s, p, i));
    }
}

pub(crate) proof fn lemma_find_char_none(s: Seq<char>, c: char)
    requires
        forall|k: int| 0 <= k < s.len() ==> s[k] != c,
    ensures
        find_char(s, c) is None,
{
    let p = seq![c];
    assert forall|k: int| !occurs_at(s, p, k) by {
        if occurs_at(s, p, k) {
            assert(s.subrange(k, k + 1)[0] == s[k]);
        }
    }
}

/// Splitting `a`, `c` and `b` at `c`, where `a` holds no `c`, gives `a` and
/// then the pieces of `b`.
pub proof fn lemma_split_char_front(a: Seq<char>, b: Seq<char>, c: char)
    requires
        !a.contains(c),
    ensures
        split_char(a + seq![c] + b, c) == seq![a] + split_char(b, c),
        split_once_char(a + seq![c] + b, c) == Some((a, b)),
{
    let s = a + seq![c] + b;
    assert forall|k: int| 0 <= k < a.len() implies s[k] != c by {
        assert(s[k] == a[k]);
    }
    lemma_find_char_at(s, c, a.len() as int);
    assert(s.subrange(0, a.len() as int) =~= a);
    assert(s.subrange(a.len() as int + 1, s.len() as int) =~= b);
}

/// Splitting at `c` the join by `c` of sequences without `c` gives them back.
pub proof fn lemma_split_join(xs: Seq<Seq<char>>, c: char)
    requires
        xs.len() > 0,
        forall|i: int| 0 <= i < xs.len() ==> !(#[trigger] xs[i]).contains(c),
    ensures
        split_char(join(xs, c), c) == xs,
    decreases xs.len(),
{
    if xs.len() == 1 {
        lemma_find_char_none(xs[0], c);
        assert(split_char(xs[0], c) =~= seq![xs[0]]);
        assert(xs =~= seq![xs[0]]);
    } else {
        let rest = xs.drop_first();
        assert forall|i: int| 0 <= i < rest.len() implies !(#[trigger] rest[i]).contains(c) by {
            assert(rest[i] == xs[i + 1]);
        }
        lemma_split_join(rest, c);
        lemma_split_char_front(xs[0], join(rest, c), c);
        assert(xs =~= seq![xs[0]] + rest);
    }
}


/// A join holds a character `d` other than the separator only where one of
/// the joined sequences does.
pub proof fn lemma_join_avoids(xs: Seq<Seq<char>>, c: char, d: char)
    requires
        c != d,
        forall|i: int| 0 <= i < xs.len() ==> !(#[trigger] xs[i]).contains(d),
    ensures
        !join(xs, c).contains(d),
    decreases xs.len(),
{
    if xs.len() == 1 {
    } else if xs.len() > 1 {
        let rest = xs.drop_first();
        assert forall|i: int| 0 <= i < rest.len() implies !(#[trigger] rest[i]).contains(d) by {
            assert(rest[i] == xs[i + 1]);
        }
        lemma_join_avoids(rest, c, d);
        let j = join(xs, c);
        let a = xs[0];
        let b = join(rest, c);
        assert(j == a + seq![c] + b);
        if j.contains(d) {
            let k = choose|k: int| 0 <= k < j.len() && j[k] == d;
            if k < a.len() {
                assert(a[k] == d);
            } else if k > a.len() {
                assert(b[k - a.len() - 1] == d);
            }
        }
    }
}

/// Joining one more sequence adds the separator and it.
pub proof fn lemma_join_push(xs: Seq<Seq<char>>, y: Seq<char>, c: char)
    requires
        xs.len() > 0,
    ensures
        join(xs.push(y), c) == join(xs, c) + seq![c] + y,
    decreases xs.len(),
{
    let t = xs.push(y);
    if xs.len() == 1 {
        assert(t.drop_first() =~= seq![y]);
        assert(join(t.drop_first(), c) == y);
    } else {
        lemma_join_push(xs.drop_first(), y, c);
        assert(t.drop_first() =~= xs.drop_first().push(y));
        assert(join(t, c) =~= join(xs, c) + seq![c] + y);
    }
}

/// The empty sequence splits into one empty piece.
pub proof fn lemma_split_char_empty(c: char)
    ensures
        split_char(Seq::<char>::empty(), c) == seq![Seq::<char>::empty()],
{
    lemma_find_char_none(Seq::<char>::empty(), c);
}


/// Every non-overlapping occurrence of `p` in `s`, from the left, replaced by
/// `r` (`str::replace`, for a non-empty `p`).
pub open spec fn replace_all(s: Seq<char>, p: Seq<char>, r: Seq<char>) -> Seq<char>
    decreases s.len(),
{
    if p.len() == 0 {
        s
    } else {
        match find(s, p) {
            Some(i) => if 0 <= i && i + p.len() <= s.len() {
                s.subrange(0, i) + r + replace_all(s.subrange(i + p.len(), s.len() as int), p, r)
            } else {
                s
            },
            None => s,
        }
    }
}

/// `s` with every non-overlapping `p` replaced by `r`.
pub fn replace_all_chars(s: &[char], p: &[char], r: &[char]) -> (out: Vec<char>)
    requires
        p@.len() > 0,
    ensures
        out@ == replace_all(s@, p@, r@),
{
    let mut out: Vec<char> = Vec::new();
    let mut start: usize = 0;
    assert(s@.subrange(0, s@.len() as int) =~= s@);
    loop
        invariant
            p@.len() > 0,
            start <= s@.len(),
            out@ + replace_all(s@.subrange(start as int, s@.len() as int), p@, r@) == replace_all(s@, p@, r@),
        decreases s.len() - start,
    {
        let rest = slice_range(s, start, s.len());
        match find_chars(rest.as_slice(), p) {
            Some(i) => {
                let head = slice_range(rest.as_slice(), 0, i);
                let ghost before = out@;
                push_all(&mut out, head.as_slice());
                push_all(&mut out, r);
                proof {
                    let tail = rest@.subrange(i + p@.len(), rest@.len() as int);
                    assert(tail =~= s@.subrange(start + i + p@.len(), s@.len() as int));
                    assert(replace_all(rest@, p@, r@) == rest@.subrange(0, i as int) + r@ + replace_all(tail, p@, r@));
                    assert(out@ =~= before + rest@.subrange(0, i as int) + r@);
                    assert(out@ + replace_all(tail, p@, r@) =~= before + replace_all(rest@, p@, r@));
                }
                start = start + i + p.len();
            },
            None => {
                push_all(&mut out, rest.as_slice());
                assert(out@ =~= out@ + Seq::<char>::empty());
                return out;
            },
        }
    }
}

/// `c` in lower case, for an ASCII letter; any other character unchanged.
pub open spec fn ascii_lower_char(c: char) -> char {
    if 'A' <= c <= 'Z' {
        ((c as u32) + 32) as char
    } else {
        c
    }
}

/// `s` with its ASCII letters in lower case.
pub open spec fn ascii_lower(s: Seq<char>) -> Seq<char> {
    s.map_values(|c: char| ascii_lower_char(c))
}

/// `c` in upper case, if it is an ASCII letter.
pub open spec fn ascii_upper_letter(c: char) -> char {
    if 'a' <= c <= 'z' {
        ((c as u32) - 32) as char
    } else {
        c
    }
}

/// `s` with its ASCII letters in upper case.
pub open spec fn ascii_upper(s: Seq<char>) -> Seq<char> {
    s.map_values(|c: char| ascii_upper_letter(c))
}

/// Lowering ASCII letters does not depend on their case: lowering the
/// lowered or the raised text gives the lowered text, and the result stays
/// ASCII.
pub proof fn lemma_ascii_case(s: Seq<char>)
    requires
        is_ascii_text(s),
    ensures
        ascii_lower(ascii_lower(s)) == ascii_lower(s),
        ascii_lower(ascii_upper(s)) == ascii_lower(s),
        is_ascii_text(ascii_lower(s)),
        is_ascii_text(ascii_upper(s)),
{
    assert forall|i: int| 0 <= i < s.len() implies ascii_lower_char(ascii_upper_letter(#[trigger] s[i])) == ascii_lower_char(
        s[i],
    ) && ascii_lower_char(ascii_lower_char(s[i])) == ascii_lower_char(s[i]) && (ascii_lower_char(s[i]) as u32) < 128
        && (ascii_upper_letter(s[i]) as u32) < 128 by {
        let c = s[i];
        assert((c as u32) < 128);
    }
    assert(ascii_lower(ascii_lower(s)) =~= ascii_lower(s));
    assert(ascii_lower(ascii_upper(s)) =~= ascii_lower(s));
}

/// Every character of `s` is ASCII.
pub open spec fn is_ascii_text(s: Seq<char>) -> bool {
    forall|i: int| 0 <= i < s.len() ==> (#[trigger] s[i] as u32) < 128
}

/// `s` with its ASCII letters in lower case.
pub fn ascii_lower_chars(s: &[char]) -> (r: Vec<char>)
    ensures
        r@ == ascii_lower(s@),
{
    let mut r: Vec<char> = Vec::new();
    let mut i: usize = 0;
    while i < s.len()
        invariant
            i <= s@.len(),
            r@ == ascii_lower(s@.subrange(0, i as int)),
        decreases s.len() - i,
    {
        let c = s[i];
        let l = if 'A' <= c && c <= 'Z' {
            ((c as u8) + 32) as char
        } else {
            c
        };
        assert(l == ascii_lower_char(c)) by {
            if 'A' <= c && c <= 'Z' {
                assert((c as u8) as u32 == c as u32);
            }
        }
        r.push(l);
        assert(r@ =~= ascii_lower(s@.subrange(0, i + 1)));
        i += 1;
    }
    assert(s@.subrange(0, s@.len() as int) =~= s@);
    r
}

/// Whether every character of `s` is ASCII.
pub fn all_ascii(s: &[char]) -> (r: bool)
    ensures
        r == is_ascii_text(s@),
{
    let mut i: usize = 0;
    while i < s.len()
        invariant
            i <= s@.len(),
            forall|k: int| 0 <= k < i ==> (#[trigger] s@[k] as u32) < 128,
        decreases s.len() - i,
    {
        if (s[i] as u32) >= 128 {
            return false;
        }
        i += 1;
    }
    true
}

} // verus!

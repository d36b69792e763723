//! Rendering of control characters and display widths.
use vstd::prelude::*;

use crate::text::{chars_of, push_all, string_of};
use unicode_segmentation::UnicodeSegmentation;
use unicode_truncate::UnicodeTruncateStr;
use unicode_width::UnicodeWidthStr;

verus! {

/// Undo bookkeeping for the line editor; it records nothing.
#[derive(Default)]
pub struct Changeset {}

/// How a character is shown: DEL as `^?`, an ASCII control character `c` as
/// `^` and `c + 64`, every other character as itself.
pub open spec fn shown(c: char) -> Seq<char> {
    if c == '\u{7f}' {
        seq!['^', '?']
    } else if (c as u32) < 32 {
        seq!['^', (((c as u32) + 64) as u8) as char]
    } else {
        seq![c]
    }
}

/// `s` with its control characters made visible.
pub open spec fn with_control_chars_shown(s: Seq<char>) -> Seq<char>
    decreases s.len(),
{
    if s.len() == 0 {
        Seq::empty()
    } else {
        with_control_chars_shown(s.drop_last()) + shown(s.last())
    }
}

/// `text` with its control characters made visible: DEL as `^?`, an ASCII
/// control character such as a line feed as `^J`.
pub fn display_control_chars(text: &str) -> (r: String)
    ensures
        r@ == with_control_chars_shown(text@),
{
    let v = chars_of(text);
    let mut out: Vec<char> = Vec::new();
    let mut i: usize = 0;
    while i < v.len()
        invariant
            i <= v@.len(),
            out@ == with_control_chars_shown(v@.subrange(0, i as int)),
        decreases v.len() - i,
    {
        let c = v[i];
        if c == '\u{7f}' {
            out.push('^');
            out.push('?');
        } else if (c as u32) < 32 {
            let u = c as u32;
            out.push('^');
            out.push(((u + 64) as u8) as char);
        } else {
            out.push(c);
        }
        proof {
            assert(v@.subrange(0, i + 1).drop_last() =~= v@.subrange(0, i as int));
            assert(out@ =~= with_control_chars_shown(v@.subrange(0, i + 1)));
        }
        i += 1;
    }
    assert(v@.subrange(0, v@.len() as int) =~= v@);
    string_of(out.as_slice())
}

/// The extended grapheme clusters of a string, as `unicode_segmentation` splits it.
pub uninterp spec fn grapheme_clusters(s: Seq<char>) -> Seq<Seq<char>>;

/// The display width of a string, as `unicode_width` measures it.
pub uninterp spec fn text_width(s: Seq<char>) -> nat;

/// `UnicodeSegmentation::graphemes` with extended clusters; the contract names
/// the clusters and says nothing more of them.
#[verifier::external_body]
fn graphemes_of(s: &str) -> (r: Vec<String>)
    ensures
        r@.len() == grapheme_clusters(s@).len(),
        forall|i: int| 0 <= i < r@.len() ==> #[trigger] r@[i]@ == grapheme_clusters(s@)[i],
{
    s.graphemes(true).map(|g| g.to_string()).collect()
}

/// Text of printable ASCII characters only (space to `~`).
pub open spec fn printable_ascii(s: Seq<char>) -> bool {
    forall|i: int| 0 <= i < s.len() ==> ' ' <= #[trigger] s[i] <= '~'
}

/// `UnicodeWidthStr::width`; the contract names the width, and states that
/// printable ASCII text takes one column per character (the crate counts one
/// column for every character up to U+00A0 other than `\n` and `\r`, and
/// such a character leaves no state that changes the width of the one
/// before it).
#[verifier::external_body]
pub(crate) fn width_of(s: &str) -> (r: usize)
    ensures
        r == text_width(s@),
        printable_ascii(s@) ==> r == s@.len(),
{
    s.width()
}

/// The sum of the widths of `gs`.
pub open spec fn widths_sum(gs: Seq<Seq<char>>) -> nat
    decreases gs.len(),
{
    if gs.len() == 0 {
        0
    } else {
        widths_sum(gs.drop_last()) + text_width(gs.last())
    }
}

/// The display width of `text` once its control characters are made visible:
/// the sum of the widths of its grapheme clusters.
pub open spec fn display_width_of(text: Seq<char>) -> nat {
    widths_sum(grapheme_clusters(with_control_chars_shown(text)))
}

fn width_sum_checked(text: &str) -> (r: Option<usize>)
    ensures
        match r {
            Some(w) => w == display_width_of(text@),
            None => display_width_of(text@) > usize::MAX,
        },
{
    let shown = display_control_chars(text);
    let gs = graphemes_of(shown.as_str());
    let ghost g = grapheme_clusters(shown@);
    let mut total: usize = 0;
    let mut i: usize = 0;
    while i < gs.len()
        invariant
            i <= gs@.len(),
            gs@.len() == g.len(),
            g == grapheme_clusters(shown@),
            shown@ == with_control_chars_shown(text@),
            forall|k: int| 0 <= k < gs@.len() ==> #[trigger] gs@[k]@ == g[k],
            total == widths_sum(g.subrange(0, i as int)),
        decreases gs.len() - i,
    {
        let w = width_of(gs[i].as_str());
        proof {
            assert(gs@[i as int]@ == g[i as int]);
            assert(g.subrange(0, i + 1).drop_last() =~= g.subrange(0, i as int));
        }
        if total > usize::MAX - w {
            proof {
                lemma_widths_sum_grows(g, i as int + 1);
            }
            return None;
        }
        total = total + w;
        i += 1;
    }
    assert(g.subrange(0, g.len() as int) =~= g);
    Some(total)
}

proof fn lemma_widths_sum_grows(g: Seq<Seq<char>>, i: int)
    requires
        0 <= i <= g.len(),
    ensures
        widths_sum(g.subrange(0, i)) <= widths_sum(g),
    decreases g.len() - i,
{
    if i < g.len() {
        lemma_widths_sum_grows(g, i + 1);
        assert(g.subrange(0, i + 1).drop_last() =~= g.subrange(0, i));
    } else {
        assert(g.subrange(0, i) =~= g);
    }
}

/// The number of terminal columns that `text` takes once its control
/// characters are made visible.
pub fn display_width(text: &str) -> (r: usize)
    requires
        display_width_of(text@) <= usize::MAX,
    ensures
        r == display_width_of(text@),
{
    match width_sum_checked(text) {
        Some(w) => w,
        None => 0,
    }
}

/// The display width of `text`, or `None` where it does not fit in a `usize`.
pub fn try_display_width(text: &str) -> (r: Option<usize>)
    ensures
        match r {
            Some(w) => w == display_width_of(text@),
            None => display_width_of(text@) > usize::MAX,
        },
{
    match width_sum_checked(text) {
        Some(_) => Some(display_width(text)),
        None => None,
    }
}


/// How many leading clusters of `gs` `unicode_truncate` keeps within
/// `width`, `acc` being the width of the clusters already kept: a cluster is
/// kept while the running sum stays within `width` and the crate's checked
/// running sum can still take the width of the cluster after it.
pub open spec fn kept_count(gs: Seq<Seq<char>>, width: int, acc: int) -> nat
    decreases gs.len(),
{
    if gs.len() == 0 {
        0
    } else {
        let s1 = acc + text_width(gs[0]);
        if s1 <= width && (gs.len() == 1 || s1 + text_width(gs[1]) <= usize::MAX) {
            1 + kept_count(gs.drop_first(), width, s1)
        } else {
            0
        }
    }
}

/// The clusters of `gs`, one after another.
pub open spec fn concat_all(gs: Seq<Seq<char>>) -> Seq<char>
    decreases gs.len(),
{
    if gs.len() == 0 {
        Seq::empty()
    } else {
        concat_all(gs.drop_last()) + gs.last()
    }
}

/// The leading grapheme clusters of `s` that fit in `width` columns, as
/// `unicode_truncate` keeps them.
pub open spec fn truncated_to_width(s: Seq<char>, width: nat) -> Seq<char> {
    let gs = grapheme_clusters(s);
    concat_all(gs.take(kept_count(gs, width as int, 0) as int))
}

/// The text kept takes as many columns as the sum of its clusters' widths:
/// `unicode_truncate` asserts this, in builds with debug assertions, of the
/// text it returns.
pub open spec fn truncation_checked(s: Seq<char>, width: nat) -> bool {
    let gs = grapheme_clusters(s);
    text_width(truncated_to_width(s, width)) == widths_sum(gs.take(kept_count(gs, width as int, 0) as int))
}

/// `UnicodeTruncateStr::unicode_truncate`: the text kept is `s` up to the
/// start of the first cluster that no longer fits, that is, the clusters
/// that fit, one after another. The crate's debug assertion that this text
/// is as wide as its clusters' widths added up is `truncation_checked`,
/// which callers establish.
#[verifier::external_body]
fn unicode_truncated(s: &str, width: usize) -> (r: String)
    requires
        truncation_checked(s@, width as nat),
    ensures
        r@ == truncated_to_width(s@, width as nat),
{
    s.unicode_truncate(width).0.to_string()
}

proof fn lemma_kept_count_step(gs: Seq<Seq<char>>, width: int, acc: int, i: int)
    requires
        0 <= i < gs.len(),
    ensures
        kept_count(gs.skip(i), width, acc) == (if acc + text_width(gs[i]) <= width && (i + 1 == gs.len() || acc
            + text_width(gs[i]) + text_width(gs[i + 1]) <= usize::MAX) {
            1 + kept_count(gs.skip(i + 1), width, acc + text_width(gs[i]))
        } else {
            0
        }),
{
    let t = gs.skip(i);
    assert(t[0] == gs[i]);
    assert(t.drop_first() =~= gs.skip(i + 1));
    if i + 1 < gs.len() {
        assert(t[1] == gs[i + 1]);
    }
}

/// The leading grapheme clusters of `s` that fit in `width` columns, as
/// `unicode_truncate` keeps them: the crate is asked only where its own
/// check of the width holds, and the same text is built here otherwise.
pub fn truncate_to_width(s: &str, width: usize) -> (r: String)
    ensures
        r@ == truncated_to_width(s@, width as nat),
        truncation_checked(s@, width as nat) ==> text_width(r@) <= width,
{
    let gs = graphemes_of(s);
    let ghost g = grapheme_clusters(s@);
    let n = gs.len();
    let mut ws: Vec<usize> = Vec::new();
    let mut j: usize = 0;
    while j < n
        invariant
            n == gs@.len(),
            j <= n,
            ws@.len() == j,
            forall|k: int| 0 <= k < j ==> #[trigger] ws@[k] == text_width(gs@[k]@),
        decreases n - j,
    {
        ws.push(width_of(gs[j].as_str()));
        j += 1;
    }
    let mut out: Vec<char> = Vec::new();
    let mut acc: usize = 0;
    let mut i: usize = 0;
    assert(g.skip(0) =~= g);
    assert(g.take(0) =~= Seq::<Seq<char>>::empty());
    loop
        invariant
            n == gs@.len(),
            gs@.len() == g.len(),
            g == grapheme_clusters(s@),
            forall|k: int| 0 <= k < n ==> #[trigger] gs@[k]@ == g[k],
            ws@.len() == n,
            forall|k: int| 0 <= k < n ==> #[trigger] ws@[k] == text_width(gs@[k]@),
            i <= n,
            acc <= width,
            kept_count(g, width as int, 0) == i + kept_count(g.skip(i as int), width as int, acc as int),
            out@ == concat_all(g.take(i as int)),
            acc == widths_sum(g.take(i as int)),
        ensures
            kept_count(g, width as int, 0) == i,
            out@ == concat_all(g.take(i as int)),
            acc == widths_sum(g.take(i as int)),
        decreases n - i,
    {
        if i == n {
            assert(g.skip(i as int).len() == 0);
            break;
        }
        proof {
            lemma_kept_count_step(g, width as int, acc as int, i as int);
            assert(g.take(i + 1).drop_last() =~= g.take(i as int));
            assert(g.take(i + 1).last() == g[i as int]);
        }
        let w = ws[i];
        let s1 = match acc.checked_add(w) {
            Some(x) => x,
            None => {
                break;
            },
        };
        if s1 > width {
            break;
        }
        if i + 1 < n && s1.checked_add(ws[i + 1]).is_none() {
            break;
        }
        push_all(&mut out, chars_of(gs[i].as_str()).as_slice());
        acc = s1;
        i += 1;
    }
    let kept = string_of(out.as_slice());
    if width_of(kept.as_str()) == acc {
        unicode_truncated(s, width)
    } else {
        kept
    }
}

} // verus!

//! The popups and side panes beside the task report: contexts, reports and
//! projects.
use vstd::prelude::*;

use crate::text::{chars_of, contains, contains_chars, lowercase, str_to_lowercase};

pub mod context;
pub mod project;
pub mod report;

verus! {

/// `r` lists, in increasing order, exactly the indices below `n` that satisfy `p`.
pub open spec fn lists_indices_where(r: Seq<usize>, n: nat, p: spec_fn(int) -> bool) -> bool {
    &&& forall|k: int| 0 <= k < r.len() ==> #[trigger] r[k] < n && p(r[k] as int)
    &&& forall|k: int, m: int| 0 <= k < m < r.len() ==> r[k] < r[m]
    &&& forall|i: int| 0 <= i < n && #[trigger] p(i) ==> r.contains(i as usize)
}

/// The search of a popup matches a row with fields `a` and `b`: the
/// lower-cased query is empty or occurs in one of the lower-cased fields.
pub open spec fn search_hit(query: Seq<char>, a: Seq<char>, b: Seq<char>) -> bool {
    query.len() == 0 || contains(lowercase(a), query) || contains(lowercase(b), query)
}

/// The lower-cased characters of `s`.
pub fn lowered(s: &String) -> (r: Vec<char>)
    ensures
        r@ == lowercase(s@),
{
    let l = str_to_lowercase(s.as_str());
    chars_of(l.as_str())
}

/// Whether `query` is empty or occurs in one of the lower-cased `a` and `b`.
pub fn search_hits(query: &[char], a: &String, b: &String) -> (r: bool)
    ensures
        r == search_hit(query@, a@, b@),
{
    if query.len() == 0 {
        return true;
    }
    let la = lowered(a);
    if contains_chars(la.as_slice(), query) {
        return true;
    }
    let lb = lowered(b);
    contains_chars(lb.as_slice(), query)
}

} // verus!

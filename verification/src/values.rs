//! Small helpers for optional texts and lists of texts.
use vstd::prelude::*;

use crate::split;
use crate::text::same;

verus! {

/// The text in an optional string.
pub open spec fn opt_view(o: Option<String>) -> Option<Seq<char>> {
    match o {
        Some(s) => Some(s@),
        None => None,
    }
}

pub fn clone_opt(o: &Option<String>) -> (r: Option<String>)
    ensures
        opt_view(r) == opt_view(*o),
{
    match o {
        Some(s) => Some(s.clone()),
        None => None,
    }
}

pub fn clone_texts(v: &Vec<String>) -> (r: Vec<String>)
    ensures
        split::views(r@) == split::views(v@),
{
    let mut out: Vec<String> = Vec::new();
    let mut i: usize = 0;
    while i < v.len()
        invariant
            i <= v.len(),
            out@.len() == i,
            forall|j: int| 0 <= j < i ==> (#[trigger] out@[j])@ == v@[j]@,
        decreases v.len() - i,
    {
        out.push(v[i].clone());
        i += 1;
    }
    assert(split::views(out@) =~= split::views(v@));
    out
}

/// Is the text one of the list?
pub fn contains_text(v: &Vec<String>, s: &str) -> (r: bool)
    ensures
        r == split::views(v@).contains(s@),
{
    let mut i: usize = 0;
    while i < v.len()
        invariant
            i <= v.len(),
            forall|j: int| 0 <= j < i ==> (#[trigger] v@[j])@ != s@,
        decreases v.len() - i,
    {
        if same(v[i].as_str(), s) {
            assert(split::views(v@)[i as int] == s@);
            return true;
        }
        i += 1;
    }
    assert(!split::views(v@).contains(s@)) by {
        if split::views(v@).contains(s@) {
            let k = choose|k: int| 0 <= k < v@.len() && split::views(v@)[k] == s@;
            assert(v@[k]@ == s@);
        }
    }
    false
}

} // verus!

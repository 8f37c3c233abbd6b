//! Candidate selection: a file whose base name already carries the
//! eight-digit date-stamp prefix and the `.pdf` suffix was produced by an
//! earlier run and is skipped.

use vstd::prelude::*;

use crate::paths::{base_name, sp_base_name};

verus! {

/// A base name counts as already processed when it starts with eight decimal
/// digits and ends with the (case-sensitive) suffix `.pdf`, with anything in
/// between.
pub open spec fn spec_already_processed(name: Seq<char>) -> bool {
    &&& name.len() >= 12
    &&& forall|i: int| 0 <= i < 8 ==> '0' <= #[trigger] name[i] <= '9'
    &&& name.subrange(name.len() - 4, name.len() as int) == seq!['.', 'p', 'd', 'f']
}

/// Decides whether a base name matches the already-processed naming
/// convention.
pub fn is_already_processed(name: &str) -> (r: bool)
    ensures
        r == spec_already_processed(name@),
{
    let n = name.unicode_len();
    if n < 12 {
        return false;
    }
    let mut i: usize = 0;
    while i < 8
        invariant
            0 <= i <= 8,
            n == name@.len(),
            n >= 12,
            forall|j: int| 0 <= j < i ==> '0' <= #[trigger] name@[j] <= '9',
        decreases 8 - i,
    {
        let c = name.get_char(i);
        if !('0' <= c && c <= '9') {
            return false;
        }
        i += 1;
    }
    let suffix_ok = name.get_char(n - 4) == '.' && name.get_char(n - 3) == 'p'
        && name.get_char(n - 2) == 'd' && name.get_char(n - 1) == 'f';
    proof {
        let tail = name@.subrange(n - 4, n as int);
        assert(tail.len() == 4);
        assert(tail[0] == name@[n - 4] && tail[1] == name@[n - 3] && tail[2] == name@[n - 2]
            && tail[3] == name@[n - 1]);
        if suffix_ok {
            assert(tail =~= seq!['.', 'p', 'd', 'f']);
        } else {
            assert(tail != seq!['.', 'p', 'd', 'f']);
        }
    }
    suffix_ok
}

/// Whether a path stays in the candidate list.
pub open spec fn sp_keep(p: String) -> bool {
    !spec_already_processed(sp_base_name(p@))
}

/// The candidate subsequence of a path list: every path whose base name does
/// not match the already-processed convention, in the original order,
/// without deduplication.
pub open spec fn sp_selected(paths: Seq<String>) -> Seq<String> {
    paths.filter(|p: String| sp_keep(p))
}

/// Filters a path list down to the candidates still to process.
pub fn select_candidates(paths: &Vec<String>) -> (r: Vec<String>)
    ensures
        r@ == sp_selected(paths@),
{
    let mut out: Vec<String> = Vec::new();
    let mut i: usize = 0;
    proof {
        assert(paths@.take(0) =~= Seq::<String>::empty());
        assert(sp_selected(paths@.take(0)) =~= Seq::<String>::empty());
    }
    while i < paths.len()
        invariant
            i <= paths@.len(),
            out@ == sp_selected(paths@.take(i as int)),
        decreases paths@.len() - i,
    {
        proof {
            assert(paths@.take((i + 1) as int).drop_last() =~= paths@.take(i as int));
            assert(paths@.take((i + 1) as int).last() == paths@[i as int]);
            reveal_with_fuel(Seq::filter, 2);
        }
        let name = base_name(paths[i].as_str());
        if !is_already_processed(name.as_str()) {
            out.push(paths[i].clone());
        }
        i += 1;
    }
    proof {
        assert(paths@.take(paths@.len() as int) =~= paths@);
    }
    out
}

} // verus!

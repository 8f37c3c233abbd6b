//! Path handling on plain strings, with `/` as the separator: a path's base
//! name, and replacing the base name to form a rename target.

use vstd::prelude::*;

use crate::text::{chars_from_str, string_from_chars};

verus! {

/// What follows the last separator of a path; the whole path where it has no
/// separator.
pub open spec fn sp_base_name(path: Seq<char>) -> Seq<char>
    decreases path.len(),
{
    if path.len() == 0 {
        path
    } else if path.last() == '/' {
        Seq::empty()
    } else {
        sp_base_name(path.drop_last()).push(path.last())
    }
}

/// The base name never outgrows its path.
pub proof fn lemma_base_name_len(path: Seq<char>)
    ensures
        sp_base_name(path).len() <= path.len(),
    decreases path.len(),
{
    if path.len() > 0 && path.last() != '/' {
        lemma_base_name_len(path.drop_last());
    }
}

/// The path with its base name replaced: the prefix up to and including the
/// last separator, followed by `name`.
pub open spec fn sp_with_file_name(path: Seq<char>, name: Seq<char>) -> Seq<char> {
    path.take(path.len() - sp_base_name(path).len()) + name
}

/// Where the cut before the base name lies, the base name is the suffix from
/// there.
proof fn lemma_base_name_cut(path: Seq<char>, cut: int)
    requires
        0 <= cut <= path.len(),
        cut > 0 ==> path[cut - 1] == '/',
        forall|k: int| cut <= k < path.len() ==> path[k] != '/',
    ensures
        sp_base_name(path) == path.subrange(cut, path.len() as int),
    decreases path.len(),
{
    if path.len() == 0 {
        assert(path.subrange(0, 0) =~= path);
    } else if path.last() == '/' {
        assert(cut == path.len());
        assert(path.subrange(cut, path.len() as int) =~= Seq::<char>::empty());
    } else {
        assert(cut < path.len());
        lemma_base_name_cut(path.drop_last(), cut);
        assert(path.drop_last().subrange(cut, path.len() - 1).push(path.last()) =~= path.subrange(
            cut,
            path.len() as int,
        ));
    }
}

/// The position just after the last separator; `0` where there is none.
fn base_cut(chars: &Vec<char>) -> (cut: usize)
    ensures
        cut <= chars@.len(),
        cut as int == chars@.len() - sp_base_name(chars@).len(),
        sp_base_name(chars@) == chars@.subrange(cut as int, chars@.len() as int),
{
    let n = chars.len();
    let mut cut = n;
    while cut > 0
        invariant_except_break
            cut <= n,
            n == chars@.len(),
            forall|k: int| cut <= k < n ==> chars@[k] != '/',
        ensures
            cut <= n,
            n == chars@.len(),
            forall|k: int| cut <= k < n ==> chars@[k] != '/',
            cut > 0 ==> chars@[cut - 1] == '/',
        decreases cut,
    {
        if chars[cut - 1] == '/' {
            break ;
        }
        cut -= 1;
    }
    proof {
        lemma_base_name_cut(chars@, cut as int);
    }
    cut
}

/// The base name of a path.
pub fn base_name(path: &str) -> (r: String)
    ensures
        r@ == sp_base_name(path@),
{
    let chars = chars_from_str(path);
    let cut = base_cut(&chars);
    let n = chars.len();
    let mut out: Vec<char> = Vec::new();
    let mut k = cut;
    proof {
        assert(chars@.subrange(cut as int, cut as int) =~= Seq::<char>::empty());
    }
    while k < n
        invariant
            cut <= k <= n,
            n == chars@.len(),
            out@ == chars@.subrange(cut as int, k as int),
        decreases n - k,
    {
        out.push(chars[k]);
        proof {
            assert(chars@.subrange(cut as int, k as int).push(chars@[k as int]) =~= chars@.subrange(
                cut as int,
                (k + 1) as int,
            ));
        }
        k += 1;
    }
    string_from_chars(&out)
}

/// The path with its base name replaced by `name`.
pub fn with_file_name(path: &str, name: &str) -> (r: String)
    ensures
        r@ == sp_with_file_name(path@, name@),
{
    let chars = chars_from_str(path);
    let cut = base_cut(&chars);
    let mut out: Vec<char> = Vec::new();
    let mut k: usize = 0;
    proof {
        assert(chars@.subrange(0, 0) =~= Seq::<char>::empty());
    }
    while k < cut
        invariant
            k <= cut <= chars@.len(),
            out@ == chars@.subrange(0, k as int),
        decreases cut - k,
    {
        out.push(chars[k]);
        proof {
            assert(chars@.subrange(0, k as int).push(chars@[k as int]) =~= chars@.subrange(
                0,
                (k + 1) as int,
            ));
        }
        k += 1;
    }
    let prefix = string_from_chars(&out);
    proof {
        assert(chars@.subrange(0, cut as int) =~= chars@.take(
            chars@.len() - sp_base_name(chars@).len(),
        ));
    }
    prefix.concat(name)
}

} // verus!

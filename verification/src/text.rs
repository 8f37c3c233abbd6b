//! Character-level text utilities shared by the pipeline: conversions
//! between `&str`/`String` and `Vec<char>`, and literal substring
//! replacement (the only templating the prompt needs).

use vstd::prelude::*;

verus! {

/// Relies on std's `String::push`, which appends the given character to the
/// end of the string.
pub assume_specification[ String::push ](s: &mut String, c: char)
    ensures
        final(s)@ == old(s)@.push(c),
;

/// The characters of a string, as a vector.
pub fn chars_from_str(s: &str) -> (v: Vec<char>)
    ensures
        v@ == s@,
{
    let n = s.unicode_len();
    let mut v: Vec<char> = Vec::new();
    let mut i: usize = 0;
    while i < n
        invariant
            i <= n,
            n == s@.len(),
            v@ == s@.take(i as int),
        decreases n - i,
    {
        let c = s.get_char(i);
        v.push(c);
        proof {
            assert(s@.take(i as int).push(s@[i as int]) =~= s@.take((i + 1) as int));
        }
        i += 1;
    }
    proof {
        assert(s@.take(n as int) =~= s@);
    }
    v
}

/// A string holding exactly the given characters.
pub fn string_from_chars(v: &Vec<char>) -> (s: String)
    ensures
        s@ == v@,
{
    let mut s = String::new();
    let mut i: usize = 0;
    while i < v.len()
        invariant
            i <= v@.len(),
            s@ == v@.take(i as int),
        decreases v@.len() - i,
    {
        s.push(v[i]);
        proof {
            assert(v@.take(i as int).push(v@[i as int]) =~= v@.take((i + 1) as int));
        }
        i += 1;
    }
    proof {
        assert(v@.take(v@.len() as int) =~= v@);
    }
    s
}

/// Every occurrence of `pat` in `s`, scanned left to right without overlap,
/// replaced by `rep`.
pub open spec fn sp_replace_all(s: Seq<char>, pat: Seq<char>, rep: Seq<char>) -> Seq<char>
    recommends
        pat.len() >= 1,
    decreases s.len(),
{
    if pat.len() == 0 || s.len() < pat.len() {
        s
    } else if s.take(pat.len() as int) == pat {
        rep + sp_replace_all(s.skip(pat.len() as int), pat, rep)
    } else {
        seq![s[0]] + sp_replace_all(s.skip(1), pat, rep)
    }
}

/// Whether `pat` occurs in `s` starting at position `i`.
fn matches_at(s: &Vec<char>, i: usize, pat: &Vec<char>) -> (r: bool)
    requires
        i + pat@.len() <= s@.len(),
    ensures
        r == (s@.subrange(i as int, i as int + pat@.len() as int) == pat@),
{
    let slen = s.len();
    let mut j: usize = 0;
    while j < pat.len()
        invariant
            j <= pat@.len(),
            i + pat@.len() <= s@.len(),
            s@.len() == slen,
            forall|k: int| 0 <= k < j ==> s@[i + k] == pat@[k],
        decreases pat@.len() - j,
    {
        proof {
            assert(i + j < s@.len());
        }
        if s[i + j] != pat[j] {
            proof {
                let sub = s@.subrange(i as int, i as int + pat@.len() as int);
                assert(sub[j as int] != pat@[j as int]);
            }
            return false;
        }
        j += 1;
    }
    proof {
        assert(s@.subrange(i as int, i as int + pat@.len() as int) =~= pat@);
    }
    true
}

/// Literal substring replacement, leftmost and non-overlapping, exactly as
/// `sp_replace_all` states it.
pub fn replace_all(s: &Vec<char>, pat: &Vec<char>, rep: &Vec<char>) -> (r: Vec<char>)
    requires
        pat@.len() >= 1,
    ensures
        r@ == sp_replace_all(s@, pat@, rep@),
{
    let mut out: Vec<char> = Vec::new();
    let mut i: usize = 0;
    proof {
        assert(s@.skip(0) =~= s@);
        assert(Seq::<char>::empty() + sp_replace_all(s@, pat@, rep@) =~= sp_replace_all(
            s@,
            pat@,
            rep@,
        ));
    }
    while i < s.len()
        invariant
            i <= s@.len(),
            pat@.len() >= 1,
            sp_replace_all(s@, pat@, rep@) == out@ + sp_replace_all(s@.skip(i as int), pat@, rep@),
        decreases s@.len() - i,
    {
        let ghost rest = s@.skip(i as int);
        if pat.len() <= s.len() - i && matches_at(s, i, pat) {
            proof {
                assert(rest.take(pat@.len() as int) =~= s@.subrange(
                    i as int,
                    i as int + pat@.len() as int,
                ));
                assert(rest.skip(pat@.len() as int) =~= s@.skip(i as int + pat@.len() as int));
                assert(sp_replace_all(rest, pat@, rep@) == rep@ + sp_replace_all(
                    rest.skip(pat@.len() as int),
                    pat@,
                    rep@,
                ));
            }
            let mut j: usize = 0;
            let ghost out0 = out@;
            while j < rep.len()
                invariant
                    j <= rep@.len(),
                    out@ == out0 + rep@.take(j as int),
                decreases rep@.len() - j,
            {
                out.push(rep[j]);
                proof {
                    assert(rep@.take(j as int).push(rep@[j as int]) =~= rep@.take((j + 1) as int));
                }
                j += 1;
            }
            proof {
                assert(rep@.take(rep@.len() as int) =~= rep@);
                assert(out0 + rep@ + sp_replace_all(s@.skip(i as int + pat@.len() as int), pat@, rep@)
                    =~= out0 + (rep@ + sp_replace_all(s@.skip(i as int + pat@.len() as int), pat@, rep@)));
            }
            i += pat.len();
        } else {
            proof {
                if rest.len() >= pat@.len() {
                    assert(rest.take(pat@.len() as int) =~= s@.subrange(
                        i as int,
                        i as int + pat@.len() as int,
                    ));
                }
                assert(rest[0] == s@[i as int]);
                assert(rest.skip(1) =~= s@.skip(i as int + 1));
                if rest.len() >= pat@.len() {
                    assert(sp_replace_all(rest, pat@, rep@) == seq![s@[i as int]]
                        + sp_replace_all(s@.skip(i as int + 1), pat@, rep@));
                } else {
                    assert(rest =~= seq![s@[i as int]] + rest.skip(1));
                    assert(sp_replace_all(rest, pat@, rep@) == rest);
                    assert(sp_replace_all(s@.skip(i as int + 1), pat@, rep@) == s@.skip(
                        i as int + 1,
                    ));
                }
            }
            let ghost out0 = out@;
            out.push(s[i]);
            proof {
                assert(out0 + (seq![s@[i as int]] + sp_replace_all(
                    s@.skip(i as int + 1),
                    pat@,
                    rep@,
                )) =~= out@ + sp_replace_all(s@.skip(i as int + 1), pat@, rep@));
            }
            i += 1;
        }
    }
    proof {
        assert(s@.skip(i as int) =~= Seq::<char>::empty());
        assert(sp_replace_all(s@.skip(i as int), pat@, rep@) == s@.skip(i as int));
        assert(out@ + s@.skip(i as int) =~= out@);
    }
    out
}

} // verus!

//! The library's path model: Unix-style textual paths. Every reference in a
//! config file is resolved against the directory of the file that declared
//! it, so joining and parent-directory computation are part of the logic.
use vstd::prelude::*;
use vstd::string::StrSliceExecFns;
use vstd::string::StringExecFns;
use crate::textops::matches_at;

verus! {

broadcast use vstd::string::group_string_axioms;

/// Joins a relative path onto a base directory: an absolute `rel` stands
/// alone, an empty base contributes nothing, and otherwise a single `/`
/// separates the two parts.
pub open spec fn join_spec(base: Seq<char>, rel: Seq<char>) -> Seq<char> {
    if rel.len() > 0 && rel[0] == '/' {
        rel
    } else if base.len() == 0 {
        rel
    } else if base[base.len() - 1] == '/' {
        base + rel
    } else {
        base + seq!['/'] + rel
    }
}

/// Joins `rel` onto `base` as `join_spec` describes.
pub fn join(base: &str, rel: &str) -> (r: String)
    ensures
        r@ == join_spec(base@, rel@),
{
    let bn = base.unicode_len();
    let rn = rel.unicode_len();
    if rn > 0 && rel.get_char(0) == '/' {
        rel.to_owned()
    } else if bn == 0 {
        rel.to_owned()
    } else if base.get_char(bn - 1) == '/' {
        base.to_owned().concat(rel)
    } else {
        proof {
            reveal_strlit("/");
            assert("/"@ =~= seq!['/']);
        }
        let mut s = base.to_owned();
        s.append("/");
        s.append(rel);
        proof {
            assert(s@ =~= base@ + seq!['/'] + rel@);
        }
        s
    }
}

/// The directory that holds `p`: everything before the last `/`, the root
/// `/` itself when the last `/` is the first character, and empty when `p`
/// has no `/` at all.
pub open spec fn parent_dir_spec(p: Seq<char>) -> Seq<char>
    decreases p.len(),
{
    if p.len() == 0 {
        p
    } else if p.last() == '/' {
        if p.len() == 1 {
            p
        } else {
            p.drop_last()
        }
    } else {
        parent_dir_spec(p.drop_last())
    }
}

/// Computes the directory of `p` as `parent_dir_spec` describes.
pub fn parent_dir(p: &str) -> (r: String)
    ensures
        r@ == parent_dir_spec(p@),
{
    let n = p.unicode_len();
    proof {
        assert(p@.subrange(0, n as int) =~= p@);
    }
    let mut i: usize = n;
    while i > 0
        invariant
            0 <= i <= n,
            n == p@.len(),
            parent_dir_spec(p@) == parent_dir_spec(p@.subrange(0, i as int)),
            i < n ==> p@[i as int] != '/',
        decreases i,
    {
        let c = p.get_char(i - 1);
        proof {
            assert(p@.subrange(0, i as int).last() == p@[i - 1]);
            assert(p@.subrange(0, i as int).drop_last() =~= p@.subrange(0, i - 1));
        }
        if c == '/' {
            if i == 1 {
                proof {
                    assert(p@.subrange(0, 1) =~= seq!['/']);
                    reveal_strlit("/");
                    assert("/"@ =~= seq!['/']);
                }
                return "/".to_owned();
            } else {
                let piece = p.substring_char(0, i - 1);
                return piece.to_owned();
            }
        }
        i = i - 1;
    }
    proof {
        assert(p@.subrange(0, 0) =~= Seq::<char>::empty());
        assert(parent_dir_spec(p@) =~= Seq::<char>::empty());
    }
    String::new()
}

/// Whether `p` lies strictly below the directory `base`: `p` is `base`,
/// then `/`, then a non-empty remainder.
pub open spec fn has_dir_prefix(base: Seq<char>, p: Seq<char>) -> bool {
    p.len() > base.len() + 1 && p.subrange(0, base.len() as int) == base && p[base.len() as int]
        == '/'
}

/// The remainder of `p` below the directory `base`.
pub open spec fn strip_dir_prefix(base: Seq<char>, p: Seq<char>) -> Seq<char> {
    p.skip(base.len() + 1 as int)
}

/// Tests whether `p` lies below the directory `base`.
pub fn is_under_dir(base: &str, p: &str) -> (b: bool)
    ensures
        b == has_dir_prefix(base@, p@),
{
    let bn = base.unicode_len();
    let pn = p.unicode_len();
    if bn >= usize::MAX - 1 || pn <= bn + 1 {
        proof {
            if bn >= usize::MAX - 1 {
                assert(p@.len() <= usize::MAX);
                assert(!(p@.len() > base@.len() + 1));
            }
        }
        return false;
    }
    if !match_at_start(base, p) {
        return false;
    }
    p.get_char(bn) == '/'
}

fn match_at_start(base: &str, p: &str) -> (b: bool)
    ensures
        b == (base@.len() <= p@.len() && p@.subrange(0, base@.len() as int) == base@),
{
    let b = crate::textops::match_at(p, 0, base);
    proof {
        assert(matches_at(p@, 0, base@) == (base@.len() <= p@.len() && p@.subrange(
            0,
            base@.len() as int,
        ) == base@));
    }
    b
}

/// Strips the directory `base` from the front of `p`.
pub fn strip_under_dir(base: &str, p: &str) -> (r: String)
    requires
        has_dir_prefix(base@, p@),
    ensures
        r@ == strip_dir_prefix(base@, p@),
{
    let bn = base.unicode_len();
    let pn = p.unicode_len();
    let piece = p.substring_char(bn + 1, pn);
    proof {
        assert(p@.subrange(bn + 1, pn as int) =~= p@.skip(bn + 1));
    }
    piece.to_owned()
}

} // verus!

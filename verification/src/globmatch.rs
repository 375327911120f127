//! The exercise file selector's matching layer. Include patterns are
//! resolved against the exercise directory and compiled as globs; a file
//! is selected when at least one resolved pattern matches its full path.
//! Compilation and matching are the glob crate's; everything around them
//! is verified against the two named results below.
use vstd::prelude::*;
use vstd::seq_lib::group_seq_properties;
use crate::errors::Error;
use crate::paths::{join, join_spec};

verus! {

/// Whether a pattern parses as a glob and compiles to a matcher.
pub uninterp spec fn glob_pattern_ok(pattern: Seq<char>) -> bool;

/// Whether a compiled glob matches a path.
pub uninterp spec fn glob_match(pattern: Seq<char>, path: Seq<char>) -> bool;

/// Relies on globset::Glob::new, globset::GlobSetBuilder::build and
/// globset::GlobSet::is_match: whether a pattern parses and compiles, and
/// whether the compiled set accepts a path, are functions of the two
/// strings alone. The set builder is used rather than Glob::compile_matcher
/// because build propagates a regex compilation failure (an oversized
/// pattern, say) as an error, where compile_matcher would abort; either
/// kind of bad pattern therefore yields None.
#[verifier::external_body]
fn try_glob_match(pattern: &str, path: &str) -> (r: Option<bool>)
    ensures
        r is Some <==> glob_pattern_ok(pattern@),
        r matches Some(b) ==> b == glob_match(pattern@, path@),
{
    let glob = match globset::Glob::new(pattern) {
        Ok(g) => g,
        Err(_) => return None,
    };
    let mut builder = globset::GlobSetBuilder::new();
    builder.add(glob);
    match builder.build() {
        Ok(set) => Some(set.is_match(path)),
        Err(_) => None,
    }
}

/// Whether every include pattern of an exercise, resolved against the
/// exercise directory, is a well-formed glob.
pub open spec fn all_globs_ok(exdir: Seq<char>, includes: Seq<String>) -> bool {
    forall|k: int|
        0 <= k < includes.len() ==> glob_pattern_ok(join_spec(exdir, #[trigger] includes[k]@))
}

/// Whether a file under the exercise directory is selected: at least one
/// resolved include pattern matches its full path.
pub open spec fn file_selected(exdir: Seq<char>, includes: Seq<String>, path: Seq<char>) -> bool {
    exists|k: int|
        0 <= k < includes.len() && glob_match(join_spec(exdir, #[trigger] includes[k]@), path)
}

/// Checks that every resolved include pattern compiles; reports the first
/// one that does not: every pattern before the reported one compiles.
pub fn check_globs(exdir: &String, includes: &Vec<String>) -> (r: Result<(), Error>)
    ensures
        r is Ok <==> all_globs_ok(exdir@, includes@),
        r matches Err(e) ==> e matches Error::InvalidGlob { pattern } && exists|k: int|
            0 <= k < includes@.len() && pattern@ == join_spec(exdir@, #[trigger] includes@[k]@)
            && !glob_pattern_ok(pattern@) && (forall|t: int|
                0 <= t < k ==> glob_pattern_ok(join_spec(exdir@, #[trigger] includes@[t]@))),
{
    let n = includes.len();
    let mut k: usize = 0;
    while k < n
        invariant
            0 <= k <= n,
            n == includes@.len(),
            forall|t: int|
                0 <= t < k ==> glob_pattern_ok(join_spec(exdir@, #[trigger] includes@[t]@)),
        decreases n - k,
    {
        let pattern = join(exdir.as_str(), includes[k].as_str());
        if try_glob_match(pattern.as_str(), "").is_none() {
            proof {
                assert(pattern@ == join_spec(exdir@, includes@[k as int]@)
                    && !glob_pattern_ok(pattern@) && (forall|t: int|
                    0 <= t < k ==> glob_pattern_ok(
                        join_spec(exdir@, #[trigger] includes@[t]@),
                    )));
            }
            return Err(Error::InvalidGlob { pattern });
        }
        k = k + 1;
    }
    Ok(())
}

/// Selects, in listing order, every listed file that at least one
/// resolved include pattern matches: exactly the glob-matched set.
pub fn select_files(exdir: &String, includes: &Vec<String>, files: &Vec<String>) -> (r: Result<
    Vec<String>,
    Error,
>)
    ensures
        r is Ok <==> all_globs_ok(exdir@, includes@),
        r matches Ok(sel) ==> sel@ == files@.filter(
            |f: String| file_selected(exdir@, includes@, f@),
        ),
        r matches Err(e) ==> e matches Error::InvalidGlob { pattern } && exists|k: int|
            0 <= k < includes@.len() && pattern@ == join_spec(exdir@, #[trigger] includes@[k]@)
            && !glob_pattern_ok(pattern@),
{
    broadcast use group_seq_properties;

    match check_globs(exdir, includes) {
        Err(e) => {
            return Err(e);
        },
        Ok(()) => {},
    }
    let ghost pred = |f: String| file_selected(exdir@, includes@, f@);
    let n = files.len();
    let mut sel: Vec<String> = Vec::new();
    proof {
        reveal(Seq::filter);
        assert(files@.subrange(0, 0) =~= Seq::<String>::empty());
        assert(sel@ =~= files@.subrange(0, 0).filter(pred));
    }
    let mut i: usize = 0;
    while i < n
        invariant
            0 <= i <= n,
            n == files@.len(),
            all_globs_ok(exdir@, includes@),
            pred == (|f: String| file_selected(exdir@, includes@, f@)),
            sel@ == files@.subrange(0, i as int).filter(pred),
        decreases n - i,
    {
        let f = &files[i];
        let m = includes.len();
        let mut matched = false;
        let mut k: usize = 0;
        while k < m
            invariant
                0 <= k <= m,
                m == includes@.len(),
                all_globs_ok(exdir@, includes@),
                f == files@[i as int],
                matched == exists|t: int|
                    0 <= t < k && glob_match(join_spec(exdir@, #[trigger] includes@[t]@), f@),
            decreases m - k,
        {
            if !matched {
                let pattern = join(exdir.as_str(), includes[k].as_str());
                let r = try_glob_match(pattern.as_str(), f.as_str());
                match r {
                    Some(b) => {
                        if b {
                            matched = true;
                        }
                    },
                    None => {},
                }
            }
            k = k + 1;
        }
        proof {
            assert(matched == pred(files@[i as int]));
        }
        if matched {
            sel.push(f.clone());
        }
        proof {
            reveal(Seq::filter);
            assert(files@.subrange(0, i + 1).drop_last() =~= files@.subrange(0, i as int));
            assert(files@.subrange(0, i + 1).last() == files@[i as int]);
        }
        i = i + 1;
    }
    proof {
        assert(files@.subrange(0, n as int) =~= files@);
    }
    Ok(sel)
}

} // verus!

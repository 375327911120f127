//! Numbered tags: a zero-padded 1-based sequence number, a dash, and the
//! normalized entity name. Tags name the output directories, and the
//! sequence number keeps sibling tags unique whatever the names are.
use vstd::prelude::*;
use vstd::string::StrSliceExecFns;
use vstd::string::StringExecFns;

verus! {

broadcast use vstd::string::group_string_axioms;

/// The decimal digit character for `d` in `0..10`.
pub open spec fn digit_char(d: int) -> char {
    if d == 0 {
        '0'
    } else if d == 1 {
        '1'
    } else if d == 2 {
        '2'
    } else if d == 3 {
        '3'
    } else if d == 4 {
        '4'
    } else if d == 5 {
        '5'
    } else if d == 6 {
        '6'
    } else if d == 7 {
        '7'
    } else if d == 8 {
        '8'
    } else {
        '9'
    }
}

/// The decimal digits of `n`, most significant first.
pub open spec fn dec_rep(n: int) -> Seq<char>
    decreases n,
{
    if n < 10 {
        seq![digit_char(n)]
    } else {
        dec_rep(n / 10).push(digit_char(n % 10))
    }
}

/// The decimal digits of `n`, padded with a leading zero to width two.
pub open spec fn pad2(n: int) -> Seq<char> {
    if n < 10 {
        seq!['0'].push(digit_char(n))
    } else {
        dec_rep(n)
    }
}

/// Name normalization: ASCII upper case folds to lower case and spaces
/// become dashes; every other character is kept.
pub open spec fn normalize_char(c: char) -> char {
    if c == ' ' {
        '-'
    } else if 'A' <= c && c <= 'Z' {
        lower_table()[c as int - 'A' as int]
    } else {
        c
    }
}

/// The lower-case ASCII alphabet, indexed by letter position.
pub open spec fn lower_table() -> Seq<char> {
    "abcdefghijklmnopqrstuvwxyz"@
}

/// The normalized form of a name.
pub open spec fn normalize_spec(s: Seq<char>) -> Seq<char> {
    s.map_values(|c: char| normalize_char(c))
}

/// The numbered tag of the `i`-th sibling (1-based) named `name`.
pub open spec fn numbered_tag_spec(name: Seq<char>, i: int) -> Seq<char> {
    pad2(i) + seq!['-'] + normalize_spec(name)
}

fn push_digit(out: &mut String, d: usize)
    requires
        d < 10,
    ensures
        final(out)@ == old(out)@.push(digit_char(d as int)),
{
    let ds = "0123456789";
    proof {
        reveal_strlit("0123456789");
    }
    let piece = ds.substring_char(d, d + 1);
    proof {
        assert(piece@ =~= seq![digit_char(d as int)]);
        assert(old(out)@ + seq![digit_char(d as int)] =~= old(out)@.push(digit_char(d as int)));
    }
    out.append(piece);
}

fn push_dec(out: &mut String, n: usize)
    ensures
        final(out)@ == old(out)@ + dec_rep(n as int),
    decreases n,
{
    if n < 10 {
        push_digit(out, n);
        proof {
            assert(old(out)@.push(digit_char(n as int)) =~= old(out)@ + dec_rep(n as int));
        }
    } else {
        push_dec(out, n / 10);
        push_digit(out, n % 10);
        proof {
            assert((old(out)@ + dec_rep(n as int / 10)).push(digit_char(n as int % 10)) =~= old(
                out,
            )@ + dec_rep(n as int));
        }
    }
}

fn push_normalized(out: &mut String, name: &str)
    ensures
        final(out)@ == old(out)@ + normalize_spec(name@),
{
    let n = name.unicode_len();
    proof {
        assert(out@ + normalize_spec(name@.subrange(0, 0)) =~= out@);
    }
    let mut i: usize = 0;
    while i < n
        invariant
            0 <= i <= n,
            n == name@.len(),
            out@ == old(out)@ + normalize_spec(name@.subrange(0, i as int)),
        decreases n - i,
    {
        let c = name.get_char(i);
        if c == ' ' {
            proof {
                reveal_strlit("-");
                assert("-"@ =~= seq![normalize_char(' ')]);
            }
            out.append("-");
        } else if 'A' <= c && c <= 'Z' {
            let idx = (c as u32 - 65) as usize;
            let lower = "abcdefghijklmnopqrstuvwxyz";
            proof {
                reveal_strlit("abcdefghijklmnopqrstuvwxyz");
                assert(lower@ == lower_table());
                assert(idx < 26);
            }
            let piece = lower.substring_char(idx, idx + 1);
            proof {
                assert(piece@ =~= seq![normalize_char(c)]);
            }
            out.append(piece);
        } else {
            let piece = name.substring_char(i, i + 1);
            proof {
                assert(piece@ =~= seq![normalize_char(c)]);
            }
            out.append(piece);
        }
        proof {
            assert(name@.subrange(0, i + 1).drop_last() =~= name@.subrange(0, i as int));
            assert(normalize_spec(name@.subrange(0, i + 1)) =~= normalize_spec(
                name@.subrange(0, i as int),
            ).push(normalize_char(c)));
            assert(out@.push(normalize_char(c)) =~= out@ + seq![normalize_char(c)]);
        }
        i = i + 1;
    }
    proof {
        assert(name@.subrange(0, n as int) =~= name@);
    }
}

/// Builds the numbered tag of the `i`-th sibling named `name`.
pub fn to_numbered_tag(name: &str, i: usize) -> (r: String)
    ensures
        r@ == numbered_tag_spec(name@, i as int),
{
    let mut out = String::new();
    if i < 10 {
        push_digit(&mut out, 0);
        push_digit(&mut out, i);
        proof {
            assert(out@ =~= pad2(i as int));
        }
    } else {
        push_dec(&mut out, i);
        proof {
            assert(out@ =~= pad2(i as int));
        }
    }
    proof {
        reveal_strlit("-");
        assert("-"@ =~= seq!['-']);
    }
    out.append("-");
    push_normalized(&mut out, name);
    proof {
        assert(out@ =~= numbered_tag_spec(name@, i as int));
    }
    out
}

/// Whether `c` is a decimal digit character.
pub open spec fn is_digit_char(c: char) -> bool {
    '0' <= c && c <= '9'
}

proof fn lemma_dec_rep_digits(n: int)
    ensures
        dec_rep(n).len() >= 1,
        forall|k: int| 0 <= k < dec_rep(n).len() ==> is_digit_char(#[trigger] dec_rep(n)[k]),
        n >= 1 ==> dec_rep(n)[0] != '0',
        n >= 10 ==> dec_rep(n).len() >= 2,
    decreases n,
{
    if n >= 10 {
        lemma_dec_rep_digits(n / 10);
    }
}

proof fn lemma_digit_char_injective(x: int, y: int)
    requires
        0 <= x < 10,
        0 <= y < 10,
        digit_char(x) == digit_char(y),
    ensures
        x == y,
{
    assert(digit_char(0) == '0' && digit_char(1) == '1' && digit_char(2) == '2' && digit_char(3)
        == '3' && digit_char(4) == '4' && digit_char(5) == '5' && digit_char(6) == '6'
        && digit_char(7) == '7' && digit_char(8) == '8' && digit_char(9) == '9');
}

proof fn lemma_dec_rep_injective(a: int, b: int)
    requires
        a >= 0,
        b >= 0,
        dec_rep(a) == dec_rep(b),
    ensures
        a == b,
    decreases a,
{
    lemma_dec_rep_digits(a);
    lemma_dec_rep_digits(b);
    if a < 10 && b < 10 {
        assert(dec_rep(a)[0] == dec_rep(b)[0]);
        lemma_digit_char_injective(a, b);
    } else if a >= 10 && b >= 10 {
        assert(dec_rep(a).last() == dec_rep(b).last());
        assert(dec_rep(a).last() == digit_char(a % 10));
        assert(dec_rep(b).last() == digit_char(b % 10));
        lemma_digit_char_injective(a % 10, b % 10);
        assert(a % 10 == b % 10);
        assert(dec_rep(a).drop_last() =~= dec_rep(a / 10));
        assert(dec_rep(b).drop_last() =~= dec_rep(b / 10));
        lemma_dec_rep_injective(a / 10, b / 10);
    } else {
        assert(dec_rep(a).len() == dec_rep(b).len());
        assert(false);
    }
}

proof fn lemma_pad2_properties(n: int)
    requires
        n >= 0,
    ensures
        pad2(n).len() >= 2,
        forall|k: int| 0 <= k < pad2(n).len() ==> is_digit_char(#[trigger] pad2(n)[k]),
{
    lemma_dec_rep_digits(n);
}

proof fn lemma_pad2_injective(a: int, b: int)
    requires
        a >= 0,
        b >= 0,
        pad2(a) == pad2(b),
    ensures
        a == b,
{
    lemma_dec_rep_digits(a);
    lemma_dec_rep_digits(b);
    if a < 10 && b < 10 {
        assert(pad2(a)[1] == pad2(b)[1]);
        assert(pad2(a)[1] == digit_char(a));
        assert(pad2(b)[1] == digit_char(b));
        lemma_digit_char_injective(a, b);
    } else if a >= 10 && b >= 10 {
        lemma_dec_rep_injective(a, b);
    } else if a < 10 {
        assert(pad2(a)[0] == '0');
        assert(pad2(b)[0] != '0');
    } else {
        assert(pad2(b)[0] == '0');
        assert(pad2(a)[0] != '0');
    }
}

/// Law: numbered tags of siblings are unique. Two tags built with distinct
/// 1-based indices differ as strings, whatever the two names are; since
/// siblings are tagged with strictly increasing indices in declaration
/// order, no two siblings share a tag.
pub proof fn lemma_numbered_tags_unique(name1: Seq<char>, i: int, name2: Seq<char>, j: int)
    requires
        i >= 1,
        j >= 1,
        i != j,
    ensures
        numbered_tag_spec(name1, i) != numbered_tag_spec(name2, j),
{
    let a = numbered_tag_spec(name1, i);
    let b = numbered_tag_spec(name2, j);
    lemma_pad2_properties(i);
    lemma_pad2_properties(j);
    let la = pad2(i).len() as int;
    let lb = pad2(j).len() as int;
    if a == b {
        assert(a[la] == '-');
        assert(b[lb] == '-');
        if la < lb {
            assert(b[la] == pad2(j)[la]);
            assert(is_digit_char(b[la]));
            assert(false);
        } else if lb < la {
            assert(a[lb] == pad2(i)[lb]);
            assert(is_digit_char(a[lb]));
            assert(false);
        } else {
            assert(pad2(i) =~= a.subrange(0, la));
            assert(pad2(j) =~= b.subrange(0, lb));
            lemma_pad2_injective(i, j);
            assert(false);
        }
    }
}

} // verus!

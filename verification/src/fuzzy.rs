//! The fuzzy matcher: Levenshtein edit distance and normalized similarity,
//! used to reconcile free-text artist and album names between systems that
//! share no identifiers. Similarity is `1 - distance / max(len)`, kept as
//! exact integer arithmetic: a per-mille value, and an exact rational
//! comparison against a threshold.

use vstd::prelude::*;

verus! {

/// The smaller of three values.
pub open spec fn spec_min3(a: int, b: int, c: int) -> int {
    if a <= b && a <= c {
        a
    } else if b <= c {
        b
    } else {
        c
    }
}

/// Levenshtein edit distance: the least number of single-character
/// insertions, deletions and substitutions turning `a` into `b`.
pub open spec fn spec_lev(a: Seq<char>, b: Seq<char>) -> int
    decreases a.len() + b.len(),
{
    if a.len() == 0 {
        b.len() as int
    } else if b.len() == 0 {
        a.len() as int
    } else {
        let cost: int = if a.last() == b.last() {
            0
        } else {
            1
        };
        spec_min3(
            spec_lev(a.drop_last(), b) + 1,
            spec_lev(a, b.drop_last()) + 1,
            spec_lev(a.drop_last(), b.drop_last()) + cost,
        )
    }
}

/// The distance never exceeds the longer input (substitute the overlap, then
/// insert or delete the rest), and is never negative.
pub proof fn lemma_lev_le_max(a: Seq<char>, b: Seq<char>)
    ensures
        0 <= spec_lev(a, b),
        spec_lev(a, b) <= if a.len() >= b.len() {
            a.len() as int
        } else {
            b.len() as int
        },
    decreases a.len() + b.len(),
{
    if a.len() > 0 && b.len() > 0 {
        lemma_lev_le_max(a.drop_last(), b);
        lemma_lev_le_max(a, b.drop_last());
        lemma_lev_le_max(a.drop_last(), b.drop_last());
    }
}

/// The characters of a string slice as a vector.
pub fn chars_of(s: &str) -> (r: Vec<char>)
    ensures
        r@ == s@,
{
    let n = s.unicode_len();
    let mut r: Vec<char> = Vec::new();
    for i in 0..n
        invariant
            n == s@.len(),
            r@ =~= s@.take(i as int),
    {
        r.push(s.get_char(i));
        proof {
            assert(r@ =~= s@.take(i + 1));
        }
    }
    proof {
        assert(s@.take(n as int) =~= s@);
    }
    r
}

/// The smaller of three machine words.
fn min3(a: usize, b: usize, c: usize) -> (r: usize)
    ensures
        r == spec_min3(a as int, b as int, c as int),
{
    if a <= b && a <= c {
        a
    } else if b <= c {
        b
    } else {
        c
    }
}

/// Levenshtein edit distance by dynamic programming over prefix pairs.
pub fn levenshtein_distance(s1: &str, s2: &str) -> (r: usize)
    requires
        s1@.len() + s2@.len() < usize::MAX,
    ensures
        r == spec_lev(s1@, s2@),
{
    let a = chars_of(s1);
    let b = chars_of(s2);
    let len1 = a.len();
    let len2 = b.len();
    let mut prev: Vec<usize> = Vec::new();
    for j in 0..(len2 + 1)
        invariant
            len2 == s2@.len(),
            len1 == s1@.len(),
            len1 + len2 < usize::MAX,
            prev@.len() == j,
            forall|k: int|
                0 <= k < j ==> #[trigger] prev@[k] == spec_lev(s1@.take(0), s2@.take(k)),
    {
        prev.push(j);
        proof {
            assert(s1@.take(0) =~= Seq::<char>::empty());
            assert(s2@.take(j as int).len() == j);
            assert(prev@[j as int] == spec_lev(s1@.take(0), s2@.take(j as int)));
        }
    }
    let mut i: usize = 1;
    while i <= len1
        invariant
            1 <= i <= len1 + 1,
            len1 == s1@.len(),
            len2 == s2@.len(),
            len1 + len2 < usize::MAX,
            a@ == s1@,
            b@ == s2@,
            a@.len() == len1,
            b@.len() == len2,
            prev@.len() == len2 + 1,
            forall|k: int|
                0 <= k <= len2 ==> #[trigger] prev@[k] == spec_lev(
                    s1@.take(i - 1),
                    s2@.take(k),
                ),
        decreases len1 + 1 - i,
    {
        let mut cur: Vec<usize> = Vec::new();
        cur.push(i);
        proof {
            assert(s2@.take(0) =~= Seq::<char>::empty());
            assert(s1@.take(i as int).len() == i);
            assert(cur@[0] == spec_lev(s1@.take(i as int), s2@.take(0)));
        }
        let mut j: usize = 1;
        while j <= len2
            invariant
                1 <= i <= len1,
                1 <= j <= len2 + 1,
                len1 == s1@.len(),
                len2 == s2@.len(),
                len1 + len2 < usize::MAX,
                a@ == s1@,
                b@ == s2@,
                a@.len() == len1,
                b@.len() == len2,
                prev@.len() == len2 + 1,
                forall|k: int|
                    0 <= k <= len2 ==> #[trigger] prev@[k] == spec_lev(
                        s1@.take(i - 1),
                        s2@.take(k),
                    ),
                cur@.len() == j,
                forall|k: int|
                    0 <= k < j ==> #[trigger] cur@[k] == spec_lev(
                        s1@.take(i as int),
                        s2@.take(k),
                    ),
            decreases len2 + 1 - j,
        {
            let cost: usize = if a[i - 1] == b[j - 1] {
                0
            } else {
                1
            };
            proof {
                lemma_lev_le_max(s1@.take(i - 1), s2@.take(j as int));
                lemma_lev_le_max(s1@.take(i as int), s2@.take(j - 1));
                lemma_lev_le_max(s1@.take(i - 1), s2@.take(j - 1));
                assert(s1@.take(i - 1).len() == i - 1);
                assert(s2@.take(j - 1).len() == j - 1);
                assert(s1@.take(i as int).len() == i);
                assert(s2@.take(j as int).len() == j);
            }
            let d = min3(prev[j] + 1, cur[j - 1] + 1, prev[j - 1] + cost);
            cur.push(d);
            proof {
                let ta = s1@.take(i as int);
                let tb = s2@.take(j as int);
                assert(ta.drop_last() =~= s1@.take(i - 1));
                assert(tb.drop_last() =~= s2@.take(j - 1));
                assert(ta.last() == s1@[i - 1]);
                assert(tb.last() == s2@[j - 1]);
                assert(s1@[i - 1] == a@[i - 1]);
                assert(s2@[j - 1] == b@[j - 1]);
                assert(cur@[j as int] == spec_lev(ta, tb));
            }
            j = j + 1;
        }
        prev = cur;
        i = i + 1;
    }
    proof {
        assert(s1@.take(len1 as int) =~= s1@);
        assert(s2@.take(len2 as int) =~= s2@);
    }
    prev[len2]
}

/// Normalized similarity: `1 - distance / max(len)`, with 1 for two empty
/// strings, as exact integer arithmetic scaled to thousandths (rounded down).
pub open spec fn spec_similarity_permille(a: Seq<char>, b: Seq<char>) -> int {
    if a.len() == 0 && b.len() == 0 {
        1000
    } else {
        let m: int = if a.len() >= b.len() {
            a.len() as int
        } else {
            b.len() as int
        };
        (m - spec_lev(a, b)) * 1000 / m
    }
}

/// Normalized Levenshtein similarity in thousandths: 1000 means equal (or
/// both empty), 0 means nothing in common.
pub fn similarity_permille(s1: &str, s2: &str) -> (r: u32)
    requires
        s1@.len() + s2@.len() < usize::MAX,
    ensures
        r == spec_similarity_permille(s1@, s2@),
        r <= 1000,
{
    let len1 = s1.unicode_len();
    let len2 = s2.unicode_len();
    if len1 == 0 && len2 == 0 {
        return 1000;
    }
    let d = levenshtein_distance(s1, s2);
    let m = if len1 >= len2 {
        len1
    } else {
        len2
    };
    proof {
        lemma_lev_le_max(s1@, s2@);
    }
    let num = (m - d) as u128 * 1000;
    let r = (num / m as u128) as u32;
    proof {
        let mi: int = m as int;
        let di: int = d as int;
        assert((mi - di) * 1000 / mi <= 1000) by (nonlinear_arith)
            requires
                0 < mi,
                0 <= di <= mi,
        ;
        assert((mi - di) * 1000 / mi >= 0) by (nonlinear_arith)
            requires
                0 < mi,
                0 <= di <= mi,
        ;
    }
    r
}

/// Whether the similarity of the two strings strictly exceeds the rational
/// threshold `num / den`: an exact comparison, free of rounding.
pub open spec fn spec_similarity_exceeds(a: Seq<char>, b: Seq<char>, num: int, den: int) -> bool {
    if a.len() == 0 && b.len() == 0 {
        den > num
    } else {
        let m: int = if a.len() >= b.len() {
            a.len() as int
        } else {
            b.len() as int
        };
        (m - spec_lev(a, b)) * den > num * m
    }
}

/// Compare the similarity of two strings against the threshold `num / den`.
pub fn similarity_exceeds(s1: &str, s2: &str, num: u32, den: u32) -> (r: bool)
    requires
        s1@.len() + s2@.len() < usize::MAX,
    ensures
        r == spec_similarity_exceeds(s1@, s2@, num as int, den as int),
{
    let len1 = s1.unicode_len();
    let len2 = s2.unicode_len();
    if len1 == 0 && len2 == 0 {
        return den > num;
    }
    let d = levenshtein_distance(s1, s2);
    let m = if len1 >= len2 {
        len1
    } else {
        len2
    };
    proof {
        lemma_lev_le_max(s1@, s2@);
    }
    proof {
        let mi: int = m as int;
        let di: int = d as int;
        assert((mi - di) * (den as int) <= u128::MAX) by (nonlinear_arith)
            requires
                0 <= mi - di <= u64::MAX,
                0 <= den as int <= u32::MAX,
        ;
        assert((num as int) * mi <= u128::MAX) by (nonlinear_arith)
            requires
                0 <= mi <= u64::MAX,
                0 <= num as int <= u32::MAX,
        ;
    }
    let lhs = (m - d) as u128 * den as u128;
    let rhs = num as u128 * m as u128;
    lhs > rhs
}


/// What `str::to_lowercase` returns for a given character sequence: named,
/// not written out — Unicode case folding is the standard library's job.
pub uninterp spec fn lower_of(s: Seq<char>) -> Seq<char>;

/// Relies on `str::to_lowercase`: the result depends on the characters
/// alone, and an empty string stays empty.
#[verifier::external_body]
pub(crate) fn lowercase(s: &str) -> (r: String)
    ensures
        r@ == lower_of(s@),
        s@.len() == 0 ==> r@.len() == 0,
{
    s.to_lowercase()
}

/// Case-normalized name equivalence: the lower-cased names are equal, or
/// their similarity strictly exceeds `num / den`. (The comparison is made
/// only when the lengths leave room for the distance arithmetic; real names
/// are nowhere near that bound.)
pub open spec fn spec_names_match(a: Seq<char>, b: Seq<char>, num: int, den: int) -> bool {
    ||| lower_of(a) == lower_of(b)
    ||| (lower_of(a).len() + lower_of(b).len() < usize::MAX && spec_similarity_exceeds(
        lower_of(a),
        lower_of(b),
        num,
        den,
    ))
}

/// Whether two free-text names refer to the same thing, by case-insensitive
/// equality or fuzzy similarity above `num / den`.
pub fn names_match(a: &str, b: &str, num: u32, den: u32) -> (r: bool)
    ensures
        r == spec_names_match(a@, b@, num as int, den as int),
{
    let la = lowercase(a);
    let lb = lowercase(b);
    if crate::enums::str_eq(la.as_str(), lb.as_str()) {
        return true;
    }
    let na = la.as_str().unicode_len();
    let nb = lb.as_str().unicode_len();
    if na < usize::MAX - nb {
        similarity_exceeds(la.as_str(), lb.as_str(), num, den)
    } else {
        false
    }
}

} // verus!

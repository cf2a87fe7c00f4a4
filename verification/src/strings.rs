//! Character-level string utilities: lexicographic comparison and an
//! insertion sort for owned strings, specified over the strings' character
//! sequences.

use vstd::prelude::*;

verus! {

/// Lexicographic order on character sequences (code-point order, which for
/// UTF-8 text agrees with byte order).
pub open spec fn spec_str_le(a: Seq<char>, b: Seq<char>) -> bool
    decreases a.len(),
{
    if a.len() == 0 {
        true
    } else if b.len() == 0 {
        false
    } else if a[0] == b[0] {
        spec_str_le(a.drop_first(), b.drop_first())
    } else {
        (a[0] as u32) < (b[0] as u32)
    }
}

/// Whether `a` comes at or before `b` in lexicographic order.
pub fn str_le(a: &str, b: &str) -> (r: bool)
    ensures
        r == spec_str_le(a@, b@),
{
    let na = a.unicode_len();
    let nb = b.unicode_len();
    let mut i: usize = 0;
    proof {
        assert(a@.skip(0) =~= a@);
        assert(b@.skip(0) =~= b@);
    }
    loop
        invariant
            i <= na,
            i <= nb,
            na == a@.len(),
            nb == b@.len(),
            spec_str_le(a@, b@) == spec_str_le(a@.skip(i as int), b@.skip(i as int)),
        decreases na - i,
    {
        proof {
            if i < na && i < nb {
                assert(a@.skip(i as int)[0] == a@[i as int]);
                assert(b@.skip(i as int)[0] == b@[i as int]);
                assert(a@.skip(i as int).drop_first() =~= a@.skip(i + 1));
                assert(b@.skip(i as int).drop_first() =~= b@.skip(i + 1));
            }
        }
        if i >= na {
            assert(a@.skip(i as int).len() == 0);
            return true;
        }
        if i >= nb {
            assert(a@.skip(i as int).len() > 0);
            assert(b@.skip(i as int).len() == 0);
            return false;
        }
        let ca = a.get_char(i);
        let cb = b.get_char(i);
        if ca != cb {
            return (ca as u32) < (cb as u32);
        }
        i = i + 1;
    }
}

/// Insert `x` into the already sorted `s`, in front of the first element it
/// precedes.
pub open spec fn spec_insert_sorted(s: Seq<Seq<char>>, x: Seq<char>) -> Seq<Seq<char>>
    decreases s.len(),
{
    if s.len() == 0 {
        seq![x]
    } else if spec_str_le(x, s[0]) {
        seq![x] + s
    } else {
        seq![s[0]] + spec_insert_sorted(s.drop_first(), x)
    }
}

/// Insertion sort, folding from the front.
pub open spec fn spec_sort_seqs(s: Seq<Seq<char>>) -> Seq<Seq<char>>
    decreases s.len(),
{
    if s.len() == 0 {
        Seq::empty()
    } else {
        spec_insert_sorted(spec_sort_seqs(s.drop_first()), s[0])
    }
}

/// Index of the first element that `x` precedes, or the length.
fn find_insert_pos(v: &Vec<String>, x: &String) -> (i: usize)
    ensures
        i <= v@.len(),
        forall|j: int| 0 <= j < i ==> !spec_str_le(x@, #[trigger] v.deep_view()[j]),
        i < v@.len() ==> spec_str_le(x@, v.deep_view()[i as int]),
{
    let n = v.len();
    let mut i: usize = 0;
    while i < n
        invariant
            i <= n,
            n == v@.len(),
            forall|j: int| 0 <= j < i ==> !spec_str_le(x@, #[trigger] v.deep_view()[j]),
        decreases n - i,
    {
        proof {
            assert(v.deep_view()[i as int] == v@[i as int]@);
        }
        if str_le(x.as_str(), v[i].as_str()) {
            return i;
        }
        i = i + 1;
    }
    i
}

/// Insert an owned string into a vector sorted by [`spec_str_le`].
fn insert_sorted(v: &mut Vec<String>, x: String)
    ensures
        final(v).deep_view() == spec_insert_sorted(old(v).deep_view(), x@),
{
    let ghost orig = v.deep_view();
    let i = find_insert_pos(v, &x);
    let ghost xv = x@;
    v.insert(i, x);
    proof {
        lemma_insert_sorted_at(orig, xv, i as int);
        assert forall|j: int| 0 <= j < v.deep_view().len() implies v.deep_view()[j]
            == orig.insert(i as int, xv)[j] by {
            assert(v.deep_view()[j] == v@[j]@);
        }
        assert(v.deep_view() =~= orig.insert(i as int, xv));
    }
}

/// Inserting at the first index whose element does not follow `x` is what
/// [`spec_insert_sorted`] does.
proof fn lemma_insert_sorted_at(s: Seq<Seq<char>>, x: Seq<char>, i: int)
    requires
        0 <= i <= s.len(),
        forall|j: int| 0 <= j < i ==> !spec_str_le(x, #[trigger] s[j]),
        i < s.len() ==> spec_str_le(x, s[i]),
    ensures
        spec_insert_sorted(s, x) == s.insert(i, x),
    decreases s.len(),
{
    if s.len() == 0 {
        assert(spec_insert_sorted(s, x) =~= s.insert(0, x));
    } else if i == 0 {
        assert(spec_insert_sorted(s, x) =~= s.insert(0, x));
    } else {
        assert(!spec_str_le(x, s[0]));
        let d = s.drop_first();
        assert forall|j: int| 0 <= j < i - 1 implies !spec_str_le(x, #[trigger] d[j]) by {
            assert(d[j] == s[j + 1]);
        }
        assert(i - 1 < d.len() ==> spec_str_le(x, d[i - 1]));
        lemma_insert_sorted_at(d, x, i - 1);
        assert(spec_insert_sorted(s, x) =~= seq![s[0]] + d.insert(i - 1, x));
        assert(seq![s[0]] + d.insert(i - 1, x) =~= s.insert(i, x));
    }
}

/// Sort owned strings lexicographically by insertion sort.
pub fn sort_strings(v: Vec<String>) -> (r: Vec<String>)
    ensures
        r.deep_view() == spec_sort_seqs(v.deep_view()),
{
    let ghost orig = v.deep_view();
    let mut v = v;
    let mut out: Vec<String> = Vec::new();
    proof {
        assert(orig.skip(0) =~= orig);
        assert(out.deep_view() =~= spec_sort_prefix(orig, 0));
    }
    let ghost mut i: int = 0;
    while v.len() > 0
        invariant
            i == orig.len() - v@.len(),
            0 <= i <= orig.len(),
            v.deep_view() =~= orig.skip(i as int),
            out.deep_view() == spec_sort_prefix(orig, i as int),
        decreases v@.len(),
    {
        proof {
            assert(i < orig.len());
            assert(v.deep_view()[0] == v@[0]@);
            assert(orig.skip(i as int)[0] == orig[i as int]);
        }
        let ghost dv0 = v.deep_view();
        let x = v.remove(0);
        proof {
            assert forall|j: int| 0 <= j < v.deep_view().len() implies v.deep_view()[j]
                == orig.skip(i + 1)[j] by {
                assert(v.deep_view()[j] == v@[j]@);
                assert(dv0[j + 1] == orig.skip(i as int)[j + 1]);
            }
            assert(v.deep_view() =~= orig.skip(i + 1));
            assert(x@ == orig[i as int]);
        }
        insert_sorted(&mut out, x);
        proof {
            i = i + 1;
        }
    }
    proof {
        lemma_sort_prefix_full(orig, orig.len() as int);
        assert(orig.take(orig.len() as int) =~= orig);
    }
    out
}

/// The sort of a prefix, folded front to back: what the sorting loop has
/// built after consuming `i` elements.
pub open spec fn spec_sort_prefix(s: Seq<Seq<char>>, i: int) -> Seq<Seq<char>>
    decreases i,
{
    if i <= 0 {
        Seq::empty()
    } else {
        spec_insert_sorted(spec_sort_prefix(s, i - 1), s[i - 1])
    }
}

/// Folding the whole sequence front to back computes [`spec_sort_seqs`].
proof fn lemma_sort_prefix_full(s: Seq<Seq<char>>, i: int)
    requires
        0 <= i <= s.len(),
    ensures
        spec_sort_prefix(s, i) == spec_sort_seqs(s.take(i)),
    decreases i,
{
    if i > 0 {
        lemma_sort_prefix_full(s, i - 1);
        lemma_sort_snoc(s.take(i - 1), s[i - 1]);
        assert(s.take(i - 1).push(s[i - 1]) =~= s.take(i));
    } else {
        assert(s.take(0) =~= Seq::<Seq<char>>::empty());
    }
}

/// Sorting `s.push(x)` is inserting `x` into the sorted `s`.
proof fn lemma_sort_snoc(s: Seq<Seq<char>>, x: Seq<char>)
    ensures
        spec_sort_seqs(s.push(x)) == spec_insert_sorted(spec_sort_seqs(s), x),
    decreases s.len(),
{
    if s.len() == 0 {
        assert(s.push(x)[0] == x);
        assert(s.push(x).drop_first() =~= Seq::<Seq<char>>::empty());
        assert(s =~= Seq::<Seq<char>>::empty());
        assert(spec_sort_seqs(s.push(x)) == spec_insert_sorted(
            spec_sort_seqs(Seq::<Seq<char>>::empty()),
            x,
        ));
    } else {
        assert(s.push(x)[0] == s[0]);
        assert(s.push(x).drop_first() =~= s.drop_first().push(x));
        lemma_sort_snoc(s.drop_first(), x);
        lemma_insert_sorted_commutes(spec_sort_seqs(s.drop_first()), x, s[0]);
        assert(spec_sort_seqs(s.push(x)) == spec_insert_sorted(
            spec_sort_seqs(s.drop_first().push(x)),
            s[0],
        ));
        assert(spec_sort_seqs(s) == spec_insert_sorted(spec_sort_seqs(s.drop_first()), s[0]));
    }
}

/// Two insertions into the same base commute.
proof fn lemma_insert_sorted_commutes(s: Seq<Seq<char>>, x: Seq<char>, y: Seq<char>)
    ensures
        spec_insert_sorted(spec_insert_sorted(s, x), y) == spec_insert_sorted(
            spec_insert_sorted(s, y),
            x,
        ),
    decreases s.len(),
{
    lemma_str_le_total(x, y);
    if s.len() == 0 {
        let sx = spec_insert_sorted(Seq::<Seq<char>>::empty(), x);
        let sy = spec_insert_sorted(Seq::<Seq<char>>::empty(), y);
        assert(sx =~= seq![x]);
        assert(sy =~= seq![y]);
        if spec_str_le(y, x) && spec_str_le(x, y) {
            lemma_str_le_antisym(x, y);
            assert(spec_insert_sorted(sx, y) =~= seq![y, x]);
            assert(spec_insert_sorted(sy, x) =~= seq![x, y]);
            assert(seq![y, x] =~= seq![x, y]);
        } else if spec_str_le(y, x) {
            assert(spec_insert_sorted(sx, y) =~= seq![y, x]);
            assert(seq![y].drop_first() =~= Seq::<Seq<char>>::empty());
            assert(spec_insert_sorted(sy, x) =~= seq![y] + spec_insert_sorted(Seq::empty(), x));
            assert(spec_insert_sorted(sy, x) =~= seq![y, x]);
        } else {
            assert(spec_insert_sorted(sy, x) =~= seq![x, y]);
            assert(seq![x].drop_first() =~= Seq::<Seq<char>>::empty());
            assert(spec_insert_sorted(sx, y) =~= seq![x] + spec_insert_sorted(Seq::empty(), y));
            assert(spec_insert_sorted(sx, y) =~= seq![x, y]);
        }
    } else {
        let h = s[0];
        let d = s.drop_first();
        if spec_str_le(x, h) && spec_str_le(y, h) {
            let sx = seq![x] + s;
            let sy = seq![y] + s;
            assert(spec_insert_sorted(s, x) =~= sx);
            assert(spec_insert_sorted(s, y) =~= sy);
            assert(sx[0] == x);
            assert(sx.drop_first() =~= s);
            assert(sy[0] == y);
            assert(sy.drop_first() =~= s);
            if spec_str_le(y, x) && spec_str_le(x, y) {
                lemma_str_le_antisym(x, y);
                assert(spec_insert_sorted(sx, y) =~= seq![y] + sx);
                assert(spec_insert_sorted(sy, x) =~= seq![x] + sy);
                assert(seq![y] + sx =~= seq![x] + sy);
            } else if spec_str_le(y, x) {
                assert(spec_insert_sorted(sx, y) =~= seq![y] + sx);
                assert(spec_insert_sorted(sy, x) =~= seq![y] + spec_insert_sorted(s, x));
                assert(seq![y] + spec_insert_sorted(s, x) =~= seq![y] + sx);
            } else {
                assert(spec_insert_sorted(sy, x) =~= seq![x] + sy);
                assert(spec_insert_sorted(sx, y) =~= seq![x] + spec_insert_sorted(s, y));
                assert(seq![x] + spec_insert_sorted(s, y) =~= seq![x] + sy);
            }
        } else if spec_str_le(x, h) {
            // x goes in front, y goes into the tail
            assert(spec_insert_sorted(s, x) =~= seq![x] + s);
            assert(spec_insert_sorted(s, y) =~= seq![h] + spec_insert_sorted(d, y));
            if spec_str_le(y, x) {
                lemma_str_le_trans(y, x, h);
                assert(false);
            }
            let sx = seq![x] + s;
            assert(sx[0] == x);
            assert(sx.drop_first() =~= s);
            assert(spec_insert_sorted(sx, y) =~= seq![x] + spec_insert_sorted(s, y));
            let sy = seq![h] + spec_insert_sorted(d, y);
            assert(sy[0] == h);
            assert(sy.drop_first() =~= spec_insert_sorted(d, y));
            assert(spec_insert_sorted(sy, x) =~= seq![x] + sy);
            assert(seq![x] + spec_insert_sorted(s, y) =~= seq![x] + (seq![h] + spec_insert_sorted(
                d,
                y,
            )));
        } else if spec_str_le(y, h) {
            // y goes in front, x goes into the tail: mirror of the case above
            assert(spec_insert_sorted(s, y) =~= seq![y] + s);
            assert(spec_insert_sorted(s, x) =~= seq![h] + spec_insert_sorted(d, x));
            if spec_str_le(x, y) {
                lemma_str_le_trans(x, y, h);
                assert(false);
            }
            let sy = seq![y] + s;
            assert(sy[0] == y);
            assert(sy.drop_first() =~= s);
            assert(spec_insert_sorted(sy, x) =~= seq![y] + spec_insert_sorted(s, x));
            let sx = seq![h] + spec_insert_sorted(d, x);
            assert(sx[0] == h);
            assert(sx.drop_first() =~= spec_insert_sorted(d, x));
            assert(spec_insert_sorted(sx, y) =~= seq![y] + sx);
            assert(seq![y] + spec_insert_sorted(s, x) =~= seq![y] + (seq![h] + spec_insert_sorted(
                d,
                x,
            )));
        } else {
            assert(spec_insert_sorted(s, x) =~= seq![h] + spec_insert_sorted(d, x));
            assert(spec_insert_sorted(s, y) =~= seq![h] + spec_insert_sorted(d, y));
            let ax = seq![h] + spec_insert_sorted(d, x);
            let ay = seq![h] + spec_insert_sorted(d, y);
            assert(ax[0] == h);
            assert(ax.drop_first() =~= spec_insert_sorted(d, x));
            assert(ay[0] == h);
            assert(ay.drop_first() =~= spec_insert_sorted(d, y));
            lemma_insert_sorted_commutes(d, x, y);
            assert(spec_insert_sorted(ax, y) =~= seq![h] + spec_insert_sorted(
                spec_insert_sorted(d, x),
                y,
            ));
            assert(spec_insert_sorted(ay, x) =~= seq![h] + spec_insert_sorted(
                spec_insert_sorted(d, y),
                x,
            ));
        }
    }
}

/// The order is total: at least one of the two directions holds.
pub proof fn lemma_str_le_total(a: Seq<char>, b: Seq<char>)
    ensures
        spec_str_le(a, b) || spec_str_le(b, a),
    decreases a.len(),
{
    if a.len() == 0 {
        assert(spec_str_le(a, b));
    } else if b.len() == 0 {
        assert(spec_str_le(b, a));
    } else if a[0] == b[0] {
        lemma_str_le_total(a.drop_first(), b.drop_first());
        assert(spec_str_le(a, b) == spec_str_le(a.drop_first(), b.drop_first()));
        assert(spec_str_le(b, a) == spec_str_le(b.drop_first(), a.drop_first()));
    } else {
        lemma_char_cast_injective(a[0], b[0]);
        if (a[0] as u32) < (b[0] as u32) {
            assert(spec_str_le(a, b));
        } else {
            assert(spec_str_le(b, a));
        }
    }
}

/// Distinct characters have distinct code points.
proof fn lemma_char_cast_injective(x: char, y: char)
    ensures
        x != y ==> (x as u32) != (y as u32),
{
}

/// The order is antisymmetric.
pub proof fn lemma_str_le_antisym(a: Seq<char>, b: Seq<char>)
    requires
        spec_str_le(a, b),
        spec_str_le(b, a),
    ensures
        a == b,
    decreases a.len(),
{
    if a.len() > 0 && b.len() > 0 && a[0] == b[0] {
        lemma_str_le_antisym(a.drop_first(), b.drop_first());
        assert(a =~= seq![a[0]] + a.drop_first());
        assert(b =~= seq![b[0]] + b.drop_first());
    } else {
        assert(a =~= b);
    }
}

/// The order is transitive.
pub proof fn lemma_str_le_trans(a: Seq<char>, b: Seq<char>, c: Seq<char>)
    requires
        spec_str_le(a, b),
        spec_str_le(b, c),
    ensures
        spec_str_le(a, c),
    decreases a.len(),
{
    if a.len() > 0 && b.len() > 0 && c.len() > 0 && a[0] == b[0] && b[0] == c[0] {
        lemma_str_le_trans(a.drop_first(), b.drop_first(), c.drop_first());
    }
}

} // verus!

//! The order of `String`s (by characters, as `Ord for str` compares them), and a
//! stable sort by such keys.
use vstd::prelude::*;

verus! {

/// `a < b` for strings: the first differing character decides, and a proper
/// prefix comes first.
pub open spec fn lex_lt(a: Seq<char>, b: Seq<char>) -> bool
    decreases a.len(),
{
    if a.len() == 0 {
        b.len() > 0
    } else if b.len() == 0 {
        false
    } else if a[0] != b[0] {
        (a[0] as u32) < (b[0] as u32)
    } else {
        lex_lt(a.drop_first(), b.drop_first())
    }
}

/// `<` on strings is a strict order: irreflexive and asymmetric.
pub proof fn lemma_lex_lt_asym(a: Seq<char>, b: Seq<char>)
    ensures
        lex_lt(a, b) ==> !lex_lt(b, a),
        lex_lt(a, b) ==> a != b,
    decreases a.len(),
{
    if a.len() > 0 && b.len() > 0 && a[0] == b[0] {
        lemma_lex_lt_asym(a.drop_first(), b.drop_first());
    }
}

/// Strings are ordered by their first differing character: where `a` and `b`
/// agree before index `i` and differ at `i`, `a < b` exactly when `a`'s character
/// there is the smaller, whatever the lengths of the two strings.
pub proof fn law_first_difference_decides(a: Seq<char>, b: Seq<char>, i: int)
    requires
        0 <= i < a.len(),
        i < b.len(),
        a.take(i) == b.take(i),
        a[i] != b[i],
    ensures
        lex_lt(a, b) == ((a[i] as u32) < (b[i] as u32)),
        lex_lt(b, a) == ((b[i] as u32) < (a[i] as u32)),
    decreases i,
{
    if i > 0 {
        assert(a[0] == a.take(i)[0] && b[0] == b.take(i)[0]);
        let (a1, b1) = (a.drop_first(), b.drop_first());
        assert(a1.take(i - 1) =~= b1.take(i - 1)) by {
            assert forall|k: int| 0 <= k < i - 1 implies a1[k] == b1[k] by {
                assert(a1[k] == a.take(i)[k + 1] && b1[k] == b.take(i)[k + 1]);
            }
        }
        law_first_difference_decides(a1, b1, i - 1);
    }
}

/// A proper prefix comes before each of its extensions, and never after.
pub proof fn law_prefix_comes_first(a: Seq<char>, b: Seq<char>)
    requires
        a.len() < b.len(),
        b.take(a.len() as int) == a,
    ensures
        lex_lt(a, b),
        !lex_lt(b, a),
    decreases a.len(),
{
    if a.len() > 0 {
        assert(b[0] == b.take(a.len() as int)[0]);
        let (a1, b1) = (a.drop_first(), b.drop_first());
        assert(b1.take(a1.len() as int) =~= a1) by {
            assert forall|k: int| 0 <= k < a1.len() implies b1[k] == a1[k] by {
                assert(b1[k] == b.take(a.len() as int)[k + 1]);
            }
        }
        law_prefix_comes_first(a1, b1);
    }
}

/// No string comes before itself.
pub proof fn law_lex_irreflexive(a: Seq<char>)
    ensures
        !lex_lt(a, a),
{
    lemma_lex_lt_asym(a, a);
}

/// Whether `a < b` for the characters of two strings.
pub fn lex_less(a: &Vec<char>, b: &Vec<char>) -> (r: bool)
    ensures
        r == lex_lt(a@, b@),
{
    let mut i: usize = 0;
    assert(a@.skip(0) =~= a@ && b@.skip(0) =~= b@);
    while i < a.len() && i < b.len() && a[i] == b[i]
        invariant
            i <= a.len(),
            i <= b.len(),
            lex_lt(a@, b@) == lex_lt(a@.skip(i as int), b@.skip(i as int)),
        decreases a.len() - i,
    {
        assert(a@.skip(i as int).drop_first() =~= a@.skip(i + 1));
        assert(b@.skip(i as int).drop_first() =~= b@.skip(i + 1));
        i = i + 1;
    }
    if i == a.len() {
        i < b.len()
    } else if i == b.len() {
        false
    } else {
        (a[i] as u32) < (b[i] as u32)
    }
}

/// `a` goes before `b` in ascending order, or, when `descending`, in descending order.
pub open spec fn goes_before(descending: bool, a: Seq<char>, b: Seq<char>) -> bool {
    if descending {
        lex_lt(b, a)
    } else {
        lex_lt(a, b)
    }
}

/// Whether `a` goes before `b`.
pub fn before(descending: bool, a: &Vec<char>, b: &Vec<char>) -> (r: bool)
    ensures
        r == goes_before(descending, a@, b@),
{
    if descending {
        lex_less(b, a)
    } else {
        lex_less(a, b)
    }
}

/// `p` is a permutation of the indices `0..n`.
pub open spec fn is_permutation(p: Seq<int>, n: int) -> bool {
    &&& p.len() == n
    &&& forall|k: int| 0 <= k < n ==> 0 <= #[trigger] p[k] < n
    &&& forall|a: int, b: int| 0 <= a < n && 0 <= b < n && a != b ==> #[trigger] p[a] != #[trigger] p[b]
}

/// `out` is `src` sorted stably by `keys` through the permutation `p`: its k-th
/// element is `src[p[k]]`, neighbours are in order, and elements with equal keys keep
/// their original order.
pub open spec fn stably_sorted<T>(src: Seq<T>, keys: Seq<Seq<char>>, out: Seq<T>, descending: bool, p: Seq<int>) -> bool {
    &&& is_permutation(p, src.len() as int)
    &&& out.len() == src.len()
    &&& forall|k: int| 0 <= k < out.len() ==> #[trigger] out[k] == src[p[k]]
    &&& forall|k: int|
        0 <= k < out.len() - 1 ==> !goes_before(descending, #[trigger] keys[p[k + 1]], keys[p[k]])
    &&& forall|a: int, b: int|
        0 <= a < b < out.len() && #[trigger] keys[p[a]] == #[trigger] keys[p[b]] ==> p[a] < p[b]
}

/// Sorts `items` stably by `keys` (`keys[i]` belongs to `items[i]`), as `sort_by` does.
pub fn stable_sort_by_keys<T>(items: Vec<T>, keys: Vec<Vec<char>>, descending: bool) -> (r: (Vec<T>, Ghost<Seq<int>>))
    requires
        items.len() == keys.len(),
    ensures
        stably_sorted(items@, keys@.map_values(|k: Vec<char>| k@), r.0@, descending, r.1@),
{
    let ghost src = items@;
    let ghost ks = keys@.map_values(|k: Vec<char>| k@);
    let mut items = items;
    let mut keys = keys;
    assert(items@.skip(0) =~= items@);
    let mut out: Vec<T> = Vec::new();
    let mut out_keys: Vec<Vec<char>> = Vec::new();
    let ghost mut perm: Seq<int> = Seq::empty();
    let ghost mut t: int = 0;
    while items.len() > 0
        invariant
            items.len() == keys.len(),
            0 <= t <= src.len(),
            items@ == src.skip(t),
            forall|k: int| 0 <= k < keys.len() ==> (#[trigger] keys@[k])@ == ks[t + k],
            ks.len() == src.len(),
            out.len() == t,
            out_keys.len() == t,
            perm.len() == t,
            forall|k: int| 0 <= k < t ==> 0 <= #[trigger] perm[k] < t,
            forall|a: int, b: int| 0 <= a < t && 0 <= b < t && a != b ==> #[trigger] perm[a] != #[trigger] perm[b],
            forall|k: int| 0 <= k < t ==> #[trigger] out@[k] == src[perm[k]],
            forall|k: int| 0 <= k < t ==> (#[trigger] out_keys@[k])@ == ks[perm[k]],
            forall|k: int| 0 <= k < t - 1 ==> !goes_before(descending, #[trigger] ks[perm[k + 1]], ks[perm[k]]),
            forall|a: int, b: int| 0 <= a < b < t && #[trigger] ks[perm[a]] == #[trigger] ks[perm[b]] ==> perm[a] < perm[b],
        decreases items.len(),
    {
        let x = items.remove(0);
        let kx = keys.remove(0);
        assert(x == src[t]);
        assert(kx@ == ks[t]);
        let mut j = out.len();
        while j > 0 && before(descending, &kx, &out_keys[j - 1])
            invariant
                j <= out.len(),
                out.len() == t,
                out_keys.len() == t,
                0 <= t < ks.len(),
                perm.len() == t,
                forall|k: int| 0 <= k < t ==> 0 <= #[trigger] perm[k] < t,
                kx@ == ks[t],
                forall|k: int| 0 <= k < t ==> (#[trigger] out_keys@[k])@ == ks[perm[k]],
                forall|k: int| j <= k < t ==> goes_before(descending, ks[t], #[trigger] ks[perm[k]]),
            decreases j,
        {
            j = j - 1;
        }
        proof {
            if j > 0 {
                assert(!goes_before(descending, ks[t], ks[perm[j - 1]]));
            }
        }
        let ghost old_perm = perm;
        let ghost old_out = out@;
        out.insert(j, x);
        out_keys.insert(j, kx);
        proof {
            perm = old_perm.insert(j as int, t);
            assert forall|k: int| 0 <= k <= t implies #[trigger] perm[k] == (if k < j {
                old_perm[k]
            } else if k == j {
                t
            } else {
                old_perm[k - 1]
            }) by {}
            assert forall|k: int| 0 <= k <= t - 1 implies !goes_before(
                descending,
                #[trigger] ks[perm[k + 1]],
                ks[perm[k]],
            ) by {
                if k + 1 < j {
                    assert(perm[k + 1] == old_perm[k + 1] && perm[k] == old_perm[k]);
                } else if k + 1 == j {
                    assert(perm[k + 1] == t && perm[k] == old_perm[k]);
                } else if k == j {
                    assert(perm[k + 1] == old_perm[k] && perm[k] == t);
                    assert(goes_before(descending, ks[t], ks[old_perm[k]]));
                    lemma_lex_lt_asym(ks[t], ks[old_perm[k]]);
                    lemma_lex_lt_asym(ks[old_perm[k]], ks[t]);
                } else {
                    assert(perm[k + 1] == old_perm[k] && perm[k] == old_perm[k - 1]);
                    let k0 = k - 1;
                    assert(!goes_before(descending, ks[old_perm[k0 + 1]], ks[old_perm[k0]]));
                }
            }
            assert forall|a: int, b: int|
                0 <= a < b <= t && #[trigger] ks[perm[a]] == #[trigger] ks[perm[b]] implies perm[a] < perm[b] by {
                if b == j {
                } else if a == j {
                    assert(goes_before(descending, ks[t], ks[old_perm[b - 1]]));
                    lemma_lex_lt_asym(ks[t], ks[old_perm[b - 1]]);
                    lemma_lex_lt_asym(ks[old_perm[b - 1]], ks[t]);
                } else {
                }
            }
            assert forall|a: int, b: int|
                0 <= a <= t && 0 <= b <= t && a != b implies #[trigger] perm[a] != #[trigger] perm[b] by {}
            assert forall|k: int| 0 <= k <= t implies #[trigger] out@[k] == src[perm[k]] by {}
            assert forall|k: int| 0 <= k <= t implies (#[trigger] out_keys@[k])@ == ks[perm[k]] by {}
            assert(items@ =~= src.skip(t + 1));
            assert forall|k: int| 0 <= k < keys.len() implies (#[trigger] keys@[k])@ == ks[t + 1 + k] by {}
            t = t + 1;
        }
    }
    proof {
        assert(t == src.len());
    }
    (out, Ghost(perm))
}

} // verus!

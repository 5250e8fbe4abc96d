use vstd::prelude::*;

verus! {

/// `p` lists every index in `0..n` exactly once.
pub open spec fn is_permutation(p: Seq<i64>, n: int) -> bool {
    &&& p.len() == n
    &&& forall|i: int| 0 <= i < p.len() ==> 0 <= #[trigger] p[i] < n
    &&& forall|i: int, j: int| 0 <= i < j < p.len() ==> p[i] != p[j]
}

/// A permutation of `0..n` reaches every index of that range.
pub proof fn lemma_permutation_covers(p: Seq<i64>, n: int, v: int)
    requires
        is_permutation(p, n),
        0 <= v < n,
    ensures
        exists|i: int| 0 <= i < n && #[trigger] p[i] == v,
{
    let values: Seq<int> = p.map_values(|x: i64| x as int);
    assert(values.no_duplicates()) by {
        assert forall|i: int, j: int|
            0 <= i < values.len() && 0 <= j < values.len() && i != j implies values[i]
            != values[j] by {
            if i < j {
                assert(p[i] != p[j]);
            } else {
                assert(p[j] != p[i]);
            }
        }
    }
    values.unique_seq_to_set();
    let range = vstd::set_lib::set_int_range(0, n);
    vstd::set_lib::lemma_int_range(0, n);
    assert(values.to_set().subset_of(range)) by {
        assert forall|x: int| values.to_set().contains(x) implies range.contains(x) by {
            let i = choose|i: int| 0 <= i < values.len() && values[i] == x;
            assert(0 <= p[i] < n);
        }
    }
    vstd::set_lib::lemma_subset_equality(values.to_set(), range);
    assert(range.contains(v));
    assert(values.to_set().contains(v));
    let i = choose|i: int| 0 <= i < values.len() && values[i] == v;
    assert(0 <= i < n && p[i] == v);
}

/// `s` read in the order that `p` gives: position `i` holds `s[p[i]]`.
pub open spec fn permuted<T>(s: Seq<T>, p: Seq<i64>) -> Seq<T> {
    Seq::new(p.len(), |i: int| s[p[i] as int])
}

/// Reading a sequence in the order of a permutation keeps every item as
/// often as it was there.
pub proof fn lemma_permuted_multiset<T>(s: Seq<T>, p: Seq<i64>)
    requires
        is_permutation(p, s.len() as int),
    ensures
        permuted(s, p).to_multiset() == s.to_multiset(),
    decreases s.len(),
{
    let n = s.len() as int;
    let t = permuted(s, p);
    if n == 0 {
        assert(t =~= s);
    } else {
        lemma_permutation_covers(p, n, n - 1);
        let k = choose|k: int| 0 <= k < n && #[trigger] p[k] == n - 1;
        let rest_p = p.remove(k);
        let rest_s = s.drop_last();
        assert(is_permutation(rest_p, n - 1)) by {
            assert forall|i: int| 0 <= i < rest_p.len() implies 0 <= #[trigger] rest_p[i] < n
                - 1 by {
                let at = if i < k { i } else { i + 1 };
                assert(rest_p[i] == p[at]);
                if at < k {
                    assert(p[at] != p[k]);
                } else {
                    assert(p[k] != p[at]);
                }
            }
            assert forall|i: int, j: int| 0 <= i < j < rest_p.len() implies rest_p[i]
                != rest_p[j] by {
                let a = if i < k { i } else { i + 1 };
                let b = if j < k { j } else { j + 1 };
                assert(rest_p[i] == p[a] && rest_p[j] == p[b]);
                assert(p[a] != p[b]);
            }
        }
        assert(permuted(rest_s, rest_p) =~= t.remove(k)) by {
            assert forall|i: int| 0 <= i < n - 1 implies permuted(rest_s, rest_p)[i] == t.remove(
                k,
            )[i] by {
                assert(0 <= rest_p[i] < n - 1);
            }
        }
        lemma_permuted_multiset(rest_s, rest_p);
        vstd::seq_lib::to_multiset_remove(t, k);
        assert(s =~= rest_s.push(s.last()));
        vstd::seq_lib::to_multiset_build(rest_s, s.last());
        assert(t[k] == s.last());
        t.to_multiset_ensures();
        assert(t.contains(t[k]));
        assert(t.to_multiset() =~= t.to_multiset().remove(t[k]).insert(t[k]));
    }
}

/// Decides whether `p` is a permutation of `0..p.len()`.
pub fn check_permutation(p: &Vec<i64>) -> (ok: bool)
    ensures
        ok == is_permutation(p@, p@.len() as int),
{
    let n: usize = p.len();
    let mut seen: Vec<bool> = Vec::new();
    let mut k: usize = 0;
    while k < n
        invariant
            k <= n,
            seen@.len() == k,
            forall|v: int| 0 <= v < k ==> !(#[trigger] seen@[v]),
        decreases n - k,
    {
        seen.push(false);
        k += 1;
    }
    let mut i: usize = 0;
    while i < n
        invariant
            n == p@.len(),
            i <= n,
            seen@.len() == n,
            forall|a: int| 0 <= a < i ==> 0 <= #[trigger] p@[a] < n,
            forall|a: int, b: int| 0 <= a < b < i ==> p@[a] != p@[b],
            forall|v: int|
                0 <= v < n ==> (#[trigger] seen@[v] <==> exists|a: int|
                    0 <= a < i && p@[a] == v),
        decreases n - i,
    {
        let v: i64 = p[i];
        if v < 0 || v as u64 >= n as u64 {
            return false;
        }
        let slot: usize = v as usize;
        if seen[slot] {
            proof {
                let a = choose|a: int| 0 <= a < i && p@[a] == slot as int;
                assert(p@[a] == p@[i as int]);
            }
            return false;
        }
        seen.set(slot, true);
        proof {
            assert forall|w: int| 0 <= w < n implies (#[trigger] seen@[w] <==> exists|a: int|
                0 <= a < i + 1 && p@[a] == w) by {
                if w == slot as int {
                    assert(p@[i as int] == w);
                } else {
                    if seen@[w] {
                        let a = choose|a: int| 0 <= a < i && p@[a] == w;
                        assert(0 <= a < i + 1 && p@[a] == w);
                    }
                }
            }
        }
        i += 1;
    }
    true
}

} // verus!

use vstd::prelude::*;
use crate::error::ElmoError;
use crate::example::rows;
use crate::permutation::{check_permutation, is_permutation, lemma_permutation_covers};

verus! {

/// The part of `n` that a ratio of `tenths` tenths gives, rounded down.
pub open spec fn share(n: int, tenths: int) -> int {
    (tenths * n) / 10
}

/// Sizes of the train, dev and test sets for `n` samples: eight tenths and
/// one tenth, each rounded down, and whatever is left.
pub open spec fn split_sizes(n: int) -> Seq<int> {
    seq![share(n, 8), share(n, 1), n - share(n, 8) - share(n, 1)]
}

/// `parts` are the three contiguous chunks of `p`, cut at the split sizes.
pub open spec fn is_split_of<T>(parts: Seq<Seq<T>>, p: Seq<T>) -> bool {
    let n = p.len() as int;
    let a = split_sizes(n)[0];
    let b = split_sizes(n)[0] + split_sizes(n)[1];
    &&& parts.len() == 3
    &&& parts[0] == p.subrange(0, a)
    &&& parts[1] == p.subrange(a, b)
    &&& parts[2] == p.subrange(b, n)
}

/// Some part holds the index `v`.
pub open spec fn holds_index(parts: Seq<Seq<i64>>, v: int) -> bool {
    exists|k: int, i: int|
        0 <= k < parts.len() && 0 <= i < parts[k].len() && #[trigger] parts[k][i] == v
}

/// The three `parts` hold only indices of `0..n`, none of them twice, and
/// together all of them.
pub open spec fn is_partition(parts: Seq<Seq<i64>>, n: int) -> bool {
    &&& parts.len() == 3
    &&& parts[0].len() + parts[1].len() + parts[2].len() == n
    &&& forall|k: int, i: int|
        0 <= k < 3 && 0 <= i < parts[k].len() ==> 0 <= #[trigger] parts[k][i] < n
    &&& forall|k: int, i: int, l: int, j: int|
        0 <= k < 3 && 0 <= l < 3 && 0 <= i < parts[k].len() && 0 <= j < parts[l].len() && (k != l
            || i != j) ==> #[trigger] parts[k][i] != #[trigger] parts[l][j]
    &&& forall|v: int| 0 <= v < n ==> #[trigger] holds_index(parts, v)
}

/// Cutting a permutation of `0..n` at the split sizes partitions `0..n`:
/// the part sizes add up to `n`, no index lies in two parts, and every
/// index lies in one.
pub proof fn lemma_split_is_partition(parts: Seq<Seq<i64>>, p: Seq<i64>, n: int)
    requires
        0 <= n,
        is_permutation(p, n),
        is_split_of(parts, p),
    ensures
        is_partition(parts, n),
        parts[0].len() == split_sizes(n)[0],
        parts[1].len() == split_sizes(n)[1],
        parts[2].len() == split_sizes(n)[2],
{
    let a = split_sizes(n)[0];
    let b = split_sizes(n)[0] + split_sizes(n)[1];
    assert(0 <= a <= b <= n);
    let start = |k: int| if k == 0 { 0 } else if k == 1 { a } else { b };
    assert forall|k: int, i: int| 0 <= k < 3 && 0 <= i < parts[k].len() implies #[trigger] parts[k][i]
        == p[start(k) + i] by {}
    assert forall|k: int, i: int, l: int, j: int|
        0 <= k < 3 && 0 <= l < 3 && 0 <= i < parts[k].len() && 0 <= j < parts[l].len() && (k != l
            || i != j) implies #[trigger] parts[k][i] != #[trigger] parts[l][j] by {
        let x = start(k) + i;
        let y = start(l) + j;
        assert(parts[k][i] == p[x]);
        assert(parts[l][j] == p[y]);
        assert(x != y);
        if x < y {
            assert(p[x] != p[y]);
        } else {
            assert(p[y] != p[x]);
        }
    }
    assert forall|v: int| 0 <= v < n implies #[trigger] holds_index(parts, v) by {
        lemma_permutation_covers(p, n, v);
        let x = choose|x: int| 0 <= x < n && #[trigger] p[x] == v;
        if x < a {
            assert(parts[0][x] == v);
        } else if x < b {
            assert(parts[1][x - a] == v);
        } else {
            assert(parts[2][x - b] == v);
        }
    }
}

/// The characters of each string in a list of lists of strings.
pub open spec fn text_rows(v: Seq<Vec<String>>) -> Seq<Seq<Seq<char>>> {
    v.map_values(|r: Vec<String>| r@.map_values(|s: String| s@))
}

/// The sentences in the order that `p` gives them.
pub open spec fn permuted_texts(sentences: Seq<String>, p: Seq<i64>) -> Seq<Seq<char>> {
    Seq::new(p.len(), |k: int| sentences[p[k] as int]@)
}

/// Copies the entries `from..to` of `v`.
fn copy_range(v: &Vec<i64>, from: usize, to: usize) -> (out: Vec<i64>)
    requires
        from <= to <= v@.len(),
    ensures
        out@ == v@.subrange(from as int, to as int),
{
    let mut out: Vec<i64> = Vec::new();
    let mut i: usize = from;
    while i < to
        invariant
            from <= i <= to <= v@.len(),
            out@ == v@.subrange(from as int, i as int),
        decreases to - i,
    {
        out.push(v[i]);
        proof {
            assert(out@ =~= v@.subrange(from as int, i + 1));
        }
        i += 1;
    }
    out
}

/// Clones the sentences that `indices` name, in that order.
fn select_sentences(sentences: &Vec<String>, indices: &Vec<i64>) -> (out: Vec<String>)
    requires
        forall|k: int| 0 <= k < indices@.len() ==> 0 <= #[trigger] indices@[k] < sentences@.len(),
    ensures
        out@.len() == indices@.len(),
        forall|k: int| 0 <= k < indices@.len() ==> #[trigger] out@[k] == sentences@[indices@[k] as int],
{
    let n: usize = sentences.len();
    let mut out: Vec<String> = Vec::new();
    let mut k: usize = 0;
    while k < indices.len()
        invariant
            n == sentences@.len(),
            k <= indices@.len(),
            out@.len() == k,
            forall|j: int| 0 <= j < indices@.len() ==> 0 <= #[trigger] indices@[j] < sentences@.len(),
            forall|j: int| 0 <= j < k ==> #[trigger] out@[j] == sentences@[indices@[j] as int],
        decreases indices@.len() - k,
    {
        assert(0 <= indices@[k as int] < n);
        let at: usize = indices[k] as usize;
        out.push(sentences[at].clone());
        k += 1;
    }
    out
}

/// Cuts a corpus into train, dev and test sets.
#[derive(Debug, Clone, Copy)]
pub struct Splitter;

impl Splitter {
    /// A splitter with the fixed ratios of eight, one and one tenth.
    pub fn new() -> (s: Self) {
        Splitter
    }

    /// The train, dev and test ratios in tenths; they make up one whole.
    fn get_split_train_dev_test_ratio(&self) -> (ratio: [i64; 3])
        ensures
            ratio[0] == 8,
            ratio[1] == 1,
            ratio[2] == 1,
            ratio[0] + ratio[1] + ratio[2] == 10,
    {
        [8, 1, 1]
    }

    /// The sizes of the three sets for `n_samples` samples.
    pub fn get_split_train_dev_test_sizes(&self, n_samples: i64) -> (sizes: Vec<i64>)
        requires
            n_samples >= 0,
        ensures
            sizes@.map_values(|s: i64| s as int) == split_sizes(n_samples as int),
            sizes@.len() == 3,
            sizes@[0] + sizes@[1] + sizes@[2] == n_samples,
            0 <= sizes@[0] && 0 <= sizes@[1] && 0 <= sizes@[2],
    {
        let ratio = self.get_split_train_dev_test_ratio();
        let wide: i128 = n_samples as i128;
        let train_tenths: i128 = ratio[0] as i128;
        let dev_tenths: i128 = ratio[1] as i128;
        assert(train_tenths * wide == 8 * wide && dev_tenths * wide == wide) by (nonlinear_arith)
            requires
                train_tenths == 8,
                dev_tenths == 1,
        ;
        let train: i64 = ((train_tenths * wide) / 10) as i64;
        let dev: i64 = ((dev_tenths * wide) / 10) as i64;
        let mut split_points: Vec<i64> = vec![train, dev];
        split_points.push(n_samples - train - dev);
        proof {
            assert(split_points@.map_values(|s: i64| s as int) =~= split_sizes(n_samples as int));
        }
        split_points
    }

    /// Cuts `permutation`, an arrangement of the indices `0..n_samples`, into
    /// the train, dev and test index sets: contiguous chunks of the split
    /// sizes. An argument that is no such arrangement is refused.
    pub fn get_split_train_dev_test_indices(&self, n_samples: i64, permutation: &Vec<i64>) -> (r:
        Result<Vec<Vec<i64>>, ElmoError>)
        requires
            n_samples > 0,
        ensures
            match r {
                Ok(splits) => {
                    &&& is_permutation(permutation@, n_samples as int)
                    &&& is_split_of(rows(splits@), permutation@)
                    &&& is_partition(rows(splits@), n_samples as int)
                    &&& rows(splits@)[0].len() == split_sizes(n_samples as int)[0]
                    &&& rows(splits@)[1].len() == split_sizes(n_samples as int)[1]
                    &&& rows(splits@)[2].len() == split_sizes(n_samples as int)[2]
                },
                Err(e) => e == ElmoError::Index && !is_permutation(permutation@, n_samples as int),
            },
    {
        if permutation.len() as u64 != n_samples as u64 {
            return Err(ElmoError::Index);
        }
        if !check_permutation(permutation) {
            return Err(ElmoError::Index);
        }
        let split_points: Vec<i64> = self.get_split_train_dev_test_sizes(n_samples);
        let a: usize = split_points[0] as usize;
        let b: usize = a + split_points[1] as usize;
        proof {
            let sizes = split_points@.map_values(|s: i64| s as int);
            assert(sizes[0] == split_points@[0] && sizes[1] == split_points@[1]);
        }
        let mut split_indices: Vec<Vec<i64>> = Vec::new();
        split_indices.push(copy_range(permutation, 0, a));
        split_indices.push(copy_range(permutation, a, b));
        split_indices.push(copy_range(permutation, b, permutation.len()));
        proof {
            lemma_split_is_partition(rows(split_indices@), permutation@, n_samples as int);
        }
        Ok(split_indices)
    }

    /// Distributes the sentences over train, dev and test as `permutation`
    /// orders them: the sentence at position `k` of the three sets, read one
    /// after the other, is the one that `permutation[k]` names.
    pub fn get_split_train_dev_test(&self, sentences: &Vec<String>, permutation: &Vec<i64>) -> (r:
        Result<Vec<Vec<String>>, ElmoError>)
        requires
            sentences@.len() > 0,
        ensures
            match r {
                Ok(splits) => {
                    &&& is_permutation(permutation@, sentences@.len() as int)
                    &&& is_split_of(text_rows(splits@), permuted_texts(sentences@, permutation@))
                },
                Err(e) => e == ElmoError::Index && (sentences@.len() > i64::MAX || !is_permutation(
                    permutation@,
                    sentences@.len() as int,
                )),
            },
    {
        if sentences.len() as u64 > i64::MAX as u64 {
            return Err(ElmoError::Index);
        }
        let n_samples: i64 = sentences.len() as i64;
        let split_indices = self.get_split_train_dev_test_indices(n_samples, permutation)?;
        let mut splits: Vec<Vec<String>> = Vec::new();
        let mut k: usize = 0;
        while k < 3
            invariant
                k <= 3,
                split_indices@.len() == 3,
                splits@.len() == k,
                is_permutation(permutation@, sentences@.len() as int),
                is_split_of(rows(split_indices@), permutation@),
                forall|j: int, i: int|
                    0 <= j < k && 0 <= i < split_indices@[j]@.len() ==> #[trigger] splits@[j]@[i]
                        == sentences@[split_indices@[j]@[i] as int],
                forall|j: int| 0 <= j < k ==> (#[trigger] splits@[j])@.len() == split_indices@[j]@.len(),
            decreases 3 - k,
        {
            let indices: &Vec<i64> = &split_indices[k];
            proof {
                let n = permutation@.len() as int;
                let a = split_sizes(n)[0];
                let b = split_sizes(n)[0] + split_sizes(n)[1];
                assert(rows(split_indices@)[k as int] == indices@);
                assert forall|i: int| 0 <= i < indices@.len() implies 0 <= #[trigger] indices@[i]
                    < sentences@.len() by {
                    if k == 0 {
                        assert(indices@[i] == permutation@[i]);
                    } else if k == 1 {
                        assert(indices@[i] == permutation@[a + i]);
                    } else {
                        assert(indices@[i] == permutation@[b + i]);
                    }
                }
            }
            let split = select_sentences(sentences, indices);
            splits.push(split);
            k += 1;
        }
        proof {
            let n = permutation@.len() as int;
            let a = split_sizes(n)[0];
            let b = split_sizes(n)[0] + split_sizes(n)[1];
            let texts = permuted_texts(sentences@, permutation@);
            let got = text_rows(splits@);
            assert(rows(split_indices@)[0] == split_indices@[0]@);
            assert(rows(split_indices@)[1] == split_indices@[1]@);
            assert(rows(split_indices@)[2] == split_indices@[2]@);
            assert(got[0] =~= texts.subrange(0, a));
            assert(got[1] =~= texts.subrange(a, b));
            assert(got[2] =~= texts.subrange(b, n));
        }
        Ok(splits)
    }
}

} // verus!

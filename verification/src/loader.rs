use vstd::prelude::*;
use crate::error::ElmoError;
use crate::example::{clone_input, clone_label, rows, Input, Label};
use crate::permutation::{check_permutation, is_permutation, lemma_permuted_multiset, permuted};

verus! {

/// Where the examples of a loader are to be placed when they are handed out.
#[derive(Debug, Clone, Copy, PartialEq, Eq, Structural)]
pub enum Device {
    Cpu,
    Cuda(usize),
    Mps,
    Vulkan,
}

/// The examples that parallel lists of inputs and labels hold, pair by pair.
pub open spec fn paired(xs: Seq<Input>, ys: Seq<Label>) -> Seq<(Seq<Seq<usize>>, Seq<usize>)> {
    Seq::new(xs.len(), |i: int| (rows(xs[i]@), ys[i]@))
}

/// Hands out examples one at a time, in their current order.
#[derive(Debug)]
pub struct Loader {
    xs: Vec<Input>,
    ys: Vec<Label>,
    device: Device,
    current_index: i64,
}

impl Loader {
    #[verifier::type_invariant]
    spec fn well_formed(self) -> bool {
        &&& self.xs@.len() == self.ys@.len()
        &&& self.xs@.len() <= i64::MAX
        &&& -1 <= self.current_index
        &&& self.current_index < self.xs@.len()
    }

    /// The (input, label) pairs in the order in which they are handed out.
    pub closed spec fn pairs(&self) -> Seq<(Seq<Seq<usize>>, Seq<usize>)> {
        paired(self.xs@, self.ys@)
    }

    /// The position of the pair handed out last; `-1` before the first.
    pub closed spec fn position(&self) -> int {
        self.current_index as int
    }

    /// The placement tag that the loader was made with.
    pub closed spec fn placement(&self) -> Device {
        self.device
    }

    /// A loader of the pairs that the two lists hold side by side, standing
    /// before the first of them.
    pub fn new(xs: Vec<Input>, ys: Vec<Label>, device: Device) -> (loader: Self)
        requires
            xs@.len() == ys@.len(),
            xs@.len() <= i64::MAX,
        ensures
            loader.pairs() == paired(xs@, ys@),
            loader.position() == -1,
            loader.placement() == device,
    {
        Self { xs: xs, ys: ys, device: device, current_index: -1 }
    }

    /// Reorders the examples as `permutation` says: afterwards position `i`
    /// holds the pair that stood at `permutation[i]`. Inputs and labels move
    /// together, and every pair is there as often as before. An argument
    /// that is no arrangement of the positions is refused and changes
    /// nothing.
    pub fn shuffle(&mut self, permutation: &Vec<i64>) -> (r: Result<(), ElmoError>)
        requires
            old(self).position() == -1,
        ensures
            final(self).position() == -1,
            final(self).placement() == old(self).placement(),
            match r {
                Ok(()) => {
                    &&& is_permutation(permutation@, old(self).pairs().len() as int)
                    &&& final(self).pairs() == permuted(old(self).pairs(), permutation@)
                    &&& final(self).pairs().to_multiset() == old(self).pairs().to_multiset()
                },
                Err(e) => {
                    &&& e == ElmoError::Index
                    &&& !is_permutation(permutation@, old(self).pairs().len() as int)
                    &&& final(self).pairs() == old(self).pairs()
                },
            },
    {
        proof {
            use_type_invariant(&*self);
        }
        let n: usize = self.xs.len();
        if permutation.len() != n || !check_permutation(permutation) {
            return Err(ElmoError::Index);
        }
        let mut xs: Vec<Input> = Vec::new();
        let mut ys: Vec<Label> = Vec::new();
        let mut i: usize = 0;
        while i < n
            invariant
                i <= n,
                n == self.xs@.len(),
                n == self.ys@.len(),
                is_permutation(permutation@, n as int),
                xs@.len() == i,
                ys@.len() == i,
                paired(xs@, ys@) == permuted(paired(self.xs@, self.ys@), permutation@).subrange(
                    0,
                    i as int,
                ),
            decreases n - i,
        {
            assert(0 <= permutation@[i as int] < n);
            let from: usize = permutation[i] as usize;
            let x = clone_input(&self.xs[from]);
            let y = clone_label(&self.ys[from]);
            xs.push(x);
            ys.push(y);
            proof {
                assert(paired(xs@, ys@) =~= permuted(
                    paired(self.xs@, self.ys@),
                    permutation@,
                ).subrange(0, i + 1));
            }
            i += 1;
        }
        proof {
            assert(paired(xs@, ys@) =~= permuted(paired(self.xs@, self.ys@), permutation@));
            lemma_permuted_multiset(paired(self.xs@, self.ys@), permutation@);
        }
        self.xs = xs;
        self.ys = ys;
        Ok(())
    }

    /// Hands out the next pair and moves the position on by one. Once every
    /// pair has been handed out it returns `None` and changes nothing.
    pub fn next(&mut self) -> (item: Option<(Input, Label)>)
        ensures
            final(self).pairs() == old(self).pairs(),
            final(self).placement() == old(self).placement(),
            match item {
                Some((x, y)) => {
                    &&& old(self).position() + 1 < old(self).pairs().len()
                    &&& final(self).position() == old(self).position() + 1
                    &&& (rows(x@), y@) == old(self).pairs()[old(self).position() + 1]
                },
                None => {
                    &&& old(self).position() + 1 >= old(self).pairs().len()
                    &&& final(self).position() == old(self).position()
                },
            },
    {
        proof {
            use_type_invariant(&*self);
        }
        let n: usize = self.xs.len();
        let at: usize = (self.current_index + 1) as usize;
        if at >= n {
            return None;
        }
        self.current_index = self.current_index + 1;
        let x = clone_input(&self.xs[at]);
        let y = clone_label(&self.ys[at]);
        Some((x, y))
    }

    /// Goes back before the first pair, so that the pairs can be handed
    /// out, or reordered and handed out, once more.
    pub fn reset(&mut self)
        ensures
            final(self).position() == -1,
            final(self).pairs() == old(self).pairs(),
            final(self).placement() == old(self).placement(),
    {
        proof {
            use_type_invariant(&*self);
        }
        self.current_index = -1;
    }

    /// The number of pairs held.
    pub fn len(&self) -> (n: usize)
        ensures
            n == self.pairs().len(),
    {
        self.xs.len()
    }

    /// The position of the pair handed out last; `-1` before the first.
    pub fn current_index(&self) -> (at: i64)
        ensures
            at == self.position(),
    {
        self.current_index
    }

    /// The placement tag that the loader was made with.
    pub fn device(&self) -> (device: Device)
        ensures
            device == self.placement(),
    {
        self.device
    }
}

} // verus!

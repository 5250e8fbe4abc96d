use vstd::prelude::*;

verus! {

/// The input of one example: a window of character ids for each token.
pub type Input = Vec<Vec<usize>>;

/// The label of one example: the id of the token that follows each input
/// token.
pub type Label = Vec<usize>;

/// The contents of a list of lists.
pub open spec fn rows<T>(v: Seq<Vec<T>>) -> Seq<Seq<T>> {
    v.map_values(|r: Vec<T>| r@)
}

/// Copies a label sequence.
pub fn clone_label(label: &Label) -> (out: Label)
    ensures
        out@ == label@,
{
    let mut out: Vec<usize> = Vec::new();
    let mut i: usize = 0;
    while i < label.len()
        invariant
            i <= label@.len(),
            out@ == label@.subrange(0, i as int),
        decreases label@.len() - i,
    {
        out.push(label[i]);
        proof {
            assert(out@ =~= label@.subrange(0, i + 1));
        }
        i += 1;
    }
    proof {
        assert(out@ =~= label@);
    }
    out
}

/// Copies the character windows of an input.
pub fn clone_input(input: &Input) -> (out: Input)
    ensures
        rows(out@) == rows(input@),
{
    let mut out: Vec<Vec<usize>> = Vec::new();
    let mut i: usize = 0;
    while i < input.len()
        invariant
            i <= input@.len(),
            out@.len() == i,
            rows(out@) == rows(input@).subrange(0, i as int),
        decreases input@.len() - i,
    {
        let row = clone_label(&input[i]);
        let ghost before = out@;
        out.push(row);
        proof {
            assert forall|j: int| 0 <= j < i + 1 implies rows(out@)[j] == rows(input@)[j] by {
                if j < i {
                    assert(rows(out@)[j] == rows(before)[j]);
                    assert(rows(before)[j] == rows(input@).subrange(0, i as int)[j]);
                }
            }
            assert(rows(out@) =~= rows(input@).subrange(0, i + 1));
        }
        i += 1;
    }
    proof {
        assert(rows(out@) =~= rows(input@));
    }
    out
}

} // verus!

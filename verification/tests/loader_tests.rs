use elmo_trainer::permutation::check_permutation;
use elmo_trainer::{Device, ElmoError, Loader};

fn three_examples() -> Loader {
    let xs = vec![vec![vec![1, 1]], vec![vec![2, 2], vec![2, 3]], vec![]];
    let ys = vec![vec![10], vec![20, 21], vec![]];
    Loader::new(xs, ys, Device::Cuda(1))
}

fn drain(loader: &mut Loader) -> Vec<(Vec<Vec<usize>>, Vec<usize>)> {
    let mut pairs = Vec::new();
    while let Some(pair) = loader.next() {
        pairs.push(pair);
    }
    pairs
}

#[test]
fn a_new_loader_stands_before_the_first_example() {
    let loader = three_examples();
    assert_eq!(loader.current_index(), -1);
    assert_eq!(loader.len(), 3);
    assert_eq!(loader.device(), Device::Cuda(1));
}

#[test]
fn next_hands_out_the_pairs_in_order_and_then_ends() {
    let mut loader = three_examples();
    assert_eq!(loader.next(), Some((vec![vec![1, 1]], vec![10])));
    assert_eq!(loader.current_index(), 0);
    assert_eq!(loader.next(), Some((vec![vec![2, 2], vec![2, 3]], vec![20, 21])));
    assert_eq!(loader.next(), Some((vec![], vec![])));
    assert_eq!(loader.current_index(), 2);
    assert_eq!(loader.next(), None);
    assert_eq!(loader.next(), None);
    assert_eq!(loader.current_index(), 2);
}

#[test]
fn an_empty_loader_ends_at_once() {
    let mut loader = Loader::new(vec![], vec![], Device::Cpu);
    assert_eq!(loader.next(), None);
    assert_eq!(loader.current_index(), -1);
    assert_eq!(loader.shuffle(&vec![]), Ok(()));
}

#[test]
fn shuffle_reorders_inputs_and_labels_together() {
    let mut loader = three_examples();
    assert_eq!(loader.shuffle(&vec![2, 0, 1]), Ok(()));
    assert_eq!(
        drain(&mut loader),
        vec![
            (vec![], vec![]),
            (vec![vec![1, 1]], vec![10]),
            (vec![vec![2, 2], vec![2, 3]], vec![20, 21]),
        ]
    );
}

#[test]
fn shuffle_keeps_every_pair_as_often_as_it_was_there() {
    let permutations: Vec<Vec<i64>> = vec![
        vec![0, 1, 2],
        vec![0, 2, 1],
        vec![1, 0, 2],
        vec![1, 2, 0],
        vec![2, 0, 1],
        vec![2, 1, 0],
    ];
    let mut before = drain(&mut three_examples());
    before.sort();
    for permutation in permutations {
        let mut loader = three_examples();
        assert_eq!(loader.shuffle(&permutation), Ok(()));
        assert_eq!(loader.len(), 3);
        let mut after = drain(&mut loader);
        after.sort();
        assert_eq!(after, before);
    }
}

#[test]
fn shuffle_twice_composes() {
    let mut loader = three_examples();
    assert_eq!(loader.shuffle(&vec![1, 2, 0]), Ok(()));
    assert_eq!(loader.shuffle(&vec![1, 2, 0]), Ok(()));
    assert_eq!(loader.next(), Some((vec![], vec![])));
}

#[test]
fn shuffle_refuses_what_is_no_permutation_and_changes_nothing() {
    for bad in [vec![0, 1], vec![0, 1, 1], vec![0, 1, 3], vec![-1, 1, 2], vec![0, 1, 2, 3]] {
        let mut loader = three_examples();
        assert_eq!(loader.shuffle(&bad), Err(ElmoError::Index));
        assert_eq!(drain(&mut loader), drain(&mut three_examples()));
    }
}

#[test]
fn check_permutation_accepts_exactly_the_permutations() {
    assert!(check_permutation(&vec![]));
    assert!(check_permutation(&vec![0]));
    assert!(check_permutation(&vec![3, 1, 0, 2]));
    assert!(!check_permutation(&vec![1]));
    assert!(!check_permutation(&vec![0, 0]));
    assert!(!check_permutation(&vec![1, 2, 3]));
    assert!(!check_permutation(&vec![0, -1]));
    assert!(!check_permutation(&vec![i64::MAX, 0]));
    assert!(!check_permutation(&vec![i64::MIN, 0]));
}

#[test]
fn reset_starts_the_pairs_over() {
    let mut loader = three_examples();
    let first_pass = drain(&mut loader);
    assert_eq!(loader.next(), None);
    loader.reset();
    assert_eq!(loader.current_index(), -1);
    assert_eq!(loader.shuffle(&vec![0, 1, 2]), Ok(()));
    assert_eq!(drain(&mut loader), first_pass);
}

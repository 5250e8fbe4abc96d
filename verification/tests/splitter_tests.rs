use elmo_trainer::{ElmoError, Splitter};

#[test]
fn sizes_for_ten_samples() {
    let splitter = Splitter::new();
    assert_eq!(splitter.get_split_train_dev_test_sizes(10), vec![8, 1, 1]);
}

#[test]
fn sizes_absorb_the_remainder_in_the_last_set() {
    let splitter = Splitter::new();
    assert_eq!(splitter.get_split_train_dev_test_sizes(7), vec![5, 0, 2]);
    assert_eq!(splitter.get_split_train_dev_test_sizes(1), vec![0, 0, 1]);
    assert_eq!(splitter.get_split_train_dev_test_sizes(0), vec![0, 0, 0]);
    assert_eq!(splitter.get_split_train_dev_test_sizes(19), vec![15, 1, 3]);
}

#[test]
fn indices_are_contiguous_chunks_of_the_permutation() {
    let splitter = Splitter::new();
    let permutation: Vec<i64> = vec![3, 9, 0, 4, 7, 1, 8, 2, 6, 5];
    let splits = splitter.get_split_train_dev_test_indices(10, &permutation).unwrap();
    assert_eq!(splits, vec![vec![3, 9, 0, 4, 7, 1, 8, 2], vec![6], vec![5]]);
}

#[test]
fn indices_refuse_what_is_no_permutation() {
    let splitter = Splitter::new();
    assert_eq!(
        splitter.get_split_train_dev_test_indices(3, &vec![0, 1]),
        Err(ElmoError::Index)
    );
    assert_eq!(
        splitter.get_split_train_dev_test_indices(3, &vec![0, 1, 1]),
        Err(ElmoError::Index)
    );
    assert_eq!(
        splitter.get_split_train_dev_test_indices(3, &vec![0, 1, 3]),
        Err(ElmoError::Index)
    );
    assert_eq!(
        splitter.get_split_train_dev_test_indices(3, &vec![0, -1, 2]),
        Err(ElmoError::Index)
    );
}

#[test]
fn split_sizes_add_up_and_cover_every_index_once() {
    let splitter = Splitter::new();
    for n in 1..40i64 {
        // a fixed arrangement that is no identity: multiply by a unit modulo n
        let step = (1..=n).rev().find(|s| gcd(*s, n) == 1).unwrap();
        let permutation: Vec<i64> = (0..n).map(|i| (i * step + 3) % n).collect();
        let splits = splitter.get_split_train_dev_test_indices(n, &permutation).unwrap();
        assert_eq!(splits.len(), 3);
        let sizes = splitter.get_split_train_dev_test_sizes(n);
        assert_eq!(sizes, vec![8 * n / 10, n / 10, n - 8 * n / 10 - n / 10]);
        assert_eq!(splits[0].len() as i64, sizes[0]);
        assert_eq!(splits[1].len() as i64, sizes[1]);
        assert_eq!(splits[2].len() as i64, sizes[2]);
        let mut all: Vec<i64> = splits.concat();
        assert_eq!(all, permutation);
        all.sort();
        assert_eq!(all, (0..n).collect::<Vec<i64>>());
    }
}

fn gcd(a: i64, b: i64) -> i64 {
    if b == 0 {
        a
    } else {
        gcd(b, a % b)
    }
}

#[test]
fn sentences_follow_the_permutation() {
    let splitter = Splitter::new();
    let sentences: Vec<String> = (0..10).map(|i| format!("sentence {}", i)).collect();
    let permutation: Vec<i64> = vec![9, 8, 7, 6, 5, 4, 3, 2, 1, 0];
    let splits = splitter.get_split_train_dev_test(&sentences, &permutation).unwrap();
    assert_eq!(splits.len(), 3);
    assert_eq!(
        splits[0],
        vec![
            "sentence 9", "sentence 8", "sentence 7", "sentence 6", "sentence 5", "sentence 4",
            "sentence 3", "sentence 2"
        ]
    );
    assert_eq!(splits[1], vec!["sentence 1"]);
    assert_eq!(splits[2], vec!["sentence 0"]);
}

#[test]
fn sentences_are_not_split_by_what_is_no_permutation() {
    let splitter = Splitter::new();
    let sentences: Vec<String> = vec!["a".to_string(), "b".to_string()];
    assert_eq!(
        splitter.get_split_train_dev_test(&sentences, &vec![0, 0]),
        Err(ElmoError::Index)
    );
    assert_eq!(
        splitter.get_split_train_dev_test(&sentences, &vec![0, 1, 2]),
        Err(ElmoError::Index)
    );
    assert_eq!(
        splitter.get_split_train_dev_test(&sentences, &vec![1, 0]),
        Ok(vec![vec!["b".to_string()], vec![], vec!["a".to_string()]])
    );
}

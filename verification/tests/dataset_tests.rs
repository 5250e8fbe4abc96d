use std::collections::HashMap;

use elmo_trainer::dataset::{fit_window, next_token_shift, PAD};
use elmo_trainer::text::{chars_of, split_spans, token_spans, trim_span};
use elmo_trainer::{DatasetBuilder, ELMoText, ElmoError};

fn token_vocabulary() -> HashMap<String, usize> {
    let mut token2int = HashMap::new();
    token2int.insert("UNK".to_string(), 0);
    token2int.insert("the".to_string(), 1);
    token2int.insert("cat".to_string(), 2);
    token2int.insert("sat".to_string(), 3);
    token2int.insert("".to_string(), 9);
    token2int
}

fn char_vocabulary() -> HashMap<char, usize> {
    let mut char2int = HashMap::new();
    char2int.insert(' ', 0);
    char2int.insert('#', 1);
    char2int.insert('$', 2);
    char2int.insert('^', 3);
    char2int.insert('t', 4);
    char2int.insert('h', 5);
    char2int.insert('e', 6);
    char2int.insert('c', 7);
    char2int.insert('a', 8);
    char2int.insert('s', 9);
    char2int
}

fn builder(sentences: &[&str], max_len_token: Option<usize>) -> ELMoText {
    ELMoText::new(
        sentences.iter().map(|s| s.to_string()).collect(),
        token_vocabulary(),
        char_vocabulary(),
        max_len_token,
        '$',
        '^',
        '#',
        "UNK".to_string(),
    )
}

#[test]
fn the_cat_sat_is_shifted_by_one_token() {
    let text = builder(&["the cat sat"], Some(6));
    let (input, label) = text.get_example(0).unwrap();
    assert_eq!(label, vec![2, 3]);
    assert_eq!(input, vec![vec![2, 4, 5, 6, 3, 0], vec![2, 7, 8, 4, 3, 0]]);
}

#[test]
fn a_sentence_of_k_tokens_gives_k_minus_one_pairs() {
    let text = builder(&["the cat", "the cat sat the cat", "cat sat the cat sat the cat"], Some(4));
    for (index, tokens) in [(0usize, 2usize), (1, 5), (2, 7)] {
        let (input, label) = text.get_example(index).unwrap();
        assert_eq!(input.len(), tokens - 1);
        assert_eq!(label.len(), tokens - 1);
    }
}

#[test]
fn a_sentence_of_one_token_gives_an_empty_example() {
    let text = builder(&["cat", ""], Some(5));
    let (input, label) = text.get_example(0).unwrap();
    assert!(input.is_empty());
    assert!(label.is_empty());
    let (input, label) = text.get_example(1).unwrap();
    assert!(input.is_empty());
    assert!(label.is_empty());
}

#[test]
fn every_window_has_the_configured_width() {
    for width in [0usize, 1, 2, 5, 6, 40] {
        let text = builder(&["the c cathesatcat sat"], Some(width));
        let (input, _) = text.get_example(0).unwrap();
        assert_eq!(input.len(), 3);
        for window in &input {
            assert_eq!(window.len(), width);
        }
    }
}

#[test]
fn long_tokens_are_cut_and_lose_their_end_sentinel() {
    let text = builder(&["the cat"], Some(3));
    let (input, label) = text.get_example(0).unwrap();
    assert_eq!(input, vec![vec![2, 4, 5]]);
    assert_eq!(label, vec![2]);
}

#[test]
fn short_tokens_are_padded_with_the_id_of_the_pad_character() {
    let mut chars = char_vocabulary();
    chars.insert(PAD, 77);
    let text = ELMoText::new(
        vec!["a cat".to_string()],
        token_vocabulary(),
        chars,
        Some(5),
        '$',
        '^',
        '#',
        "UNK".to_string(),
    );
    let (input, _) = text.get_example(0).unwrap();
    assert_eq!(input, vec![vec![2, 8, 3, 77, 77]]);
}

#[test]
fn unknown_tokens_and_characters_fall_back() {
    let text = builder(&["the dog sat"], Some(5));
    let (input, label) = text.get_example(0).unwrap();
    assert_eq!(label, vec![0, 3]);
    assert_eq!(input[1], vec![2, 1, 1, 1, 3]);
}

#[test]
fn tokens_are_trimmed_and_empty_tokens_are_kept() {
    let text = builder(&["the  \tcat\n sat"], Some(5));
    let (input, label) = text.get_example(0).unwrap();
    // tokens: "the", "", "cat", "sat"
    assert_eq!(label, vec![9, 2, 3]);
    assert_eq!(input.len(), 3);
    assert_eq!(input[1], vec![2, 3, 0, 0, 0]);
    assert_eq!(input[2], vec![2, 7, 8, 4, 3]);
}

#[test]
fn an_index_past_the_sentences_is_an_index_error() {
    let text = builder(&["the cat"], Some(5));
    assert_eq!(text.get_example(1), Err(ElmoError::Index));
    assert_eq!(text.get_example(usize::MAX), Err(ElmoError::Index));
    assert_eq!(text.get_len(), 1);
}

#[test]
fn a_missing_width_is_a_config_error() {
    let text = builder(&["the cat"], None);
    assert_eq!(text.get_example(0), Err(ElmoError::Config));
}

#[test]
fn a_missing_symbol_is_a_vocabulary_error() {
    let sentences = vec!["the cat".to_string()];
    let mut no_unk_token = token_vocabulary();
    no_unk_token.remove("UNK");
    let text = ELMoText::new(
        sentences.clone(),
        no_unk_token,
        char_vocabulary(),
        Some(5),
        '$',
        '^',
        '#',
        "UNK".to_string(),
    );
    assert_eq!(text.get_example(0), Err(ElmoError::Vocabulary));

    let mut no_unk_char = char_vocabulary();
    no_unk_char.remove(&'#');
    let text = ELMoText::new(
        sentences.clone(),
        token_vocabulary(),
        no_unk_char,
        Some(5),
        '$',
        '^',
        '#',
        "UNK".to_string(),
    );
    assert_eq!(text.get_example(0), Err(ElmoError::Vocabulary));

    let mut no_pad = char_vocabulary();
    no_pad.remove(&' ');
    let text = ELMoText::new(
        sentences,
        token_vocabulary(),
        no_pad,
        Some(5),
        '$',
        '^',
        '#',
        "UNK".to_string(),
    );
    assert_eq!(text.get_example(0), Err(ElmoError::Vocabulary));
}

#[test]
fn errors_come_in_a_fixed_order() {
    let mut no_pad = char_vocabulary();
    no_pad.remove(&' ');
    let text = ELMoText::new(
        vec!["the cat".to_string()],
        token_vocabulary(),
        no_pad,
        None,
        '$',
        '^',
        '#',
        "UNK".to_string(),
    );
    assert_eq!(text.get_example(3), Err(ElmoError::Index));
    assert_eq!(text.get_example(0), Err(ElmoError::Vocabulary));
}

#[test]
fn get_len_counts_the_sentences() {
    assert_eq!(builder(&[], Some(3)).get_len(), 0);
    assert_eq!(builder(&["a", "b c", ""], Some(3)).get_len(), 3);
}

#[test]
fn chars_of_lists_the_characters() {
    assert_eq!(chars_of("a b"), vec!['a', ' ', 'b']);
    assert_eq!(chars_of("né"), vec!['n', 'é']);
    assert!(chars_of("").is_empty());
}

#[test]
fn split_spans_cuts_at_every_space() {
    assert_eq!(split_spans(&chars_of("the cat")), vec![(0, 3), (4, 7)]);
    assert_eq!(split_spans(&chars_of("")), vec![(0, 0)]);
    assert_eq!(split_spans(&chars_of(" ")), vec![(0, 0), (1, 1)]);
    assert_eq!(split_spans(&chars_of("a  b ")), vec![(0, 1), (2, 2), (3, 4), (5, 5)]);
}

#[test]
fn trim_span_drops_white_space_at_both_ends() {
    let chars = chars_of("\t a b\u{a0}\n");
    assert_eq!(trim_span(&chars, 0, chars.len()), (2, 5));
    assert_eq!(trim_span(&chars, 2, 5), (2, 5));
    assert_eq!(trim_span(&chars, 0, 2), (2, 2));
    assert_eq!(trim_span(&chars, 3, 3), (3, 3));
}

#[test]
fn token_spans_are_the_trimmed_pieces() {
    let chars = chars_of("the \tcat\t  sat");
    assert_eq!(token_spans(&chars), vec![(0, 3), (5, 8), (10, 10), (11, 14)]);
}

#[test]
fn fit_window_cuts_or_pads() {
    assert_eq!(fit_window(vec![5, 6, 7], 2, 0), vec![5, 6]);
    assert_eq!(fit_window(vec![5, 6, 7], 3, 0), vec![5, 6, 7]);
    assert_eq!(fit_window(vec![5, 6, 7], 5, 9), vec![5, 6, 7, 9, 9]);
    assert_eq!(fit_window(vec![], 2, 4), vec![4, 4]);
    assert_eq!(fit_window(vec![1], 0, 4), Vec::<usize>::new());
}

#[test]
fn next_token_shift_drops_the_last_input_and_the_first_label() {
    let shifted = next_token_shift(vec![vec![1], vec![2], vec![3]], vec![10, 20, 30]);
    assert_eq!(shifted, Ok((vec![vec![1], vec![2]], vec![20, 30])));
    assert_eq!(next_token_shift(vec![vec![1]], vec![10]), Ok((vec![], vec![])));
    assert_eq!(next_token_shift(vec![], vec![]), Ok((vec![], vec![])));
}

#[test]
fn next_token_shift_refuses_lists_of_different_lengths() {
    assert_eq!(
        next_token_shift(vec![vec![1], vec![2]], vec![10]),
        Err(ElmoError::ShapeMismatch)
    );
    assert_eq!(next_token_shift(vec![], vec![10]), Err(ElmoError::ShapeMismatch));
}

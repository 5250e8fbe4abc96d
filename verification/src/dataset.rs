use std::collections::HashMap;
use vstd::prelude::*;
use vstd::string::StrSliceExecFns;
use crate::error::ElmoError;
use crate::example::{rows, Input, Label};
use crate::text::{
    chars_of, lemma_split_nonempty, span_text, span_texts, spans_within, token_spans, tokens_of,
};
use crate::vocabulary::{char_id, id_or, token_id, token_ids};

verus! {

/// The character that fills a window up to its width.
pub const PAD: char = ' ';

/// A token between its two sentinels.
pub open spec fn wrapped(token: Seq<char>, start: char, end: char) -> Seq<char> {
    seq![start] + token + seq![end]
}

/// `ids` cut or filled with `pad` to exactly `width` entries.
pub open spec fn fit(ids: Seq<usize>, width: nat, pad: usize) -> Seq<usize> {
    if width <= ids.len() {
        ids.subrange(0, width as int)
    } else {
        ids + Seq::new((width - ids.len()) as nat, |i: int| pad)
    }
}

/// All entries but the last; nothing of nothing.
pub open spec fn without_last<T>(s: Seq<T>) -> Seq<T> {
    if s.len() == 0 {
        s
    } else {
        s.drop_last()
    }
}

/// All entries but the first; nothing of nothing.
pub open spec fn without_first<T>(s: Seq<T>) -> Seq<T> {
    if s.len() == 0 {
        s
    } else {
        s.drop_first()
    }
}

/// What an `ELMoText` holds, as plain values.
pub struct ELMoTextView {
    pub examples: Seq<Seq<char>>,
    pub token_ids: Map<Seq<char>, usize>,
    pub char_ids: Map<char, usize>,
    pub max_len_token: Option<usize>,
    pub char_start: char,
    pub char_end: char,
    pub char_unk: char,
    pub str_unk: Seq<char>,
}

impl ELMoTextView {
    /// The unknown token, the unknown character and the pad character all
    /// have an id.
    pub open spec fn has_symbols(self) -> bool {
        &&& self.token_ids.contains_key(self.str_unk)
        &&& self.char_ids.contains_key(self.char_unk)
        &&& self.char_ids.contains_key(PAD)
    }

    /// The id of a token: its own, or that of the unknown token.
    pub open spec fn token_id(self, token: Seq<char>) -> usize {
        id_or(self.token_ids, token, self.token_ids[self.str_unk])
    }

    /// The id of a character: its own, or that of the unknown character.
    pub open spec fn char_id(self, c: char) -> usize {
        id_or(self.char_ids, c, self.char_ids[self.char_unk])
    }

    /// The character window of a token: the ids of the token between its
    /// sentinels, cut or padded to `width`.
    pub open spec fn window(self, token: Seq<char>, width: nat) -> Seq<usize> {
        fit(
            wrapped(token, self.char_start, self.char_end).map_values(|c: char| self.char_id(c)),
            width,
            self.char_ids[PAD],
        )
    }

    /// The ids of all tokens of a sentence.
    pub open spec fn token_id_seq(self, sentence: Seq<char>) -> Seq<usize> {
        tokens_of(sentence).map_values(|token: Seq<char>| self.token_id(token))
    }

    /// The windows of all tokens of a sentence.
    pub open spec fn window_seq(self, sentence: Seq<char>, width: nat) -> Seq<Seq<usize>> {
        tokens_of(sentence).map_values(|token: Seq<char>| self.window(token, width))
    }

    /// The input of a sentence: the windows of all its tokens but the last.
    pub open spec fn input(self, sentence: Seq<char>, width: nat) -> Seq<Seq<usize>> {
        without_last(self.window_seq(sentence, width))
    }

    /// The label of a sentence: the ids of all its tokens but the first.
    pub open spec fn label(self, sentence: Seq<char>) -> Seq<usize> {
        without_first(self.token_id_seq(sentence))
    }

    /// What asking for the example at `index` gives.
    pub open spec fn example(self, index: usize) -> Result<(Seq<Seq<usize>>, Seq<usize>), ElmoError> {
        if index >= self.examples.len() {
            Err(ElmoError::Index)
        } else if !self.has_symbols() {
            Err(ElmoError::Vocabulary)
        } else if self.max_len_token is None {
            Err(ElmoError::Config)
        } else {
            Ok(
                (
                    self.input(self.examples[index as int], self.max_len_token->0 as nat),
                    self.label(self.examples[index as int]),
                ),
            )
        }
    }
}

/// Cutting or padding gives exactly the asked width, whatever the length
/// was before.
pub proof fn lemma_fit_width(ids: Seq<usize>, width: nat, pad: usize)
    ensures
        fit(ids, width, pad).len() == width,
{
}

/// Every character window has exactly the asked width, for a token of any
/// length.
pub proof fn lemma_window_width(text: ELMoTextView, token: Seq<char>, width: nat)
    ensures
        text.window(token, width).len() == width,
{
}

/// The shape of an example. A sentence of `k` tokens gives `k - 1` windows
/// and `k - 1` label ids, so none for a sentence of one token; window `j`
/// is that of token `j`, label `j` the id of token `j + 1`; and every
/// window has the asked width.
pub proof fn lemma_example_shape(text: ELMoTextView, sentence: Seq<char>, width: nat)
    ensures
        tokens_of(sentence).len() >= 1,
        text.input(sentence, width).len() == tokens_of(sentence).len() - 1,
        text.label(sentence).len() == tokens_of(sentence).len() - 1,
        tokens_of(sentence).len() < 2 ==> text.input(sentence, width) == Seq::<Seq<usize>>::empty()
            && text.label(sentence) == Seq::<usize>::empty(),
        forall|j: int|
            0 <= j < tokens_of(sentence).len() - 1 ==> #[trigger] text.input(sentence, width)[j]
                == text.window(tokens_of(sentence)[j], width),
        forall|j: int|
            0 <= j < tokens_of(sentence).len() - 1 ==> #[trigger] text.label(sentence)[j]
                == text.token_id(tokens_of(sentence)[j + 1]),
        forall|j: int|
            0 <= j < tokens_of(sentence).len() - 1 ==> (#[trigger] text.input(
                sentence,
                width,
            )[j]).len() == width,
{
    lemma_split_nonempty(sentence);
    if tokens_of(sentence).len() < 2 {
        assert(text.input(sentence, width) =~= Seq::<Seq<usize>>::empty());
        assert(text.label(sentence) =~= Seq::<usize>::empty());
    }
}

/// Cuts `char_ids` to `width` entries where it has more, and fills it up
/// with `pad` where it has fewer.
pub fn fit_window(char_ids: Vec<usize>, width: usize, pad: usize) -> (window: Vec<usize>)
    ensures
        window@ == fit(char_ids@, width as nat, pad),
        window@.len() == width,
{
    let mut char_ids = char_ids;
    let ghost ids = char_ids@;
    let token_len: usize = char_ids.len();
    if width <= token_len {
        char_ids.truncate(width);
    } else {
        let mut filled: usize = token_len;
        proof {
            assert(char_ids@ =~= ids + Seq::new(0nat, |i: int| pad));
        }
        while filled < width
            invariant
                token_len < width,
                token_len == ids.len(),
                token_len <= filled <= width,
                char_ids@ == ids + Seq::new((filled - token_len) as nat, |i: int| pad),
            decreases width - filled,
        {
            char_ids.push(pad);
            proof {
                assert(char_ids@ =~= ids + Seq::new(
                    (filled + 1 - token_len) as nat,
                    |i: int| pad,
                ));
            }
            filled += 1;
        }
    }
    char_ids
}

/// Aligns each token with the one that follows it: the last window and the
/// first label are dropped, so that window `i` stands beside the label of
/// token `i + 1`. Lists of different lengths are refused; empty lists stay
/// empty.
pub fn next_token_shift(inputs: Vec<Vec<usize>>, labels: Vec<usize>) -> (r: Result<
    (Input, Label),
    ElmoError,
>)
    ensures
        match r {
            Ok((input, label)) => {
                &&& inputs@.len() == labels@.len()
                &&& rows(input@) == without_last(rows(inputs@))
                &&& label@ == without_first(labels@)
                &&& input@.len() == label@.len()
            },
            Err(e) => e == ElmoError::ShapeMismatch && inputs@.len() != labels@.len(),
        },
{
    let mut inputs = inputs;
    let mut labels = labels;
    if inputs.len() != labels.len() {
        return Err(ElmoError::ShapeMismatch);
    }
    let n: usize = inputs.len();
    if n == 0 {
        return Ok((inputs, labels));
    }
    let ghost all_inputs = inputs@;
    let ghost all_labels = labels@;
    let _ = labels.remove(0);
    let _ = inputs.remove(n - 1);
    proof {
        assert(labels@ =~= all_labels.drop_first());
        assert(rows(inputs@) =~= rows(all_inputs).drop_last());
    }
    Ok((inputs, labels))
}

/// An example is owed for every sentence that the index names, however
/// short, once the vocabularies hold the required symbols and the window
/// width is set; a sentence of fewer than two tokens gives the empty
/// example.
pub proof fn lemma_example_is_owed(text: ELMoTextView, index: usize)
    ensures
        text.example(index) is Ok <==> index < text.examples.len() && text.has_symbols()
            && text.max_len_token is Some,
        text.example(index) is Ok && tokens_of(text.examples[index as int]).len() < 2
            ==> text.example(index) == Ok::<(Seq<Seq<usize>>, Seq<usize>), ElmoError>(
            (Seq::<Seq<usize>>::empty(), Seq::<usize>::empty()),
        ),
{
    if text.example(index) is Ok {
        lemma_example_shape(
            text,
            text.examples[index as int],
            text.max_len_token->0 as nat,
        );
    }
}

/// Turns sentences into examples for next-token prediction.
#[derive(Debug)]
pub struct ELMoText {
    examples: Vec<String>,
    token2int: HashMap<String, usize>,
    char2int: HashMap<char, usize>,
    max_len_token: Option<usize>,
    char_start: char,
    char_end: char,
    char_unk: char,
    str_unk: String,
}

impl View for ELMoText {
    type V = ELMoTextView;

    closed spec fn view(&self) -> ELMoTextView {
        ELMoTextView {
            examples: self.examples@.map_values(|s: String| s@),
            token_ids: token_ids(self.token2int),
            char_ids: self.char2int@,
            max_len_token: self.max_len_token,
            char_start: self.char_start,
            char_end: self.char_end,
            char_unk: self.char_unk,
            str_unk: self.str_unk@,
        }
    }
}

/// A source of examples that are asked for by index.
pub trait DatasetBuilder {
    type Error;

    fn get_len(&self) -> u64;

    fn get_example(&self, index: usize) -> Result<(Input, Label), Self::Error>;
}

impl ELMoText {
    /// A builder for these sentences and vocabularies. Whether the
    /// vocabularies hold the required symbols shows when an example is
    /// asked for.
    pub fn new(
        examples: Vec<String>,
        token2int: HashMap<String, usize>,
        char2int: HashMap<char, usize>,
        max_len_token: Option<usize>,
        char_start: char,
        char_end: char,
        char_unk: char,
        str_unk: String,
    ) -> (built: Self)
        ensures
            built@ == (ELMoTextView {
                examples: examples@.map_values(|s: String| s@),
                token_ids: token_ids(token2int),
                char_ids: char2int@,
                max_len_token: max_len_token,
                char_start: char_start,
                char_end: char_end,
                char_unk: char_unk,
                str_unk: str_unk@,
            }),
    {
        Self {
            examples: examples,
            token2int: token2int,
            char2int: char2int,
            max_len_token: max_len_token,
            char_start: char_start,
            char_end: char_end,
            char_unk: char_unk,
            str_unk: str_unk,
        }
    }

    /// The id of one character, with the fallback for unknown ones.
    fn char_id_or(&self, c: char, unk_char_id: usize) -> (id: usize)
        requires
            self@.char_ids.contains_key(self@.char_unk),
            unk_char_id == self@.char_ids[self@.char_unk],
        ensures
            id == self@.char_id(c),
    {
        match char_id(&self.char2int, c) {
            Some(value) => *value,
            None => unk_char_id,
        }
    }

    /// The character window of the token that `span` covers in `chars`.
    fn char_window(
        &self,
        chars: &Vec<char>,
        span: (usize, usize),
        unk_char_id: usize,
        pad: usize,
        width: usize,
    ) -> (window: Vec<usize>)
        requires
            span.0 <= span.1 <= chars@.len(),
            self@.char_ids.contains_key(self@.char_unk),
            self@.char_ids.contains_key(PAD),
            unk_char_id == self@.char_ids[self@.char_unk],
            pad == self@.char_ids[PAD],
        ensures
            window@ == self@.window(span_text(chars@, span), width as nat),
            window@.len() == width,
    {
        let ghost token = span_text(chars@, span);
        let ghost all = wrapped(token, self@.char_start, self@.char_end);
        let ghost ids = all.map_values(|c: char| self@.char_id(c));
        let mut char_ids: Vec<usize> = Vec::new();
        char_ids.push(self.char_id_or(self.char_start, unk_char_id));
        let mut i: usize = span.0;
        while i < span.1
            invariant
                span.0 <= i <= span.1 <= chars@.len(),
                token == span_text(chars@, span),
                all == wrapped(token, self@.char_start, self@.char_end),
                ids == all.map_values(|c: char| self@.char_id(c)),
                self@.char_ids.contains_key(self@.char_unk),
                unk_char_id == self@.char_ids[self@.char_unk],
                char_ids@ == ids.subrange(0, i - span.0 + 1),
            decreases span.1 - i,
        {
            char_ids.push(self.char_id_or(chars[i], unk_char_id));
            proof {
                assert(all[i - span.0 + 1] == chars@[i as int]);
                assert(char_ids@ =~= ids.subrange(0, i - span.0 + 2));
            }
            i += 1;
        }
        char_ids.push(self.char_id_or(self.char_end, unk_char_id));
        proof {
            assert(all[span.1 - span.0 + 1] == self@.char_end);
            assert(char_ids@ =~= ids);
        }
        fit_window(char_ids, width, pad)
    }
}

impl DatasetBuilder for ELMoText {
    type Error = ElmoError;

    /// The number of sentences held.
    fn get_len(&self) -> (n: u64)
        ensures
            n == self@.examples.len(),
    {
        self.examples.len() as u64
    }

    /// The example of the sentence at `index`: for each token but the last
    /// its character window, and for each of them the id of the token that
    /// follows it. An index that names no sentence is refused first, then a
    /// vocabulary that lacks the id of the unknown token, of the unknown
    /// character or of the pad character, then a missing window width.
    fn get_example(&self, index: usize) -> (r: Result<(Input, Label), ElmoError>)
        ensures
            match r {
                Ok((input, label)) => {
                    &&& self@.example(index) == Ok::<(Seq<Seq<usize>>, Seq<usize>), ElmoError>(
                        (rows(input@), label@),
                    )
                    &&& input@.len() == label@.len()
                    &&& input@.len() == tokens_of(self@.examples[index as int]).len() - 1
                    &&& forall|j: int|
                        0 <= j < input@.len() ==> (#[trigger] input@[j])@.len()
                            == self@.max_len_token->0
                },
                Err(e) => self@.example(index) == Err::<(Seq<Seq<usize>>, Seq<usize>), ElmoError>(e),
            },
    {
        if index >= self.examples.len() {
            return Err(ElmoError::Index);
        }
        let unk_id: usize = match token_id(&self.token2int, self.str_unk.as_str()) {
            Some(value) => *value,
            None => { return Err(ElmoError::Vocabulary); },
        };
        let unk_char_id: usize = match char_id(&self.char2int, self.char_unk) {
            Some(value) => *value,
            None => { return Err(ElmoError::Vocabulary); },
        };
        let pad: usize = match char_id(&self.char2int, PAD) {
            Some(value) => *value,
            None => { return Err(ElmoError::Vocabulary); },
        };
        let width: usize = match self.max_len_token {
            Some(value) => value,
            None => { return Err(ElmoError::Config); },
        };
        let sentence: &str = self.examples[index].as_str();
        let chars: Vec<char> = chars_of(sentence);
        let spans: Vec<(usize, usize)> = token_spans(&chars);
        let ghost tokens = tokens_of(sentence@);
        proof {
            lemma_split_nonempty(sentence@);
            assert(self@.examples[index as int] == sentence@);
        }
        let mut labels: Vec<usize> = Vec::new();
        let mut inputs: Vec<Vec<usize>> = Vec::new();
        let mut k: usize = 0;
        while k < spans.len()
            invariant
                k <= spans@.len(),
                chars@ == sentence@,
                tokens == tokens_of(sentence@),
                spans_within(spans@, chars@.len() as int),
                span_texts(chars@, spans@) == tokens,
                self@.has_symbols(),
                unk_id == self@.token_ids[self@.str_unk],
                unk_char_id == self@.char_ids[self@.char_unk],
                pad == self@.char_ids[PAD],
                labels@.len() == k,
                inputs@.len() == k,
                labels@ == self@.token_id_seq(sentence@).subrange(0, k as int),
                rows(inputs@) == self@.window_seq(sentence@, width as nat).subrange(0, k as int),
            decreases spans@.len() - k,
        {
            let span = spans[k];
            assert(span.0 <= span.1 <= chars@.len());
            proof {
                assert(span_texts(chars@, spans@)[k as int] == span_text(chars@, span));
            }
            let token: &str = sentence.substring_char(span.0, span.1);
            let label: usize = match token_id(&self.token2int, token) {
                Some(value) => *value,
                None => unk_id,
            };
            labels.push(label);
            let window = self.char_window(&chars, span, unk_char_id, pad, width);
            let ghost before = inputs@;
            inputs.push(window);
            proof {
                assert(token@ == tokens[k as int]);
                assert(labels@ =~= self@.token_id_seq(sentence@).subrange(0, k + 1));
                assert forall|j: int| 0 <= j < k + 1 implies rows(inputs@)[j] == self@.window_seq(
                    sentence@,
                    width as nat,
                )[j] by {
                    if j < k {
                        assert(rows(inputs@)[j] == rows(before)[j]);
                        assert(rows(before)[j] == self@.window_seq(
                            sentence@,
                            width as nat,
                        ).subrange(0, k as int)[j]);
                    }
                }
                assert(rows(inputs@) =~= self@.window_seq(sentence@, width as nat).subrange(
                    0,
                    k + 1,
                ));
            }
            k += 1;
        }
        proof {
            assert(labels@ =~= self@.token_id_seq(sentence@));
            assert(rows(inputs@) =~= self@.window_seq(sentence@, width as nat));
        }
        match next_token_shift(inputs, labels) {
            Ok((input, label)) => {
                proof {
                    lemma_example_shape(self@, sentence@, width as nat);
                    assert forall|j: int| 0 <= j < input@.len() implies (#[trigger] input@[j])@.len()
                        == width by {
                        assert(rows(input@)[j] == input@[j]@);
                    }
                }
                Ok((input, label))
            },
            Err(e) => Err(e),
        }
    }
}

} // verus!

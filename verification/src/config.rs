use vstd::prelude::*;
use crate::error::ElmoError;
use serde_json::Value;
use crate::json::{
    document, documents, value_as_array, value_as_float_bits, value_as_str, value_as_u64,
    value_get, Json,
};
use crate::loader::Device;

verus! {

/// A 64-bit floating-point number, held as its IEEE 754 bit pattern. The
/// library carries such numbers from the configuration to the training
/// code and never computes with them.
#[derive(Debug, Clone, Copy, PartialEq, Eq, Structural)]
pub struct FloatBits {
    pub bits: u64,
}

/// The bit pattern of the default dropout rate, one tenth.
pub const DEFAULT_DROPOUT_BITS: u64 = 0x3fb9_9999_9999_999a;

/// The bit pattern of the default learning rate, one thousandth.
pub const DEFAULT_LEARNING_RATE_BITS: u64 = 0x3f50_624d_d2f1_a9fc;

/// The hyperparameters of a training run.
#[derive(Debug, Clone)]
pub struct JsonELMo {
    pub corpus_file: String,
    pub output_dir: String,
    pub token_vocab_size: i64,
    pub char_vocab_size: i64,
    pub min_count: i64,
    pub max_len_token: i64,
    pub char_start: char,
    pub char_end: char,
    pub str_unk: String,
    pub batch_size: i64,
    pub char_embedding_dim: i64,
    pub in_channels: i64,
    pub out_channels: Vec<i64>,
    pub kernel_size: Vec<i64>,
    pub highways: i64,
    pub in_dim: i64,
    pub hidden_dim: i64,
    pub n_lstm_layers: i64,
    pub dropout: FloatBits,
    pub devide: Device,
    pub max_iter: i64,
    pub learning_rate: FloatBits,
}

/// The hyperparameters as plain values.
pub struct JsonELMoView {
    pub corpus_file: Seq<char>,
    pub output_dir: Seq<char>,
    pub token_vocab_size: i64,
    pub char_vocab_size: i64,
    pub min_count: i64,
    pub max_len_token: i64,
    pub char_start: char,
    pub char_end: char,
    pub str_unk: Seq<char>,
    pub batch_size: i64,
    pub char_embedding_dim: i64,
    pub in_channels: i64,
    pub out_channels: Seq<i64>,
    pub kernel_size: Seq<i64>,
    pub highways: i64,
    pub in_dim: i64,
    pub hidden_dim: i64,
    pub n_lstm_layers: i64,
    pub dropout: FloatBits,
    pub devide: Device,
    pub max_iter: i64,
    pub learning_rate: FloatBits,
}

impl View for JsonELMo {
    type V = JsonELMoView;

    open spec fn view(&self) -> JsonELMoView {
        JsonELMoView {
            corpus_file: self.corpus_file@,
            output_dir: self.output_dir@,
            token_vocab_size: self.token_vocab_size,
            char_vocab_size: self.char_vocab_size,
            min_count: self.min_count,
            max_len_token: self.max_len_token,
            char_start: self.char_start,
            char_end: self.char_end,
            str_unk: self.str_unk@,
            batch_size: self.batch_size,
            char_embedding_dim: self.char_embedding_dim,
            in_channels: self.in_channels,
            out_channels: self.out_channels@,
            kernel_size: self.kernel_size@,
            highways: self.highways,
            in_dim: self.in_dim,
            hidden_dim: self.hidden_dim,
            n_lstm_layers: self.n_lstm_layers,
            dropout: self.dropout,
            devide: self.devide,
            max_iter: self.max_iter,
            learning_rate: self.learning_rate,
        }
    }
}

/// The hyperparameters of a run on `corpus_file` where nothing else was
/// chosen.
pub open spec fn default_params(
    corpus_file: Seq<char>,
    output_dir: Seq<char>,
    device: Device,
) -> JsonELMoView {
    JsonELMoView {
        corpus_file: corpus_file,
        output_dir: output_dir,
        token_vocab_size: 300_000,
        char_vocab_size: 128,
        min_count: 3,
        max_len_token: 50,
        char_start: '$',
        char_end: '^',
        str_unk: "UNK"@,
        batch_size: 1,
        char_embedding_dim: 15,
        in_channels: 1,
        out_channels: seq![1i64, 2i64, 3i64, 4i64, 5i64, 6i64],
        kernel_size: seq![25i64, 50i64, 75i64, 100i64, 125i64, 150i64],
        highways: 1,
        in_dim: 512,
        hidden_dim: 4096,
        n_lstm_layers: 2,
        dropout: FloatBits { bits: DEFAULT_DROPOUT_BITS },
        devide: device,
        max_iter: 10,
        learning_rate: FloatBits { bits: DEFAULT_LEARNING_RATE_BITS },
    }
}

/// The text that the document gives for `field`.
pub open spec fn text_field(json: Json, field: Seq<char>) -> Option<Seq<char>> {
    match json.member(field) {
        Some(value) => value.text(),
        None => None,
    }
}

/// A count read from a number: an integer from one up to the largest that
/// a signed machine integer holds.
pub open spec fn positive_count(number: Option<u64>) -> Option<i64> {
    match number {
        Some(n) => if 0 < n <= i64::MAX {
            Some(n as i64)
        } else {
            None
        },
        None => None,
    }
}

/// Takes a number for a count where it is one: an integer from one up to
/// the largest that a signed machine integer holds.
pub fn to_count(number: Option<u64>) -> (count: Option<i64>)
    ensures
        count == positive_count(number),
{
    match number {
        Some(n) => {
            if n == 0 || n > i64::MAX as u64 {
                None
            } else {
                Some(n as i64)
            }
        },
        None => None,
    }
}

/// What a document says of one hyperparameter: nothing, a value that can
/// be used, or something that cannot.
#[derive(Debug, PartialEq, Eq)]
pub enum Reading<T> {
    Absent,
    Given(T),
    Unusable,
}

/// What the document says of the count `field`: the count, where the
/// field holds one; a field that holds anything else cannot be used.
pub open spec fn count_reading(json: Json, field: Seq<char>) -> Reading<i64> {
    match json.member(field) {
        Some(value) => match positive_count(value.unsigned()) {
            Some(count) => Reading::Given(count),
            None => Reading::Unusable,
        },
        None => Reading::Absent,
    }
}

/// What the document says of the floating-point number `field`: the
/// number, where the field holds one; a field that holds anything else
/// cannot be used.
pub open spec fn float_reading(json: Json, field: Seq<char>) -> Reading<FloatBits> {
    match json.member(field) {
        Some(value) => match value.float_bits() {
            Some(bits) => Reading::Given(FloatBits { bits: bits }),
            None => Reading::Unusable,
        },
        None => Reading::Absent,
    }
}

/// The counts that a list of items holds, where every item is a count.
pub open spec fn item_counts(items: Seq<Json>) -> Option<Seq<i64>> {
    if forall|i: int|
        0 <= i < items.len() ==> positive_count((#[trigger] items[i]).unsigned()) is Some {
        Some(Seq::new(items.len(), |i: int| positive_count(items[i].unsigned())->0))
    } else {
        None
    }
}

/// What the document says of the list `field`: its counts in order, where
/// the field is an array of counts; a field that holds anything else
/// cannot be used.
pub open spec fn list_reading(json: Json, field: Seq<char>) -> Reading<Seq<i64>> {
    match json.member(field) {
        Some(value) => match value.items() {
            Some(items) => match item_counts(items) {
                Some(counts) => Reading::Given(counts),
                None => Reading::Unusable,
            },
            None => Reading::Unusable,
        },
        None => Reading::Absent,
    }
}

/// The value that was given, or the default where the document said
/// nothing.
pub open spec fn or_default<T>(reading: Reading<T>, default: T) -> T {
    match reading {
        Reading::Given(value) => value,
        _ => default,
    }
}

/// What a document says of each hyperparameter.
#[derive(Debug)]
pub struct Choices {
    pub corpus_file: Option<String>,
    pub output_dir: Option<String>,
    pub token_vocab_size: Reading<i64>,
    pub char_vocab_size: Reading<i64>,
    pub min_count: Reading<i64>,
    pub max_len_token: Reading<i64>,
    pub char_embedding_dim: Reading<i64>,
    pub in_channels: Reading<i64>,
    pub highways: Reading<i64>,
    pub in_dim: Reading<i64>,
    pub hidden_dim: Reading<i64>,
    pub n_lstm_layers: Reading<i64>,
    pub max_iter: Reading<i64>,
    pub dropout: Reading<FloatBits>,
    pub learning_rate: Reading<FloatBits>,
    pub out_channels: Reading<Vec<i64>>,
    pub kernel_size: Reading<Vec<i64>>,
}

/// The choices as plain values.
pub struct ChoicesView {
    pub corpus_file: Option<Seq<char>>,
    pub output_dir: Option<Seq<char>>,
    pub token_vocab_size: Reading<i64>,
    pub char_vocab_size: Reading<i64>,
    pub min_count: Reading<i64>,
    pub max_len_token: Reading<i64>,
    pub char_embedding_dim: Reading<i64>,
    pub in_channels: Reading<i64>,
    pub highways: Reading<i64>,
    pub in_dim: Reading<i64>,
    pub hidden_dim: Reading<i64>,
    pub n_lstm_layers: Reading<i64>,
    pub max_iter: Reading<i64>,
    pub dropout: Reading<FloatBits>,
    pub learning_rate: Reading<FloatBits>,
    pub out_channels: Reading<Seq<i64>>,
    pub kernel_size: Reading<Seq<i64>>,
}

impl ChoicesView {
    /// The document holds a field that cannot be used.
    pub open spec fn any_unusable(self) -> bool {
        ||| self.token_vocab_size is Unusable
        ||| self.char_vocab_size is Unusable
        ||| self.min_count is Unusable
        ||| self.max_len_token is Unusable
        ||| self.char_embedding_dim is Unusable
        ||| self.in_channels is Unusable
        ||| self.highways is Unusable
        ||| self.in_dim is Unusable
        ||| self.hidden_dim is Unusable
        ||| self.n_lstm_layers is Unusable
        ||| self.max_iter is Unusable
        ||| self.dropout is Unusable
        ||| self.learning_rate is Unusable
        ||| self.out_channels is Unusable
        ||| self.kernel_size is Unusable
    }
}

/// The characters of a text, where there is one.
pub open spec fn text_of(text: Option<String>) -> Option<Seq<char>> {
    match text {
        Some(s) => Some(s@),
        None => None,
    }
}

/// A reading of a list, with the list as its entries.
pub open spec fn list_of(list: Reading<Vec<i64>>) -> Reading<Seq<i64>> {
    match list {
        Reading::Absent => Reading::Absent,
        Reading::Given(v) => Reading::Given(v@),
        Reading::Unusable => Reading::Unusable,
    }
}

impl View for Choices {
    type V = ChoicesView;

    open spec fn view(&self) -> ChoicesView {
        ChoicesView {
            corpus_file: text_of(self.corpus_file),
            output_dir: text_of(self.output_dir),
            token_vocab_size: self.token_vocab_size,
            char_vocab_size: self.char_vocab_size,
            min_count: self.min_count,
            max_len_token: self.max_len_token,
            char_embedding_dim: self.char_embedding_dim,
            in_channels: self.in_channels,
            highways: self.highways,
            in_dim: self.in_dim,
            hidden_dim: self.hidden_dim,
            n_lstm_layers: self.n_lstm_layers,
            max_iter: self.max_iter,
            dropout: self.dropout,
            learning_rate: self.learning_rate,
            out_channels: list_of(self.out_channels),
            kernel_size: list_of(self.kernel_size),
        }
    }
}

/// What a document says of each hyperparameter.
pub open spec fn choices_of(json: Json) -> ChoicesView {
    ChoicesView {
        corpus_file: text_field(json, "corpus_file"@),
        output_dir: text_field(json, "output_dir"@),
        token_vocab_size: count_reading(json, "token_vocab_size"@),
        char_vocab_size: count_reading(json, "char_vocab_size"@),
        min_count: count_reading(json, "min_count"@),
        max_len_token: count_reading(json, "max_len_token"@),
        char_embedding_dim: count_reading(json, "char_embedding_dim"@),
        in_channels: count_reading(json, "in_channels"@),
        highways: count_reading(json, "highways"@),
        in_dim: count_reading(json, "in_dim"@),
        hidden_dim: count_reading(json, "hidden_dim"@),
        n_lstm_layers: count_reading(json, "n_lstm_layers"@),
        max_iter: count_reading(json, "max_iter"@),
        dropout: float_reading(json, "dropout"@),
        learning_rate: float_reading(json, "learning_rate"@),
        out_channels: list_reading(json, "out_channels"@),
        kernel_size: list_reading(json, "kernel_size"@),
    }
}

/// The hyperparameters that the choices ask for: the defaults, with each
/// field replaced that was given.
pub open spec fn chosen_params(choices: ChoicesView, device: Device) -> JsonELMoView {
    let base = default_params(choices.corpus_file->0, choices.output_dir->0, device);
    JsonELMoView {
        token_vocab_size: or_default(choices.token_vocab_size, base.token_vocab_size),
        char_vocab_size: or_default(choices.char_vocab_size, base.char_vocab_size),
        min_count: or_default(choices.min_count, base.min_count),
        max_len_token: or_default(choices.max_len_token, base.max_len_token),
        char_embedding_dim: or_default(choices.char_embedding_dim, base.char_embedding_dim),
        in_channels: or_default(choices.in_channels, base.in_channels),
        highways: or_default(choices.highways, base.highways),
        in_dim: or_default(choices.in_dim, base.in_dim),
        hidden_dim: or_default(choices.hidden_dim, base.hidden_dim),
        n_lstm_layers: or_default(choices.n_lstm_layers, base.n_lstm_layers),
        max_iter: or_default(choices.max_iter, base.max_iter),
        dropout: or_default(choices.dropout, base.dropout),
        learning_rate: or_default(choices.learning_rate, base.learning_rate),
        out_channels: or_default(choices.out_channels, base.out_channels),
        kernel_size: or_default(choices.kernel_size, base.kernel_size),
        ..base
    }
}

/// What the choices come to: their hyperparameters, unless no corpus file
/// or no output directory was given, some field holds what cannot be
/// used, or the lists of filter counts and of kernel widths differ in
/// length.
pub open spec fn assembled(choices: ChoicesView, device: Device) -> Option<JsonELMoView> {
    if choices.corpus_file is None || choices.output_dir is None {
        None
    } else if choices.any_unusable() {
        None
    } else if chosen_params(choices, device).out_channels.len() != chosen_params(
        choices,
        device,
    ).kernel_size.len() {
        None
    } else {
        Some(chosen_params(choices, device))
    }
}

/// What validating a document gives: what its choices come to.
pub open spec fn validated(json: Json, device: Device) -> Option<JsonELMoView> {
    assembled(choices_of(json), device)
}

/// Reads a text field.
fn validate_str(json: &Value, field: &str) -> (text: Option<String>)
    ensures
        match text {
            Some(s) => text_field(document(*json), field@) == Some(s@),
            None => text_field(document(*json), field@) is None,
        },
{
    match value_get(json, field) {
        Some(value) => match value_as_str(value) {
            Some(s) => Some(s.to_owned()),
            None => None,
        },
        None => None,
    }
}

/// Reads a floating-point field.
fn validate_float(json: &Value, field: &str) -> (number: Reading<FloatBits>)
    ensures
        number == float_reading(document(*json), field@),
{
    match value_get(json, field) {
        Some(value) => match value_as_float_bits(value) {
            Some(bits) => Reading::Given(FloatBits { bits: bits }),
            None => Reading::Unusable,
        },
        None => Reading::Absent,
    }
}

/// Reads a field that holds a count.
fn validate_positive_int(json: &Value, field: &str) -> (count: Reading<i64>)
    ensures
        count == count_reading(document(*json), field@),
{
    match value_get(json, field) {
        Some(value) => match to_count(value_as_u64(value)) {
            Some(count) => Reading::Given(count),
            None => Reading::Unusable,
        },
        None => Reading::Absent,
    }
}

/// Reads a field that holds a list of counts.
fn validate_vec(json: &Value, field: &str) -> (counts: Reading<Vec<i64>>)
    ensures
        list_of(counts) == list_reading(document(*json), field@),
{
    let items: &Vec<Value> = match value_get(json, field) {
        Some(value) => match value_as_array(value) {
            Some(items) => items,
            None => { return Reading::Unusable; },
        },
        None => { return Reading::Absent; },
    };
    let mut values: Vec<i64> = Vec::new();
    let mut i: usize = 0;
    while i < items.len()
        invariant
            i <= items@.len(),
            values@.len() == i,
            list_reading(document(*json), field@) == match item_counts(documents(items@)) {
                Some(counts) => Reading::Given(counts),
                None => Reading::<Seq<i64>>::Unusable,
            },
            forall|j: int|
                0 <= j < i ==> positive_count((#[trigger] documents(items@)[j]).unsigned())
                    == Some(values@[j]),
        decreases items@.len() - i,
    {
        assert(documents(items@)[i as int] == document(items@[i as int]));
        match to_count(value_as_u64(&items[i])) {
            Some(count) => {
                values.push(count);
            },
            None => {
                proof {
                    assert(positive_count(documents(items@)[i as int].unsigned()) is None);
                }
                return Reading::Unusable;
            },
        }
        i += 1;
    }
    proof {
        assert(values@ =~= item_counts(documents(items@))->0);
    }
    Reading::Given(values)
}

/// Reads from a document what it says of each hyperparameter.
pub fn read_choices(json: &Value) -> (choices: Choices)
    ensures
        choices@ == choices_of(document(*json)),
{
    Choices {
        corpus_file: validate_str(json, "corpus_file"),
        output_dir: validate_str(json, "output_dir"),
        token_vocab_size: validate_positive_int(json, "token_vocab_size"),
        char_vocab_size: validate_positive_int(json, "char_vocab_size"),
        min_count: validate_positive_int(json, "min_count"),
        max_len_token: validate_positive_int(json, "max_len_token"),
        char_embedding_dim: validate_positive_int(json, "char_embedding_dim"),
        in_channels: validate_positive_int(json, "in_channels"),
        highways: validate_positive_int(json, "highways"),
        in_dim: validate_positive_int(json, "in_dim"),
        hidden_dim: validate_positive_int(json, "hidden_dim"),
        n_lstm_layers: validate_positive_int(json, "n_lstm_layers"),
        max_iter: validate_positive_int(json, "max_iter"),
        dropout: validate_float(json, "dropout"),
        learning_rate: validate_float(json, "learning_rate"),
        out_channels: validate_vec(json, "out_channels"),
        kernel_size: validate_vec(json, "kernel_size"),
    }
}

/// Whether the reading is of a field that cannot be used.
fn is_unusable<T>(reading: &Reading<T>) -> (unusable: bool)
    ensures
        unusable == (*reading is Unusable),
{
    match reading {
        Reading::Unusable => true,
        _ => false,
    }
}

/// The given count, or `default`.
fn count_or(reading: Reading<i64>, default: i64) -> (count: i64)
    ensures
        count == or_default(reading, default),
{
    match reading {
        Reading::Given(count) => count,
        _ => default,
    }
}

/// The given number, or `default`.
fn float_or(reading: Reading<FloatBits>, default: FloatBits) -> (number: FloatBits)
    ensures
        number == or_default(reading, default),
{
    match reading {
        Reading::Given(number) => number,
        _ => default,
    }
}

/// The given list, or `default`.
fn list_or(reading: Reading<Vec<i64>>, default: Vec<i64>) -> (list: Vec<i64>)
    ensures
        list@ == or_default(list_of(reading), default@),
{
    match reading {
        Reading::Given(list) => list,
        _ => default,
    }
}

/// Whether some field of the choices cannot be used.
fn any_unusable(choices: &Choices) -> (unusable: bool)
    ensures
        unusable == choices@.any_unusable(),
{
    is_unusable(&choices.token_vocab_size)
        || is_unusable(&choices.char_vocab_size)
        || is_unusable(&choices.min_count)
        || is_unusable(&choices.max_len_token)
        || is_unusable(&choices.char_embedding_dim)
        || is_unusable(&choices.in_channels)
        || is_unusable(&choices.highways)
        || is_unusable(&choices.in_dim)
        || is_unusable(&choices.hidden_dim)
        || is_unusable(&choices.n_lstm_layers)
        || is_unusable(&choices.max_iter)
        || is_unusable(&choices.dropout)
        || is_unusable(&choices.learning_rate)
        || is_unusable(&choices.out_channels)
        || is_unusable(&choices.kernel_size)
}

/// The hyperparameters that the choices come to: the defaults, with each
/// field replaced that was given. A corpus file and an output directory
/// must have been given, no field may hold what cannot be used, and the
/// lists of filter counts and of kernel widths must be of one length.
pub fn assemble(choices: Choices, device: Device) -> (r: Result<JsonELMo, ElmoError>)
    ensures
        match r {
            Ok(params) => assembled(choices@, device) == Some(params@),
            Err(e) => e == ElmoError::Config && assembled(choices@, device) is None,
        },
{
    if any_unusable(&choices) {
        return Err(ElmoError::Config);
    }
    let corpus_file = match choices.corpus_file {
        Some(s) => s,
        None => { return Err(ElmoError::Config); },
    };
    let output_dir = match choices.output_dir {
        Some(s) => s,
        None => { return Err(ElmoError::Config); },
    };
    let base = ConfigElmo::defaults(corpus_file, output_dir, device);
    let params = JsonELMo {
        token_vocab_size: count_or(choices.token_vocab_size, base.token_vocab_size),
        char_vocab_size: count_or(choices.char_vocab_size, base.char_vocab_size),
        min_count: count_or(choices.min_count, base.min_count),
        max_len_token: count_or(choices.max_len_token, base.max_len_token),
        char_embedding_dim: count_or(choices.char_embedding_dim, base.char_embedding_dim),
        in_channels: count_or(choices.in_channels, base.in_channels),
        highways: count_or(choices.highways, base.highways),
        in_dim: count_or(choices.in_dim, base.in_dim),
        hidden_dim: count_or(choices.hidden_dim, base.hidden_dim),
        n_lstm_layers: count_or(choices.n_lstm_layers, base.n_lstm_layers),
        max_iter: count_or(choices.max_iter, base.max_iter),
        dropout: float_or(choices.dropout, base.dropout),
        learning_rate: float_or(choices.learning_rate, base.learning_rate),
        out_channels: list_or(choices.out_channels, base.out_channels),
        kernel_size: list_or(choices.kernel_size, base.kernel_size),
        corpus_file: base.corpus_file,
        output_dir: base.output_dir,
        char_start: base.char_start,
        char_end: base.char_end,
        str_unk: base.str_unk,
        batch_size: base.batch_size,
        devide: base.devide,
    };
    proof {
        assert(params@ == chosen_params(choices@, device));
    }
    if params.out_channels.len() != params.kernel_size.len() {
        return Err(ElmoError::Config);
    }
    Ok(params)
}

/// Checked hyperparameters.
#[derive(Debug)]
pub struct ConfigElmo {
    params: JsonELMo,
}

/// The steps from a document to hyperparameters.
pub trait Conigure {
    type Item;

    fn defaults(corpus_file: String, output_dir: String, device: Device) -> Self::Item;

    fn validate(json: &Value, device: Device) -> Result<Self::Item, ElmoError>;
}

impl Conigure for ConfigElmo {
    type Item = JsonELMo;

    /// The hyperparameters of a run where nothing but the two paths and the
    /// device was chosen.
    fn defaults(corpus_file: String, output_dir: String, device: Device) -> (params: JsonELMo)
        ensures
            params@ == default_params(corpus_file@, output_dir@, device),
    {
        let params = JsonELMo {
            token_vocab_size: 300_000,
            char_vocab_size: 128,
            min_count: 3,
            max_len_token: 50,
            char_embedding_dim: 15,
            in_channels: 1,
            out_channels: vec![1, 2, 3, 4, 5, 6],
            kernel_size: vec![25, 50, 75, 100, 125, 150],
            highways: 1,
            in_dim: 512,
            hidden_dim: 4096,
            n_lstm_layers: 2,
            dropout: FloatBits { bits: DEFAULT_DROPOUT_BITS },
            max_iter: 10,
            learning_rate: FloatBits { bits: DEFAULT_LEARNING_RATE_BITS },
            devide: device,
            char_start: '$',
            char_end: '^',
            str_unk: "UNK".to_owned(),
            batch_size: 1,
            corpus_file: corpus_file,
            output_dir: output_dir,
        };
        proof {
            assert(params.out_channels@ =~= seq![1i64, 2i64, 3i64, 4i64, 5i64, 6i64]);
            assert(params.kernel_size@ =~= seq![25i64, 50i64, 75i64, 100i64, 125i64, 150i64]);
        }
        params
    }

    /// The hyperparameters that the document asks for. The corpus file and
    /// the output directory must be given as text. Every other field keeps
    /// its default where the document does not name it, and is taken where
    /// the document gives it in a usable form: a count from one up, a
    /// number, a list of counts. A field that holds anything else is
    /// refused, and so are lists of filter counts and kernel widths of
    /// different lengths.
    fn validate(json: &Value, device: Device) -> (r: Result<JsonELMo, ElmoError>)
        ensures
            match r {
                Ok(params) => validated(document(*json), device) == Some(params@),
                Err(e) => e == ElmoError::Config && validated(document(*json), device) is None,
            },
    {
        assemble(read_choices(json), device)
    }
}

impl ConfigElmo {
    /// The hyperparameters held.
    pub closed spec fn params(&self) -> JsonELMo {
        self.params
    }

    /// The path of the configuration document among the program's
    /// arguments: the only one after the program's name.
    pub fn json_path(args: &[String]) -> (r: Result<&String, ElmoError>)
        ensures
            match r {
                Ok(path) => args@.len() == 2 && *path == args@[1],
                Err(e) => e == ElmoError::Arguments && args@.len() != 2,
            },
    {
        if args.len() != 2 {
            return Err(ElmoError::Arguments);
        }
        Ok(&args[1])
    }

    /// Checks the program's arguments and the document that they name.
    /// There must be exactly one argument after the program's name; any
    /// other number is refused before the document is looked at. Then the
    /// document must validate.
    pub fn new(args: &[String], json: &Value, device: Device) -> (r: Result<ConfigElmo, ElmoError>)
        ensures
            match r {
                Ok(config) => args@.len() == 2 && validated(document(*json), device) == Some(
                    config.params()@,
                ),
                Err(e) => if args@.len() != 2 {
                    e == ElmoError::Arguments
                } else {
                    e == ElmoError::Config && validated(document(*json), device) is None
                },
            },
    {
        if args.len() != 2 {
            return Err(ElmoError::Arguments);
        }
        match ConfigElmo::validate(json, device) {
            Ok(params) => Ok(Self { params: params }),
            Err(e) => Err(e),
        }
    }

    /// A copy of the hyperparameters.
    pub fn get_params(&self) -> (params: JsonELMo)
        ensures
            params@ == self.params()@,
    {
        let out_channels = self.params.out_channels.clone();
        let kernel_size = self.params.kernel_size.clone();
        proof {
            assert(out_channels@ =~= self.params.out_channels@);
            assert(kernel_size@ =~= self.params.kernel_size@);
        }
        JsonELMo {
            corpus_file: self.params.corpus_file.clone(),
            output_dir: self.params.output_dir.clone(),
            token_vocab_size: self.params.token_vocab_size,
            char_vocab_size: self.params.char_vocab_size,
            min_count: self.params.min_count,
            max_len_token: self.params.max_len_token,
            char_start: self.params.char_start,
            char_end: self.params.char_end,
            str_unk: self.params.str_unk.clone(),
            batch_size: self.params.batch_size,
            char_embedding_dim: self.params.char_embedding_dim,
            in_channels: self.params.in_channels,
            out_channels: out_channels,
            kernel_size: kernel_size,
            highways: self.params.highways,
            in_dim: self.params.in_dim,
            hidden_dim: self.params.hidden_dim,
            n_lstm_layers: self.params.n_lstm_layers,
            dropout: self.params.dropout,
            devide: self.params.devide,
            max_iter: self.params.max_iter,
            learning_rate: self.params.learning_rate,
        }
    }
}

} // verus!

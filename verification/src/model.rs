use vstd::prelude::*;
use crate::error::ElmoError;

verus! {

/// Every entry is at least one.
pub open spec fn all_positive(v: Seq<i64>) -> bool {
    forall|i: int| 0 <= i < v.len() ==> #[trigger] v[i] > 0
}

/// The sum of the entries.
pub open spec fn total(v: Seq<i64>) -> int
    decreases v.len(),
{
    if v.len() == 0 {
        0
    } else {
        total(v.drop_last()) + v.last()
    }
}

/// What a narrow convolution of width `kernel` leaves of `length` positions.
pub open spec fn narrow_length(length: int, kernel: int) -> int {
    length - kernel + 1
}

/// One convolution of the character encoder: its channels and its width.
pub struct CnnBlockView {
    pub in_channels: i64,
    pub out_channels: i64,
    pub kernel_size: i64,
}

impl CnnBlockView {
    /// The block can work on an embedded token of this shape: one token of
    /// each batch entry, at least as long as the kernel, embedded in as many
    /// dimensions as the block has input channels. The batch may be of any
    /// size from zero up.
    pub open spec fn accepts(self, dims: Seq<i64>) -> bool {
        &&& dims.len() == 4
        &&& dims[0] >= 0
        &&& dims[1] == 1
        &&& dims[2] >= self.kernel_size
        &&& dims[3] == self.in_channels
    }

    /// The width of the pooling that spans all that the convolution leaves.
    pub open spec fn pool_kernel(self, token_length: int) -> int {
        narrow_length(token_length, self.kernel_size as int)
    }

    /// The shape after convolution, activation and pooling over time: one
    /// value for each filter.
    pub open spec fn output(self, dims: Seq<i64>) -> Seq<i64> {
        seq![dims[0], self.out_channels]
    }
}

/// The plan of one narrow convolution with pooling over time.
#[derive(Debug, Clone, Copy)]
pub struct CnnBlock {
    in_channels: i64,
    out_channels: i64,
    kernel_size: i64,
}

impl View for CnnBlock {
    type V = CnnBlockView;

    closed spec fn view(&self) -> CnnBlockView {
        CnnBlockView {
            in_channels: self.in_channels,
            out_channels: self.out_channels,
            kernel_size: self.kernel_size,
        }
    }
}

impl CnnBlock {
    #[verifier::type_invariant]
    spec fn well_formed(self) -> bool {
        self.in_channels > 0 && self.out_channels > 0 && self.kernel_size > 0
    }

    /// A block is planned for positive channel counts and a positive width.
    pub fn new(in_channels: i64, out_channels: i64, kernel_size: i64) -> (r: Result<Self, ElmoError>)
        ensures
            match r {
                Ok(block) => {
                    &&& in_channels > 0 && out_channels > 0 && kernel_size > 0
                    &&& block@ == (CnnBlockView {
                        in_channels: in_channels,
                        out_channels: out_channels,
                        kernel_size: kernel_size,
                    })
                },
                Err(e) => e == ElmoError::Config && !(in_channels > 0 && out_channels > 0
                    && kernel_size > 0),
            },
    {
        if in_channels <= 0 || out_channels <= 0 || kernel_size <= 0 {
            return Err(ElmoError::Config);
        }
        Ok(Self { in_channels: in_channels, out_channels: out_channels, kernel_size: kernel_size })
    }

    /// The number of input channels.
    pub fn in_channels(&self) -> (n: i64)
        ensures
            n == self@.in_channels,
            n > 0,
    {
        proof {
            use_type_invariant(self);
        }
        self.in_channels
    }

    /// The number of filters.
    pub fn out_channels(&self) -> (n: i64)
        ensures
            n == self@.out_channels,
            n > 0,
    {
        proof {
            use_type_invariant(self);
        }
        self.out_channels
    }

    /// The width of the kernel.
    pub fn kernel_size(&self) -> (n: i64)
        ensures
            n == self@.kernel_size,
            n > 0,
    {
        proof {
            use_type_invariant(self);
        }
        self.kernel_size
    }

    /// The width of the pooling for tokens of `token_length` characters,
    /// which must span all that the convolution leaves.
    pub fn pool_kernel(&self, token_length: i64) -> (r: Result<i64, ElmoError>)
        ensures
            match r {
                Ok(width) => token_length >= self@.kernel_size && width == self@.pool_kernel(
                    token_length as int,
                ) && width >= 1,
                Err(e) => e == ElmoError::ShapeMismatch && token_length < self@.kernel_size,
            },
    {
        proof {
            use_type_invariant(self);
        }
        if token_length < self.kernel_size {
            return Err(ElmoError::ShapeMismatch);
        }
        Ok(token_length - self.kernel_size + 1)
    }

    /// The shape that leaves the block for an embedded token of shape
    /// `dims`: (batch, 1, token length, embedding) becomes (batch, filters).
    pub fn forward_shape(&self, dims: &Vec<i64>) -> (r: Result<Vec<i64>, ElmoError>)
        ensures
            match r {
                Ok(out) => self@.accepts(dims@) && out@ == self@.output(dims@),
                Err(e) => e == ElmoError::ShapeMismatch && !self@.accepts(dims@),
            },
    {
        proof {
            use_type_invariant(self);
        }
        if dims.len() != 4 {
            return Err(ElmoError::ShapeMismatch);
        }
        if dims[0] < 0 || dims[1] != 1 || dims[2] < self.kernel_size || dims[3]
            != self.in_channels {
            return Err(ElmoError::ShapeMismatch);
        }
        let out: Vec<i64> = vec![dims[0], self.out_channels];
        proof {
            assert(out@ =~= self@.output(dims@));
        }
        Ok(out)
    }
}

/// One highway layer: the width it takes and the width it gives.
pub struct HighwayView {
    pub in_dim: i64,
    pub out_dim: i64,
}

impl HighwayView {
    /// The transform can work on this shape: any number of rows from zero
    /// up, each of its input width.
    pub open spec fn accepts(self, dims: Seq<i64>) -> bool {
        &&& dims.len() == 2
        &&& dims[0] >= 0
        &&& dims[1] == self.in_dim
    }

    /// The shape that leaves the transform: as many rows, each of the
    /// output width.
    pub open spec fn output(self, dims: Seq<i64>) -> Seq<i64> {
        seq![dims[0], self.out_dim]
    }
}

/// A highway layer keeps the width: for input of any width that it
/// accepts, what leaves it has the shape of what entered.
pub proof fn lemma_highway_keeps_width(highway: HighwayView, dims: Seq<i64>)
    requires
        highway.in_dim == highway.out_dim,
        highway.accepts(dims),
    ensures
        highway.output(dims) == dims,
        highway.output(dims)[1] == dims[1],
{
    assert(highway.output(dims) =~= dims);
}

/// The plan of one highway layer, which blends a non-linear branch with
/// the input itself, entry by entry, so both have one width.
#[derive(Debug, Clone, Copy)]
pub struct Highway {
    in_dim: i64,
    out_dim: i64,
}

impl View for Highway {
    type V = HighwayView;

    closed spec fn view(&self) -> HighwayView {
        HighwayView { in_dim: self.in_dim, out_dim: self.out_dim }
    }
}

impl Highway {
    #[verifier::type_invariant]
    spec fn well_formed(self) -> bool {
        self.in_dim > 0 && self.in_dim == self.out_dim
    }

    /// A transform is planned for one positive width on both sides.
    pub fn new(in_dim: i64, out_dim: i64) -> (r: Result<Self, ElmoError>)
        ensures
            match r {
                Ok(highway) => in_dim > 0 && in_dim == out_dim && highway@ == (HighwayView {
                    in_dim: in_dim,
                    out_dim: out_dim,
                }),
                Err(e) => e == ElmoError::Config && !(in_dim > 0 && in_dim == out_dim),
            },
    {
        if in_dim <= 0 || in_dim != out_dim {
            return Err(ElmoError::Config);
        }
        Ok(Self { in_dim: in_dim, out_dim: out_dim })
    }

    /// The width on both sides.
    pub fn width(&self) -> (n: i64)
        ensures
            n == self@.in_dim,
            n == self@.out_dim,
            n > 0,
    {
        proof {
            use_type_invariant(self);
        }
        self.in_dim
    }

    /// The shape that leaves the transform: the shape that entered it.
    pub fn forward_shape(&self, dims: &Vec<i64>) -> (r: Result<Vec<i64>, ElmoError>)
        ensures
            match r {
                Ok(out) => self@.accepts(dims@) && out@ == self@.output(dims@) && out@ == dims@,
                Err(e) => e == ElmoError::ShapeMismatch && !self@.accepts(dims@),
            },
    {
        proof {
            use_type_invariant(self);
        }
        if dims.len() != 2 {
            return Err(ElmoError::ShapeMismatch);
        }
        if dims[0] < 0 || dims[1] != self.in_dim {
            return Err(ElmoError::ShapeMismatch);
        }
        let out: Vec<i64> = vec![dims[0], self.out_dim];
        proof {
            assert(out@ =~= self@.output(dims@));
            lemma_highway_keeps_width(self@, dims@);
        }
        Ok(out)
    }
}

/// The width of shapes joined along their second dimension.
pub open spec fn joined_width(shapes: Seq<Seq<i64>>) -> int {
    total(shapes.map_values(|shape: Seq<i64>| shape[1]))
}

/// The number of filters of each convolution.
pub open spec fn filter_counts(blocks: Seq<CnnBlockView>) -> Seq<i64> {
    blocks.map_values(|block: CnnBlockView| block.out_channels)
}

/// The character encoder as plain values.
pub struct CharLevelNetView {
    pub vocab_size: i64,
    pub embedding_dim: i64,
    pub conv_blocks: Seq<CnnBlockView>,
    pub highways: Seq<HighwayView>,
    /// The width that the highway layers keep and the projection takes.
    pub joined_dim: i64,
    pub out_dim: i64,
}

impl CharLevelNetView {
    /// The number of filters of all convolutions together.
    pub open spec fn total_filters(self) -> int {
        total(filter_counts(self.conv_blocks))
    }

    /// The shape of one embedded token of each batch entry.
    pub open spec fn token_dims(self, dims: Seq<i64>) -> Seq<i64> {
        seq![dims[0], 1, dims[2], self.embedding_dim]
    }

    /// The encoder can work on character ids of this shape: (batch,
    /// sequence length, token length), with tokens that no kernel
    /// outgrows. Batch and sequence may be of any size from zero up.
    pub open spec fn accepts(self, dims: Seq<i64>) -> bool {
        &&& dims.len() == 3
        &&& dims[0] >= 0
        &&& dims[1] >= 0
        &&& forall|i: int|
            0 <= i < self.conv_blocks.len() ==> (#[trigger] self.conv_blocks[i]).accepts(
                self.token_dims(dims),
            )
    }

    /// What each convolution gives for one token.
    pub open spec fn block_outputs(self, dims: Seq<i64>) -> Seq<Seq<i64>> {
        self.conv_blocks.map_values(|block: CnnBlockView| block.output(self.token_dims(dims)))
    }

    /// The shape of the pooled values of all convolutions, joined.
    pub open spec fn joined(self, dims: Seq<i64>) -> Seq<int> {
        seq![dims[0] as int, joined_width(self.block_outputs(dims))]
    }

    /// The shape that leaves the encoder.
    pub open spec fn output(self, dims: Seq<i64>) -> Seq<i64> {
        seq![dims[0], dims[1], self.out_dim]
    }
}

/// The hyperparameters describe a character encoder: positive sizes, a
/// convolution over the embedding's dimensions, as many kernel widths as
/// filter counts and at least one, and a total that the machine can hold.
pub open spec fn valid_char_level_config(
    vocab_size: i64,
    embedding_dim: i64,
    in_channels: i64,
    out_channels: Seq<i64>,
    kernel_size: Seq<i64>,
    highways: i64,
    char_level_out_dim: i64,
) -> bool {
    &&& vocab_size > 0
    &&& embedding_dim > 0
    &&& in_channels == embedding_dim
    &&& out_channels.len() == kernel_size.len()
    &&& out_channels.len() > 0
    &&& all_positive(out_channels)
    &&& all_positive(kernel_size)
    &&& total(out_channels) <= i64::MAX
    &&& highways > 0
    &&& char_level_out_dim > 0
}

/// The encoder that valid hyperparameters describe.
pub open spec fn planned_char_level_net(
    vocab_size: i64,
    embedding_dim: i64,
    in_channels: i64,
    out_channels: Seq<i64>,
    kernel_size: Seq<i64>,
    highways: i64,
    char_level_out_dim: i64,
) -> CharLevelNetView {
    CharLevelNetView {
        vocab_size: vocab_size,
        embedding_dim: embedding_dim,
        conv_blocks: Seq::new(
            out_channels.len(),
            |i: int|
                CnnBlockView {
                    in_channels: in_channels,
                    out_channels: out_channels[i],
                    kernel_size: kernel_size[i],
                },
        ),
        highways: Seq::new(
            highways as nat,
            |i: int|
                HighwayView {
                    in_dim: total(out_channels) as i64,
                    out_dim: total(out_channels) as i64,
                },
        ),
        joined_dim: total(out_channels) as i64,
        out_dim: char_level_out_dim,
    }
}

/// The sum of positive entries is positive and no smaller than any of its
/// leading parts.
pub proof fn lemma_total_grows(v: Seq<i64>, k: int)
    requires
        all_positive(v),
        0 <= k <= v.len(),
    ensures
        total(v.subrange(0, k)) <= total(v),
        k > 0 ==> total(v.subrange(0, k)) > 0,
        total(v.subrange(0, k)) >= k,
    decreases v.len() - k,
{
    if k == v.len() {
        assert(v.subrange(0, k) =~= v);
        lemma_total_at_least_len(v);
    } else {
        lemma_total_grows(v, k + 1);
        assert(v.subrange(0, k + 1).drop_last() =~= v.subrange(0, k));
        assert(v.subrange(0, k + 1).last() == v[k]);
        lemma_total_at_least_len(v.subrange(0, k));
    }
}

/// The sum of positive entries is at least their number.
pub proof fn lemma_total_at_least_len(v: Seq<i64>)
    requires
        all_positive(v),
    ensures
        total(v) >= v.len(),
    decreases v.len(),
{
    if v.len() > 0 {
        lemma_total_at_least_len(v.drop_last());
    }
}

/// The plan of the character encoder: an embedding, a bank of narrow
/// convolutions, a stack of highway transforms and a projection.
#[derive(Debug)]
pub struct CharLevelNet {
    vocab_size: i64,
    embedding_dim: i64,
    conv_blocks: Vec<CnnBlock>,
    highways: Vec<Highway>,
    total_filters: i64,
    out_dim: i64,
}

/// The convolutions as plain values.
pub open spec fn block_views(blocks: Seq<CnnBlock>) -> Seq<CnnBlockView> {
    blocks.map_values(|block: CnnBlock| block@)
}

/// The highway transforms as plain values.
pub open spec fn highway_views(highways: Seq<Highway>) -> Seq<HighwayView> {
    highways.map_values(|highway: Highway| highway@)
}

impl View for CharLevelNet {
    type V = CharLevelNetView;

    closed spec fn view(&self) -> CharLevelNetView {
        CharLevelNetView {
            vocab_size: self.vocab_size,
            embedding_dim: self.embedding_dim,
            conv_blocks: block_views(self.conv_blocks@),
            highways: highway_views(self.highways@),
            joined_dim: self.total_filters,
            out_dim: self.out_dim,
        }
    }
}

impl CharLevelNet {
    #[verifier::type_invariant]
    spec fn well_formed(self) -> bool {
        &&& self.vocab_size > 0
        &&& self.embedding_dim > 0
        &&& self.out_dim > 0
        &&& self.total_filters > 0
        &&& self.conv_blocks@.len() > 0
        &&& self.highways@.len() > 0
        &&& self.total_filters == total(filter_counts(block_views(self.conv_blocks@)))
        &&& forall|i: int|
            0 <= i < self.conv_blocks@.len() ==> {
                &&& (#[trigger] self.conv_blocks@[i]).in_channels == self.embedding_dim
                &&& self.conv_blocks@[i].out_channels > 0
                &&& self.conv_blocks@[i].kernel_size > 0
            }
        &&& forall|i: int|
            0 <= i < self.highways@.len() ==> {
                &&& (#[trigger] self.highways@[i]).in_dim == self.total_filters
                &&& self.highways@[i].out_dim == self.total_filters
            }
    }

    /// Plans the encoder, or refuses hyperparameters that describe none.
    pub fn new(
        vocab_size: i64,
        embedding_dim: i64,
        in_channels: i64,
        out_channels: Vec<i64>,
        kernel_size: Vec<i64>,
        highways: i64,
        char_level_out_dim: i64,
    ) -> (r: Result<Self, ElmoError>)
        ensures
            match r {
                Ok(net) => {
                    &&& valid_char_level_config(
                        vocab_size,
                        embedding_dim,
                        in_channels,
                        out_channels@,
                        kernel_size@,
                        highways,
                        char_level_out_dim,
                    )
                    &&& net@ == planned_char_level_net(
                        vocab_size,
                        embedding_dim,
                        in_channels,
                        out_channels@,
                        kernel_size@,
                        highways,
                        char_level_out_dim,
                    )
                    &&& net@.total_filters() == total(out_channels@)
                },
                Err(e) => e == ElmoError::Config && !valid_char_level_config(
                    vocab_size,
                    embedding_dim,
                    in_channels,
                    out_channels@,
                    kernel_size@,
                    highways,
                    char_level_out_dim,
                ),
            },
    {
        if vocab_size <= 0 || embedding_dim <= 0 || in_channels != embedding_dim || highways <= 0
            || char_level_out_dim <= 0 {
            return Err(ElmoError::Config);
        }
        let n: usize = out_channels.len();
        if n != kernel_size.len() || n == 0 {
            return Err(ElmoError::Config);
        }
        let mut conv_blocks: Vec<CnnBlock> = Vec::new();
        let mut total_filters: i64 = 0;
        let mut i: usize = 0;
        while i < n
            invariant
                i <= n,
                n == out_channels@.len(),
                n == kernel_size@.len(),
                in_channels == embedding_dim,
                embedding_dim > 0,
                conv_blocks@.len() == i,
                all_positive(out_channels@.subrange(0, i as int)),
                all_positive(kernel_size@.subrange(0, i as int)),
                total_filters == total(out_channels@.subrange(0, i as int)),
                0 <= total_filters,
                forall|j: int|
                    0 <= j < i ==> (#[trigger] conv_blocks@[j])@ == (CnnBlockView {
                        in_channels: in_channels,
                        out_channels: out_channels@[j],
                        kernel_size: kernel_size@[j],
                    }),
                forall|j: int|
                    0 <= j < i ==> {
                        &&& (#[trigger] conv_blocks@[j]).in_channels == embedding_dim
                        &&& conv_blocks@[j].out_channels > 0
                        &&& conv_blocks@[j].kernel_size > 0
                    },
            decreases n - i,
        {
            let filters: i64 = out_channels[i];
            let width: i64 = kernel_size[i];
            proof {
                assert(out_channels@.subrange(0, i + 1).drop_last() =~= out_channels@.subrange(
                    0,
                    i as int,
                ));
                assert(out_channels@.subrange(0, i + 1).last() == filters);
            }
            if filters <= 0 || width <= 0 {
                proof {
                    if all_positive(out_channels@) && all_positive(kernel_size@) {
                        assert(out_channels@[i as int] > 0);
                        assert(kernel_size@[i as int] > 0);
                    }
                }
                return Err(ElmoError::Config);
            }
            if total_filters > i64::MAX - filters {
                proof {
                    if all_positive(out_channels@) {
                        lemma_total_grows(out_channels@, i + 1);
                    }
                }
                return Err(ElmoError::Config);
            }
            let block = match CnnBlock::new(in_channels, filters, width) {
                Ok(block) => block,
                Err(e) => { return Err(ElmoError::Config); },
            };
            conv_blocks.push(block);
            total_filters = total_filters + filters;
            proof {
                assert forall|j: int| 0 <= j < i + 1 implies #[trigger] out_channels@.subrange(
                    0,
                    i + 1,
                )[j] > 0 by {
                    if j < i {
                        assert(out_channels@.subrange(0, i as int)[j] > 0);
                    }
                }
                assert forall|j: int| 0 <= j < i + 1 implies #[trigger] kernel_size@.subrange(
                    0,
                    i + 1,
                )[j] > 0 by {
                    if j < i {
                        assert(kernel_size@.subrange(0, i as int)[j] > 0);
                    }
                }
            }
            i += 1;
        }
        proof {
            assert(out_channels@.subrange(0, n as int) =~= out_channels@);
            assert(kernel_size@.subrange(0, n as int) =~= kernel_size@);
            lemma_total_grows(out_channels@, n as int);
        }
        let mut highway_layers: Vec<Highway> = Vec::new();
        let mut k: i64 = 0;
        while k < highways
            invariant
                0 <= k <= highways,
                total_filters > 0,
                highway_layers@.len() == k,
                forall|j: int|
                    0 <= j < k ==> (#[trigger] highway_layers@[j])@ == (HighwayView {
                        in_dim: total_filters,
                        out_dim: total_filters,
                    }),
                forall|j: int|
                    0 <= j < k ==> {
                        &&& (#[trigger] highway_layers@[j]).in_dim == total_filters
                        &&& highway_layers@[j].out_dim == total_filters
                    },
            decreases highways - k,
        {
            let highway = match Highway::new(total_filters, total_filters) {
                Ok(highway) => highway,
                Err(e) => { return Err(ElmoError::Config); },
            };
            highway_layers.push(highway);
            k += 1;
        }
        proof {
            assert(filter_counts(block_views(conv_blocks@)) =~= out_channels@);
        }
        let net = Self {
            vocab_size: vocab_size,
            embedding_dim: embedding_dim,
            conv_blocks: conv_blocks,
            highways: highway_layers,
            total_filters: total_filters,
            out_dim: char_level_out_dim,
        };
        proof {
            let planned = planned_char_level_net(
                vocab_size,
                embedding_dim,
                in_channels,
                out_channels@,
                kernel_size@,
                highways,
                char_level_out_dim,
            );
            assert(net@.conv_blocks =~= planned.conv_blocks);
            assert(net@.highways =~= planned.highways);
        }
        Ok(net)
    }
}

impl CharLevelNet {
    /// The number of filters of all convolutions together: the width of
    /// the joined pooled values and of every highway transform.
    pub fn total_filters(&self) -> (n: i64)
        ensures
            n == self@.total_filters(),
            n == self@.joined_dim,
            n > 0,
    {
        proof {
            use_type_invariant(self);
        }
        self.total_filters
    }

    /// The number of character ids that the embedding knows.
    pub fn vocab_size(&self) -> (n: i64)
        ensures
            n == self@.vocab_size,
            n > 0,
    {
        proof {
            use_type_invariant(self);
        }
        self.vocab_size
    }

    /// The width of a character's embedding.
    pub fn embedding_dim(&self) -> (n: i64)
        ensures
            n == self@.embedding_dim,
            n > 0,
    {
        proof {
            use_type_invariant(self);
        }
        self.embedding_dim
    }

    /// The convolutions, in order.
    pub fn conv_blocks(&self) -> (blocks: &Vec<CnnBlock>)
        ensures
            block_views(blocks@) == self@.conv_blocks,
            blocks@.len() > 0,
    {
        proof {
            use_type_invariant(self);
        }
        &self.conv_blocks
    }

    /// The highway layers, in order.
    pub fn highways(&self) -> (layers: &Vec<Highway>)
        ensures
            highway_views(layers@) == self@.highways,
            layers@.len() > 0,
    {
        proof {
            use_type_invariant(self);
        }
        &self.highways
    }

    /// The width that leaves the encoder for every token.
    pub fn out_dim(&self) -> (n: i64)
        ensures
            n == self@.out_dim,
            n > 0,
    {
        proof {
            use_type_invariant(self);
        }
        self.out_dim
    }

    /// The pooling width of each convolution for tokens of `token_length`
    /// characters; a token that some kernel outgrows is refused.
    pub fn pool_kernels(&self, token_length: i64) -> (r: Result<Vec<i64>, ElmoError>)
        ensures
            match r {
                Ok(widths) => {
                    &&& widths@.len() == self@.conv_blocks.len()
                    &&& forall|i: int|
                        0 <= i < widths@.len() ==> (#[trigger] self@.conv_blocks[i]).kernel_size
                            <= token_length
                    &&& forall|i: int|
                        0 <= i < widths@.len() ==> (#[trigger] widths@[i])
                            == self@.conv_blocks[i].pool_kernel(token_length as int)
                            && widths@[i] >= 1
                },
                Err(e) => e == ElmoError::ShapeMismatch && exists|i: int|
                    0 <= i < self@.conv_blocks.len() && token_length
                        < (#[trigger] self@.conv_blocks[i]).kernel_size,
            },
    {
        let mut widths: Vec<i64> = Vec::new();
        let mut i: usize = 0;
        while i < self.conv_blocks.len()
            invariant
                i <= self.conv_blocks@.len(),
                self@.conv_blocks == block_views(self.conv_blocks@),
                widths@.len() == i,
                forall|j: int|
                    0 <= j < i ==> (#[trigger] self@.conv_blocks[j]).kernel_size <= token_length,
                forall|j: int|
                    0 <= j < i ==> (#[trigger] widths@[j]) == self@.conv_blocks[j].pool_kernel(
                        token_length as int,
                    ) && widths@[j] >= 1,
            decreases self.conv_blocks@.len() - i,
        {
            assert(self@.conv_blocks[i as int] == self.conv_blocks@[i as int]@);
            assert(self@.conv_blocks.len() == self.conv_blocks@.len());
            match self.conv_blocks[i].pool_kernel(token_length) {
                Ok(width) => {
                    widths.push(width);
                },
                Err(e) => {
                    return Err(ElmoError::ShapeMismatch);
                },
            }
            i += 1;
        }
        Ok(widths)
    }

    /// The shape that leaves the encoder for character ids of shape `dims`:
    /// (batch, sequence length, token length) becomes (batch, sequence
    /// length, output width), whatever the token length.
    pub fn forward_shape(&self, dims: &Vec<i64>) -> (r: Result<Vec<i64>, ElmoError>)
        ensures
            match r {
                Ok(out) => {
                    &&& self@.accepts(dims@)
                    &&& out@ == self@.output(dims@)
                    &&& self@.joined(dims@) == seq![dims@[0] as int, self@.total_filters()]
                },
                Err(e) => e == ElmoError::ShapeMismatch && !self@.accepts(dims@),
            },
    {
        proof {
            use_type_invariant(self);
        }
        if dims.len() != 3 {
            return Err(ElmoError::ShapeMismatch);
        }
        if dims[0] < 0 || dims[1] < 0 {
            return Err(ElmoError::ShapeMismatch);
        }
        let token_dims: Vec<i64> = vec![dims[0], 1, dims[2], self.embedding_dim];
        proof {
            assert(token_dims@ =~= self@.token_dims(dims@));
        }
        let mut i: usize = 0;
        while i < self.conv_blocks.len()
            invariant
                i <= self.conv_blocks@.len(),
                self@.conv_blocks == block_views(self.conv_blocks@),
                token_dims@ == self@.token_dims(dims@),
                forall|j: int|
                    0 <= j < i ==> (#[trigger] self@.conv_blocks[j]).accepts(self@.token_dims(dims@)),
            decreases self.conv_blocks@.len() - i,
        {
            assert(self@.conv_blocks[i as int] == self.conv_blocks@[i as int]@);
            assert(self@.conv_blocks.len() == self.conv_blocks@.len());
            match self.conv_blocks[i].forward_shape(&token_dims) {
                Ok(_) => {},
                Err(e) => {
                    return Err(ElmoError::ShapeMismatch);
                },
            }
            i += 1;
        }
        let out: Vec<i64> = vec![dims[0], dims[1], self.out_dim];
        proof {
            assert(out@ =~= self@.output(dims@));
            lemma_joined_width(self@, dims@);
        }
        Ok(out)
    }
}

/// The pooled values of all convolutions, joined, are as wide as the filter
/// counts add up to, whatever the token length; every highway transform
/// keeps that width; and the encoder gives its output width for every
/// token.
pub proof fn lemma_joined_width(net: CharLevelNetView, dims: Seq<i64>)
    requires
        dims.len() == 3,
    ensures
        joined_width(net.block_outputs(dims)) == net.total_filters(),
        net.joined(dims) == seq![dims[0] as int, net.total_filters()],
        net.output(dims)[2] == net.out_dim,
{
    assert(net.block_outputs(dims).map_values(|shape: Seq<i64>| shape[1]) =~= filter_counts(
        net.conv_blocks,
    ));
}

/// The token length does not show in what leaves the encoder: two inputs
/// of one batch size and one sequence length, with tokens of any two
/// lengths that no kernel outgrows, give one output shape, (batch,
/// sequence length, output width), and one joined width, the sum of the
/// filter counts.
pub proof fn lemma_output_ignores_token_length(
    net: CharLevelNetView,
    first: Seq<i64>,
    second: Seq<i64>,
)
    requires
        net.accepts(first),
        net.accepts(second),
        first[0] == second[0],
        first[1] == second[1],
    ensures
        net.output(first) == seq![first[0], first[1], net.out_dim],
        net.output(first) == net.output(second),
        net.joined(first) == net.joined(second),
        net.joined(first)[1] == net.total_filters(),
{
    lemma_joined_width(net, first);
    lemma_joined_width(net, second);
}

/// The sequence encoder as plain values.
pub struct UniLMView {
    pub n_lstm_layers: i64,
    pub in_dim: i64,
    pub hidden_dim: i64,
    pub out_dim: i64,
}

impl UniLMView {
    /// The encoder can work on token embeddings of this shape: (batch,
    /// sequence length, input width). Batch and sequence may be of any
    /// size from zero up.
    pub open spec fn accepts(self, dims: Seq<i64>) -> bool {
        &&& dims.len() == 3
        &&& dims[0] >= 0
        &&& dims[1] >= 0
        &&& dims[2] == self.in_dim
    }

    /// The shape of the hidden and of the cell state, both zero when a
    /// forward pass begins.
    pub open spec fn state(self, dims: Seq<i64>) -> Seq<i64> {
        seq![dims[0], self.hidden_dim]
    }

    /// The shape of the hidden states that a recurrent layer gives.
    pub open spec fn recurrent(self, dims: Seq<i64>) -> Seq<i64> {
        seq![dims[0], dims[1], self.hidden_dim]
    }

    /// The shape after the projection back to the embedding width.
    pub open spec fn projected(self, dims: Seq<i64>) -> Seq<i64> {
        seq![dims[0], dims[1], self.out_dim]
    }

    /// The shape that enters layer `layer`, to which its projected hidden
    /// states are added: the raw input for the first layer, the output of
    /// the layer before for every other.
    pub open spec fn residual_base(self, dims: Seq<i64>, layer: nat) -> Seq<i64>
        decreases layer, 0nat,
    {
        if layer == 0 {
            dims
        } else {
            self.layer_output(dims, (layer - 1) as nat)
        }
    }

    /// The shape that leaves layer `layer`.
    pub open spec fn layer_output(self, dims: Seq<i64>, layer: nat) -> Seq<i64>
        decreases layer, 1nat,
    {
        self.projected(self.recurrent(self.residual_base(dims, layer)))
    }

    /// The state after `state`: the layers run in order, and after the last
    /// the pass is done and stays so.
    pub open spec fn next_state(self, state: ForwardState) -> ForwardState {
        match state {
            ForwardState::Uninitialized => ForwardState::LayerRunning(0),
            ForwardState::LayerRunning(layer) => if layer + 1 < self.n_lstm_layers {
                ForwardState::LayerRunning((layer + 1) as i64)
            } else {
                ForwardState::Done
            },
            ForwardState::Done => ForwardState::Done,
        }
    }

    /// The state after `steps` steps from the start of a forward pass.
    pub open spec fn state_after(self, steps: nat) -> ForwardState
        decreases steps,
    {
        if steps == 0 {
            ForwardState::Uninitialized
        } else {
            self.next_state(self.state_after((steps - 1) as nat))
        }
    }
}

/// Where a forward pass of the sequence encoder stands.
#[derive(Debug, Clone, Copy, PartialEq, Eq, Structural)]
pub enum ForwardState {
    /// Nothing has run; the states are still to be zeroed.
    Uninitialized,
    /// The layer of this number runs or has just run.
    LayerRunning(i64),
    /// Every layer has run.
    Done,
}

/// With equal input and output widths every layer gives the shape of the
/// input: the output of a layer has the shape of the output of the layer
/// before it, from the first layer to the last.
pub proof fn lemma_layers_keep_shape(net: UniLMView, dims: Seq<i64>, layer: nat)
    requires
        net.in_dim == net.out_dim,
        net.accepts(dims),
    ensures
        net.layer_output(dims, layer) == dims,
        net.residual_base(dims, layer) == dims,
        layer >= 1 ==> net.layer_output(dims, layer) == net.layer_output(
            dims,
            (layer - 1) as nat,
        ),
    decreases layer,
{
    if layer > 0 {
        lemma_layers_keep_shape(net, dims, (layer - 1) as nat);
    }
    assert(net.layer_output(dims, layer) =~= dims);
}

/// A forward pass of `n` layers runs layer `k` at step `k + 1`, is done
/// after `n + 1` steps and stays done.
pub proof fn lemma_forward_pass(net: UniLMView, steps: nat)
    requires
        1 <= net.n_lstm_layers,
    ensures
        1 <= steps <= net.n_lstm_layers ==> net.state_after(steps) == ForwardState::LayerRunning(
            (steps - 1) as i64,
        ),
        steps > net.n_lstm_layers ==> net.state_after(steps) == ForwardState::Done,
    decreases steps,
{
    if steps > 0 {
        lemma_forward_pass(net, (steps - 1) as nat);
    }
}

/// The plan of the sequence encoder: a stack of recurrent layers, each
/// projected back to the embedding width and added to what entered it.
#[derive(Debug)]
pub struct UniLM {
    n_lstm_layers: i64,
    in_dim: i64,
    hidden_dim: i64,
    out_dim: i64,
}

impl View for UniLM {
    type V = UniLMView;

    closed spec fn view(&self) -> UniLMView {
        UniLMView {
            n_lstm_layers: self.n_lstm_layers,
            in_dim: self.in_dim,
            hidden_dim: self.hidden_dim,
            out_dim: self.out_dim,
        }
    }
}

/// The hyperparameters describe a sequence encoder: at least one layer,
/// positive widths, and an output as wide as the input, so that the two
/// can be added.
pub open spec fn valid_uni_lm_config(n_lstm_layers: i64, in_dim: i64, hidden_dim: i64, out_dim: i64) -> bool {
    &&& n_lstm_layers > 0
    &&& in_dim > 0
    &&& hidden_dim > 0
    &&& out_dim == in_dim
}

impl UniLM {
    #[verifier::type_invariant]
    spec fn well_formed(self) -> bool {
        valid_uni_lm_config(self.n_lstm_layers, self.in_dim, self.hidden_dim, self.out_dim)
    }

    /// Plans the encoder, or refuses hyperparameters that describe none.
    pub fn new(n_lstm_layers: i64, in_dim: i64, hidden_dim: i64, out_dim: i64) -> (r: Result<
        Self,
        ElmoError,
    >)
        ensures
            match r {
                Ok(net) => valid_uni_lm_config(n_lstm_layers, in_dim, hidden_dim, out_dim) && net@
                    == (UniLMView {
                    n_lstm_layers: n_lstm_layers,
                    in_dim: in_dim,
                    hidden_dim: hidden_dim,
                    out_dim: out_dim,
                }),
                Err(e) => e == ElmoError::Config && !valid_uni_lm_config(
                    n_lstm_layers,
                    in_dim,
                    hidden_dim,
                    out_dim,
                ),
            },
    {
        if n_lstm_layers <= 0 || in_dim <= 0 || hidden_dim <= 0 || out_dim != in_dim {
            return Err(ElmoError::Config);
        }
        Ok(
            Self {
                n_lstm_layers: n_lstm_layers,
                in_dim: in_dim,
                hidden_dim: hidden_dim,
                out_dim: out_dim,
            },
        )
    }

    /// The number of recurrent layers.
    pub fn n_lstm_layers(&self) -> (n: i64)
        ensures
            n == self@.n_lstm_layers,
            n > 0,
    {
        proof {
            use_type_invariant(self);
        }
        self.n_lstm_layers
    }

    /// The width of the token embeddings that enter, and of every
    /// representation that leaves.
    pub fn in_dim(&self) -> (n: i64)
        ensures
            n == self@.in_dim,
            n == self@.out_dim,
            n > 0,
    {
        proof {
            use_type_invariant(self);
        }
        self.in_dim
    }

    /// The width of the recurrent states.
    pub fn hidden_dim(&self) -> (n: i64)
        ensures
            n == self@.hidden_dim,
            n > 0,
    {
        proof {
            use_type_invariant(self);
        }
        self.hidden_dim
    }

    /// The shape of the hidden and of the cell state for input of shape
    /// `dims`; both are zero at the start of every forward pass.
    pub fn state_shape(&self, dims: &Vec<i64>) -> (r: Result<Vec<i64>, ElmoError>)
        ensures
            match r {
                Ok(out) => self@.accepts(dims@) && out@ == self@.state(dims@),
                Err(e) => e == ElmoError::ShapeMismatch && !self@.accepts(dims@),
            },
    {
        proof {
            use_type_invariant(self);
        }
        if dims.len() != 3 {
            return Err(ElmoError::ShapeMismatch);
        }
        if dims[0] < 0 || dims[1] < 0 || dims[2] != self.in_dim {
            return Err(ElmoError::ShapeMismatch);
        }
        let out: Vec<i64> = vec![dims[0], self.hidden_dim];
        proof {
            assert(out@ =~= self@.state(dims@));
        }
        Ok(out)
    }

    /// The shapes of the representations that a forward pass retains for
    /// input of shape `dims`: one for each layer, in order, each of the
    /// shape of the input.
    pub fn forward_shapes(&self, dims: &Vec<i64>) -> (r: Result<Vec<Vec<i64>>, ElmoError>)
        ensures
            match r {
                Ok(stack) => {
                    &&& self@.accepts(dims@)
                    &&& stack@.len() == self@.n_lstm_layers
                    &&& forall|j: int|
                        0 <= j < stack@.len() ==> (#[trigger] stack@[j])@ == self@.layer_output(
                            dims@,
                            j as nat,
                        )
                    &&& forall|j: int| 0 <= j < stack@.len() ==> (#[trigger] stack@[j])@ == dims@
                    &&& forall|j: int|
                        1 <= j < stack@.len() ==> (#[trigger] stack@[j])@ == stack@[j - 1]@
                },
                Err(e) => e == ElmoError::ShapeMismatch && !self@.accepts(dims@),
            },
    {
        proof {
            use_type_invariant(self);
        }
        if dims.len() != 3 {
            return Err(ElmoError::ShapeMismatch);
        }
        if dims[0] < 0 || dims[1] < 0 || dims[2] != self.in_dim {
            return Err(ElmoError::ShapeMismatch);
        }
        let mut outputs: Vec<Vec<i64>> = Vec::new();
        let mut j: i64 = 0;
        while j < self.n_lstm_layers
            invariant
                0 <= j <= self.n_lstm_layers,
                self@.in_dim == self@.out_dim,
                self@.accepts(dims@),
                dims@.len() == 3,
                outputs@.len() == j,
                forall|k: int| 0 <= k < j ==> (#[trigger] outputs@[k])@ == dims@,
            decreases self.n_lstm_layers - j,
        {
            let out: Vec<i64> = vec![dims[0], dims[1], self.out_dim];
            proof {
                assert(out@ =~= dims@);
            }
            outputs.push(out);
            j += 1;
        }
        proof {
            assert forall|k: int| 0 <= k < outputs@.len() implies (#[trigger] outputs@[k])@
                == self@.layer_output(dims@, k as nat) by {
                lemma_layers_keep_shape(self@, dims@, k as nat);
            }
        }
        Ok(outputs)
    }

    /// What a forward pass does after `state`.
    pub fn advance(&self, state: ForwardState) -> (next: ForwardState)
        ensures
            next == self@.next_state(state),
    {
        proof {
            use_type_invariant(self);
        }
        match state {
            ForwardState::Uninitialized => ForwardState::LayerRunning(0),
            ForwardState::LayerRunning(layer) => {
                if layer < self.n_lstm_layers - 1 {
                    ForwardState::LayerRunning(layer + 1)
                } else {
                    ForwardState::Done
                }
            },
            ForwardState::Done => ForwardState::Done,
        }
    }
}

} // verus!

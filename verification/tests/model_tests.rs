use elmo_trainer::{CharLevelNet, CnnBlock, ElmoError, ForwardState, Highway, UniLM};

fn encoder() -> CharLevelNet {
    CharLevelNet::new(128, 15, 15, vec![4, 8, 16], vec![1, 2, 3], 2, 512).unwrap()
}

#[test]
fn a_block_needs_positive_sizes() {
    assert!(CnnBlock::new(15, 4, 3).is_ok());
    assert_eq!(CnnBlock::new(0, 4, 3).err(), Some(ElmoError::Config));
    assert_eq!(CnnBlock::new(15, 0, 3).err(), Some(ElmoError::Config));
    assert_eq!(CnnBlock::new(15, 4, 0).err(), Some(ElmoError::Config));
    assert_eq!(CnnBlock::new(15, -4, 3).err(), Some(ElmoError::Config));
}

#[test]
fn a_block_pools_over_all_that_the_convolution_leaves() {
    let block = CnnBlock::new(15, 4, 3).unwrap();
    assert_eq!(block.out_channels(), 4);
    assert_eq!(block.kernel_size(), 3);
    assert_eq!(block.pool_kernel(50), Ok(48));
    assert_eq!(block.pool_kernel(3), Ok(1));
    assert_eq!(block.pool_kernel(2), Err(ElmoError::ShapeMismatch));
    assert_eq!(block.pool_kernel(-1), Err(ElmoError::ShapeMismatch));
    assert_eq!(block.pool_kernel(i64::MAX), Ok(i64::MAX - 2));
}

#[test]
fn a_block_gives_one_value_for_each_filter() {
    let block = CnnBlock::new(15, 4, 3).unwrap();
    assert_eq!(block.forward_shape(&vec![1, 1, 50, 15]), Ok(vec![1, 4]));
    assert_eq!(block.forward_shape(&vec![7, 1, 3, 15]), Ok(vec![7, 4]));
    assert_eq!(block.forward_shape(&vec![0, 1, 3, 15]), Ok(vec![0, 4]));
}

#[test]
fn a_block_refuses_malformed_shapes() {
    let block = CnnBlock::new(15, 4, 3).unwrap();
    for bad in [
        vec![1, 50, 15],
        vec![1, 1, 50, 15, 1],
        vec![-1, 1, 50, 15],
        vec![1, 2, 50, 15],
        vec![1, 1, 2, 15],
        vec![1, 1, 50, 14],
        vec![],
    ] {
        assert_eq!(block.forward_shape(&bad), Err(ElmoError::ShapeMismatch));
    }
}

#[test]
fn a_highway_keeps_the_width_for_any_width() {
    for width in [1i64, 2, 28, 2048, i64::MAX] {
        let highway = Highway::new(width, width).unwrap();
        for batch in [0i64, 1, 3] {
            assert_eq!(highway.forward_shape(&vec![batch, width]), Ok(vec![batch, width]));
        }
    }
}

#[test]
fn a_highway_needs_one_positive_width() {
    assert_eq!(Highway::new(4, 5).err(), Some(ElmoError::Config));
    assert_eq!(Highway::new(0, 0).err(), Some(ElmoError::Config));
    assert_eq!(Highway::new(-3, -3).err(), Some(ElmoError::Config));
}

#[test]
fn a_highway_refuses_malformed_shapes() {
    let highway = Highway::new(28, 28).unwrap();
    for bad in [vec![1, 27], vec![-1, 28], vec![28], vec![1, 1, 28]] {
        assert_eq!(highway.forward_shape(&bad), Err(ElmoError::ShapeMismatch));
    }
}

#[test]
fn the_encoder_adds_up_its_filters() {
    let net = encoder();
    assert_eq!(net.total_filters(), 28);
    assert_eq!(net.out_dim(), 512);
}

#[test]
fn the_encoder_gives_its_output_width_for_any_token_length() {
    let net = encoder();
    for token_length in [3i64, 4, 50, 1000] {
        assert_eq!(net.forward_shape(&vec![1, 7, token_length]), Ok(vec![1, 7, 512]));
    }
    assert_eq!(net.forward_shape(&vec![2, 0, 3]), Ok(vec![2, 0, 512]));
    for batch in [0i64, 1, 2, 64] {
        assert_eq!(net.forward_shape(&vec![batch, 7, 50]), Ok(vec![batch, 7, 512]));
    }
}

#[test]
fn the_encoder_pools_each_convolution_to_one_value() {
    let net = encoder();
    assert_eq!(net.pool_kernels(50), Ok(vec![50, 49, 48]));
    assert_eq!(net.pool_kernels(3), Ok(vec![3, 2, 1]));
    assert_eq!(net.pool_kernels(2), Err(ElmoError::ShapeMismatch));
}

#[test]
fn the_encoder_refuses_malformed_shapes() {
    let net = encoder();
    for bad in [vec![1, 7], vec![1, 7, 50, 15], vec![-1, 7, 50], vec![1, -1, 50], vec![1, 7, 2], vec![]] {
        assert_eq!(net.forward_shape(&bad), Err(ElmoError::ShapeMismatch));
    }
}

#[test]
fn the_encoder_refuses_hyperparameters_that_describe_none() {
    let bad = [
        CharLevelNet::new(0, 15, 15, vec![4], vec![1], 1, 512),
        CharLevelNet::new(128, 0, 0, vec![4], vec![1], 1, 512),
        CharLevelNet::new(128, 15, 1, vec![4], vec![1], 1, 512),
        CharLevelNet::new(128, 15, 15, vec![4, 8], vec![1], 1, 512),
        CharLevelNet::new(128, 15, 15, vec![4], vec![1, 2], 1, 512),
        CharLevelNet::new(128, 15, 15, vec![], vec![], 1, 512),
        CharLevelNet::new(128, 15, 15, vec![4, 0], vec![1, 2], 1, 512),
        CharLevelNet::new(128, 15, 15, vec![4, 8], vec![1, -2], 1, 512),
        CharLevelNet::new(128, 15, 15, vec![4], vec![1], 0, 512),
        CharLevelNet::new(128, 15, 15, vec![4], vec![1], 1, 0),
        CharLevelNet::new(128, 15, 15, vec![i64::MAX, 1], vec![1, 2], 1, 512),
    ];
    for net in bad {
        assert_eq!(net.err(), Some(ElmoError::Config));
    }
    assert!(CharLevelNet::new(128, 15, 15, vec![i64::MAX - 1, 1], vec![1, 2], 1, 512).is_ok());
}

#[test]
fn the_sequence_encoder_needs_layers_and_one_width() {
    assert!(UniLM::new(2, 512, 4096, 512).is_ok());
    assert_eq!(UniLM::new(0, 512, 4096, 512).err(), Some(ElmoError::Config));
    assert_eq!(UniLM::new(2, 0, 4096, 0).err(), Some(ElmoError::Config));
    assert_eq!(UniLM::new(2, 512, 0, 512).err(), Some(ElmoError::Config));
    assert_eq!(UniLM::new(2, 512, 4096, 256).err(), Some(ElmoError::Config));
    assert_eq!(UniLM::new(2, 512, 4096, 512).unwrap().n_lstm_layers(), 2);
}

#[test]
fn every_layer_gives_the_shape_of_the_layer_before() {
    let net = UniLM::new(3, 512, 4096, 512).unwrap();
    let stack = net.forward_shapes(&vec![1, 9, 512]).unwrap();
    assert_eq!(stack.len(), 3);
    assert_eq!(stack[0], vec![1, 9, 512]);
    assert_eq!(net.forward_shapes(&vec![0, 9, 512]).unwrap(), vec![vec![0, 9, 512]; 3]);
    for layer in 1..stack.len() {
        assert_eq!(stack[layer], stack[layer - 1]);
    }
}

#[test]
fn the_states_start_with_the_hidden_width() {
    let net = UniLM::new(3, 512, 4096, 512).unwrap();
    assert_eq!(net.state_shape(&vec![2, 9, 512]), Ok(vec![2, 4096]));
}

#[test]
fn the_sequence_encoder_refuses_malformed_shapes() {
    let net = UniLM::new(3, 512, 4096, 512).unwrap();
    for bad in [vec![1, 9], vec![1, 9, 511], vec![-1, 9, 512], vec![1, -1, 512], vec![1, 9, 512, 1]] {
        assert_eq!(net.forward_shapes(&bad), Err(ElmoError::ShapeMismatch));
        assert_eq!(net.state_shape(&bad), Err(ElmoError::ShapeMismatch));
    }
}

#[test]
fn a_forward_pass_runs_the_layers_in_order_and_ends() {
    let net = UniLM::new(3, 512, 4096, 512).unwrap();
    let mut state = ForwardState::Uninitialized;
    let mut seen = Vec::new();
    for _ in 0..6 {
        state = net.advance(state);
        seen.push(state);
    }
    assert_eq!(
        seen,
        vec![
            ForwardState::LayerRunning(0),
            ForwardState::LayerRunning(1),
            ForwardState::LayerRunning(2),
            ForwardState::Done,
            ForwardState::Done,
            ForwardState::Done,
        ]
    );
}

#[test]
fn a_pass_of_one_layer_is_done_after_it() {
    let net = UniLM::new(1, 8, 8, 8).unwrap();
    assert_eq!(net.advance(ForwardState::Uninitialized), ForwardState::LayerRunning(0));
    assert_eq!(net.advance(ForwardState::LayerRunning(0)), ForwardState::Done);
    assert_eq!(net.advance(ForwardState::LayerRunning(i64::MAX)), ForwardState::Done);
}

#[test]
fn the_encoder_hands_out_its_layers() {
    let net = encoder();
    assert_eq!(net.vocab_size(), 128);
    assert_eq!(net.embedding_dim(), 15);
    let blocks: Vec<CnnBlock> = net.conv_blocks().iter().map(|block| *block).collect();
    assert_eq!(blocks.len(), 3);
    let sizes: Vec<(i64, i64, i64)> = blocks
        .iter()
        .map(|block| (block.in_channels(), block.out_channels(), block.kernel_size()))
        .collect();
    assert_eq!(sizes, vec![(15, 4, 1), (15, 8, 2), (15, 16, 3)]);
    let widths: Vec<i64> = net.highways().iter().map(|highway| highway.width()).collect();
    assert_eq!(widths, vec![28, 28]);
}

#[test]
fn the_sequence_encoder_hands_out_its_widths() {
    let net = UniLM::new(2, 512, 4096, 512).unwrap();
    assert_eq!(net.in_dim(), 512);
    assert_eq!(net.hidden_dim(), 4096);
}

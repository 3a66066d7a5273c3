//! The aggregators of hashes, their multiplication steps, and the tables of points.

use cairo_cuda_witness::column::BaseFieldVec;
use cairo_cuda_witness::components_cuda::partial_ec_mul_cuda;
use cairo_cuda_witness::components_cuda::pedersen_aggregator_wb9_cuda::{self, AggregatorInput};
use cairo_cuda_witness::components_cuda::pedersen_cuda;
use cairo_cuda_witness::components_cuda::pedersen_points_table_cuda;
use cairo_cuda_witness::components_cuda::pedersen_points_table_wb9_cuda;
use cairo_cuda_witness::components_cuda::pedersen_wb9_cuda;
use cairo_cuda_witness::field::SecureField;
use cairo_cuda_witness::inputs::ComponentInputs;
use cairo_cuda_witness::launch::InteractionOutcome;
use cairo_cuda_witness::range_checks_cuda::RangeChecksCudaClaimGenerator;
use cairo_cuda_witness::tree_builder::TreeBuilder;

fn column(values: &[u32]) -> BaseFieldVec {
    BaseFieldVec::from_vec(values.to_vec())
}

fn numbered(width: u32, len: u32) -> Vec<BaseFieldVec> {
    (0..width)
        .map(|c| BaseFieldVec::from_vec((0..len).map(|r| 1000 * c + r).collect()))
        .collect()
}

fn zeroes(width: usize, len: usize) -> Vec<BaseFieldVec> {
    (0..width).map(|_| BaseFieldVec::from_vec(vec![0; len])).collect()
}

fn hash(limb_0: u32, limb_1: u32, limb_2: u32, multiplicity: u32) -> AggregatorInput {
    AggregatorInput { limb_0, limb_1, limb_2, multiplicity }
}

fn outcome(width: usize, log_size: u32, first: u32) -> InteractionOutcome {
    InteractionOutcome {
        columns: zeroes(width, 1 << log_size),
        claimed_sum: [first, 0, 0, 0],
    }
}

#[test]
fn hashes_are_listed_by_operands() {
    let mut aggregator = pedersen_aggregator_wb9_cuda::CudaClaimGenerator::new();
    assert!(aggregator.is_empty());
    aggregator.inner = vec![hash(2, 1, 70, 1), hash(1, 9, 71, 2), hash(1, 3, 72, 3)];
    assert!(!aggregator.is_empty());
    assert_eq!(aggregator.inner().len(), 3);
    assert_eq!(
        aggregator.sorted_inputs(),
        vec![hash(1, 3, 72, 3), hash(1, 9, 71, 2), hash(2, 1, 70, 1)]
    );
    let packed = aggregator.pack();
    assert_eq!((packed.n_rows, packed.log_size), (3, 4));
    assert_eq!(packed.inputs[0].to_vec()[..4], [1, 1, 2, 1]);
    assert_eq!(packed.inputs[1].to_vec()[..4], [3, 9, 1, 3]);
    assert_eq!(packed.inputs[2].to_vec()[..4], [72, 71, 70, 72]);
    assert_eq!(packed.multiplicities.to_vec()[..4], [3, 2, 1, 0]);
    assert_eq!(packed.multiplicities.to_vec().len(), 16);
}

#[test]
fn hashes_of_the_same_operands_keep_their_order() {
    let mut aggregator = pedersen_aggregator_wb9_cuda::CudaClaimGenerator::new();
    aggregator.inner = vec![hash(5, 5, 2, 1), hash(5, 5, 1, 2), hash(0, 6, 0, 3)];
    assert_eq!(
        aggregator.sorted_inputs(),
        vec![hash(0, 6, 0, 3), hash(5, 5, 2, 1), hash(5, 5, 1, 2)]
    );
}

#[test]
fn steps_are_padded_by_the_first_pack() {
    let mut steps = partial_ec_mul_cuda::CudaClaimGenerator::new();
    assert!(steps.is_empty());
    steps.set_cuda_inputs(numbered(72, 5), 5);
    assert!(!steps.is_empty());
    assert_eq!(steps.pad_inputs(), 3);
    assert_eq!(steps.input_columns[1].to_vec()[5..], [1000, 1001, 1002]);
    let mut steps = partial_ec_mul_cuda::CudaClaimGenerator::new();
    steps.set_cuda_inputs(numbered(72, 40), 40);
    assert_eq!(steps.pad_inputs(), 6);
    assert_eq!(steps.input_columns[0].to_vec()[39..42], [39, 0, 1]);
    // After sixteen rows the repetition starts again.
    assert_eq!(steps.input_columns[0].to_vec()[55..58], [15, 0, 1]);
}

#[test]
fn packed_steps_follow_the_steps() {
    let mut steps = partial_ec_mul_cuda::CudaClaimGenerator::new();
    let row: Vec<[u32; 16]> = (0..72).map(|f| [f; 16]).collect();
    steps.add_packed_inputs(&vec![row]);
    assert_eq!(steps.size, 16);
    assert_eq!(steps.input_columns[71].to_vec(), vec![71; 16]);
}

#[test]
fn a_table_of_points_is_counted_and_merged() {
    let mut table = pedersen_points_table_wb9_cuda::CudaClaimGenerator::new();
    table.add_cuda_inputs(&vec![vec![column(&[3, 0, 3])], vec![column(&[28671])]]);
    table.merge_simd_multiplicities(&vec![1, 2]);
    let counters = table.get_multiplicities_cpu();
    assert_eq!(counters.len(), 1 << 15);
    assert_eq!(counters[..4], [2, 2, 0, 2]);
    assert_eq!(counters[28671], 1);
    let mut tree = TreeBuilder::new();
    let (_, pending) = table.write_trace_cuda(&mut tree);
    assert_eq!(tree.evals.len(), 1);
    assert_eq!(tree.evals[0].log_size, 15);
    assert_eq!(pending.multiplicities.to_vec()[3], 2);
    let cols = pending.interaction_columns();
    assert_eq!(cols.len(), 4);
    let claim = pending.write_interaction_trace(&mut tree, cols, [0, 7, 0, 0]);
    assert_eq!(claim.claimed_sum, SecureField { a: 0, b: 7, c: 0, d: 0 });
    assert_eq!(tree.evals.len(), 5);
}

#[test]
fn the_large_table_of_points_is_padded() {
    assert_eq!(pedersen_points_table_cuda::PEDERSEN_TABLE_N_ROWS, 7340032);
    let mut table = pedersen_points_table_cuda::CudaClaimGenerator::new();
    table.add_cuda_inputs(&vec![vec![column(&[7340031, 2])]]);
    let counters = table.get_multiplicities_cpu();
    assert_eq!(counters.len(), 1 << 23);
    assert_eq!(counters[7340031], 1);
    assert_eq!(counters[2], 1);
}

#[test]
fn an_empty_context_writes_nothing() {
    let mut tree = TreeBuilder::new();
    let mut memory = ComponentInputs::new();
    let mut tables = RangeChecksCudaClaimGenerator::new();
    let context = pedersen_cuda::PedersenContextCudaClaimGenerator::new();
    assert!(context.is_empty());
    let (result, steps, _) = context.write_trace_aggregator(
        None,
        &mut tree,
        &mut memory,
        &mut tables.rc_8_trace_generator,
    );
    assert!(result.is_none());
    assert!(steps.is_empty());
    let small = pedersen_wb9_cuda::PedersenContextWb9CudaClaimGenerator::new();
    assert!(small.is_empty());
    let (result, steps, _) = small.write_trace_aggregator(
        None,
        &mut tree,
        &mut memory,
        &mut tables.rc_8_trace_generator,
    );
    assert!(result.is_none());
    assert!(steps.is_empty());
    assert_eq!(tree.evals.len(), 0);
    assert_eq!(memory.fed.len(), 0);

    let mode = pedersen_cuda::PedersenInteractionMode::Empty;
    assert!(mode.is_empty());
    assert!(mode.write_interaction_trace(&mut tree, None).claim.is_none());
    let mode = pedersen_wb9_cuda::PedersenWb9InteractionMode::Empty;
    assert!(mode.is_empty());
    assert!(mode.write_interaction_trace(&mut tree, None).claim.is_none());
    assert_eq!(tree.evals.len(), 0);
    assert!(pedersen_cuda::PedersenContextCudaInteractionClaimGenerator::new_empty().is_empty());
    assert!(
        pedersen_wb9_cuda::PedersenContextWb9CudaInteractionClaimGenerator::new_empty().is_empty()
    );
}

#[test]
fn a_context_writes_its_three_components() {
    let mut context = pedersen_cuda::PedersenContextCudaClaimGenerator::new();
    context.pedersen_aggregator_cuda.inner = vec![hash(1, 2, 3, 1)];
    assert!(!context.is_empty());
    let mut output = pedersen_cuda::AggregatorOutput {
        log_size: 4,
        trace: zeroes(206, 16),
        lookup_data: vec![],
        memory_ids: vec![vec![column(&[5])]],
        bytes: vec![vec![column(&[255, 7])]],
        steps: numbered(72, 3),
        total_steps: 3,
    };
    assert!(output.is_wf());
    output.bytes[0][0].values[0] = 256;
    assert!(!output.is_wf());
    output.bytes[0][0].values[0] = 255;
    output.total_steps = 4;
    assert!(!output.is_wf());
    output.total_steps = 3;
    let mut tree = TreeBuilder::new();
    let mut memory = ComponentInputs::new();
    let mut tables = RangeChecksCudaClaimGenerator::new();
    let (result, mut steps, table) = context.write_trace_aggregator(
        Some(output),
        &mut tree,
        &mut memory,
        &mut tables.rc_8_trace_generator,
    );
    let result = result.unwrap();
    assert_eq!(result.pedersen_aggregator_claim.log_size, 4);
    assert_eq!(tree.evals.len(), 206);
    assert_eq!(memory.fed[0][0].to_vec(), vec![5]);
    assert_eq!(tables.rc_8_trace_generator.get_multiplicities()[255], 1);
    assert_eq!(steps.size, 3);

    let log_size = steps.pad_inputs();
    assert_eq!(log_size, 2);
    let mut buffers = partial_ec_mul_cuda::CudaClaimGenerator::trace_buffers(log_size);
    assert_eq!((buffers.trace.len(), buffers.lookups.len()), (297, 18));
    buffers.sub_inputs[0][0][0] = column(&[9, 9, 0, 7340031]);
    buffers.sub_inputs[1][5][1].values[2] = 511;
    buffers.sub_inputs[16][8][0].values[0] = 1048575;
    let written = pedersen_cuda::write_cuda_components(
        steps,
        table,
        log_size,
        buffers,
        &mut tree,
        &mut tables.rc_9_9_trace_generator,
        &mut tables.rc_20_trace_generator,
    );
    assert_eq!(written.partial_ec_mul_claim.log_size, 2);
    assert_eq!(tree.evals.len(), 206 + 297 + 1);
    assert_eq!(tree.evals[503].log_size, 23);
    // The table is fed before it is committed.
    assert_eq!(tree.evals[503].values.values[9], 2);
    assert_eq!(tables.rc_9_9_trace_generator.multiplicities[0].values[511], 1);
    assert_eq!(tables.rc_9_9_trace_generator.multiplicities[0].values[0], 23);
    assert_eq!(tables.rc_9_9_trace_generator.multiplicities[7].values[0], 12);
    assert_eq!(tables.rc_20_trace_generator.0.multiplicities[7].values[1048575], 1);
    assert_eq!(tables.rc_20_trace_generator.0.multiplicities[0].values[0], 48);

    let gen = pedersen_cuda::PedersenContextCudaInteractionClaimGenerator::new(
        result.pedersen_aggregator_interaction_gen,
        written.partial_ec_mul_interaction_gen,
        written.ppt_interaction_gen,
    );
    assert!(!gen.is_empty());
    let mut outcomes = pedersen_cuda::InteractionOutcomes {
        aggregator: outcome(8, 4, 1),
        pem: outcome(260, 2, 2),
        ppt: outcome(4, 23, 3),
    };
    assert!(gen.can_write_interaction_trace(&outcomes));
    let last = outcomes.pem.columns.pop().unwrap();
    assert!(!gen.can_write_interaction_trace(&outcomes));
    outcomes.pem.columns.push(last);
    let mut tree = TreeBuilder::new();
    let mode = pedersen_cuda::PedersenInteractionMode::Cuda(gen);
    assert!(!mode.is_empty());
    let claim = mode.write_interaction_trace(&mut tree, Some(outcomes)).claim.unwrap();
    assert_eq!(tree.evals.len(), 8 + 260 + 4);
    assert_eq!(claim.pedersen_aggregator.claimed_sum.a, 1);
    assert_eq!(claim.partial_ec_mul.claimed_sum.a, 2);
    assert_eq!(claim.pedersen_points_table.claimed_sum.a, 3);
}

#[test]
fn a_context_of_small_windows_writes_its_three_components() {
    let mut context = pedersen_wb9_cuda::PedersenContextWb9CudaClaimGenerator::new();
    context.pedersen_aggregator_wb9_cuda.inner = vec![hash(4, 2, 3, 9), hash(1, 2, 3, 8)];
    let packed = context.pedersen_aggregator_wb9_cuda.pack();
    let (mut buffers, step_columns) =
        pedersen_aggregator_wb9_cuda::CudaClaimGenerator::trace_buffers(packed.log_size);
    assert_eq!((step_columns.len(), step_columns[0].size()), (86, 56 * 16));
    buffers.sub_inputs[0][2][0].values[0] = 77;
    buffers.sub_inputs[1][3][0].values[1] = 200;
    let mut output =
        pedersen_wb9_cuda::AggregatorOutput { packed, buffers, steps: step_columns };
    assert!(output.is_wf());
    output.buffers.sub_inputs[1][0][0].values[0] = 256;
    assert!(!output.is_wf());
    output.buffers.sub_inputs[1][0][0].values[0] = 0;
    let mut tree = TreeBuilder::new();
    let mut memory = ComponentInputs::new();
    let mut tables = RangeChecksCudaClaimGenerator::new();
    let (result, steps, table) = context.write_trace_aggregator(
        Some(output),
        &mut tree,
        &mut memory,
        &mut tables.rc_8_trace_generator,
    );
    let result = result.unwrap();
    assert_eq!(result.pedersen_aggregator_claim.log_size, 4);
    assert_eq!(
        result.pedersen_aggregator_interaction_gen.multiplicities.to_vec()[..3],
        [8, 9, 0]
    );
    assert_eq!(tree.evals.len(), 234);
    assert_eq!(memory.fed.len(), 3);
    assert_eq!(memory.fed[2][0].values[0], 77);
    assert_eq!(tables.rc_8_trace_generator.get_multiplicities()[200], 1);
    assert_eq!(steps.size, 56 * 16);

    let mut steps = pedersen_wb9_cuda::StepOutput {
        log_size: 10,
        trace: zeroes(311, 1024),
        lookup_data: vec![],
        point_indices: vec![vec![column(&[6, 6])]],
        pairs: (0..8).map(|_| vec![vec![column(&[1]), column(&[2])]]).collect(),
        carries: (0..8).map(|_| vec![vec![column(&[3])]]).collect(),
    };
    assert!(steps.is_wf());
    steps.pairs[7][0][0].values[0] = 512;
    assert!(!steps.is_wf());
    steps.pairs[7][0][0].values[0] = 1;
    let written = pedersen_wb9_cuda::write_cuda_components(
        steps,
        table,
        &mut tree,
        &mut tables.rc_9_9_trace_generator,
        &mut tables.rc_20_trace_generator,
    );
    assert_eq!(written.partial_ec_mul_claim.log_size, 10);
    assert_eq!(tree.evals.len(), 234 + 311 + 1);
    assert_eq!(written.ppt_interaction_gen.multiplicities.values[6], 2);
    assert_eq!(tables.rc_9_9_trace_generator.multiplicities[7].values[514], 1);
    assert_eq!(tables.rc_20_trace_generator.0.multiplicities[0].values[3], 1);

    let gen = pedersen_wb9_cuda::PedersenContextWb9CudaInteractionClaimGenerator::new(
        result.pedersen_aggregator_interaction_gen,
        written.partial_ec_mul_interaction_gen,
        written.ppt_interaction_gen,
    );
    let outcomes = pedersen_wb9_cuda::InteractionOutcomes {
        aggregator: outcome(24, 4, 1),
        pem: outcome(5, 10, 2),
        ppt: outcome(4, 15, 3),
    };
    assert!(gen.can_write_interaction_trace(&outcomes));
    let other = pedersen_wb9_cuda::InteractionOutcomes {
        aggregator: outcome(24, 4, 1),
        pem: outcome(5, 9, 2),
        ppt: outcome(4, 15, 3),
    };
    assert!(!gen.can_write_interaction_trace(&other));
    let mut tree = TreeBuilder::new();
    let mode = pedersen_wb9_cuda::PedersenWb9InteractionMode::Cuda(gen);
    let claim = mode.write_interaction_trace(&mut tree, Some(outcomes)).claim.unwrap();
    assert_eq!(tree.evals.len(), 24 + 5 + 4);
    assert_eq!(tree.evals[24].log_size, 10);
    assert_eq!(claim.pedersen_points_table.claimed_sum.a, 3);
}

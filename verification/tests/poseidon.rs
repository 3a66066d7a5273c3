//! The chains of rounds, the aggregators that feed them, and the context around them.

use cairo_cuda_witness::column::BaseFieldVec;
use cairo_cuda_witness::components_cuda::poseidon_aggregator_cuda::{
    packed_felt252w27_to_basefieldvec_10, simd_to_cuda_3_partial, simd_to_cuda_full_round_chain,
    HostOutput, MemoryMerges, MemoryReads, PoseidonAggregatorCudaClaimGenerator,
};
use cairo_cuda_witness::components_cuda::poseidon_aggregator_native_cuda;
use cairo_cuda_witness::components_cuda::poseidon_cuda::{
    pack_values, round_keys_table, ChainOutputs, ChainsWritten, FedOutputs, InteractionOutcomes,
    PoseidonContextCudaClaimGenerator, PoseidonContextCudaInteractionClaimGenerator,
    PoseidonContextProgress,
};
use cairo_cuda_witness::components_cuda::range_check_252_width_27_cuda;
use cairo_cuda_witness::field::SecureField;
use cairo_cuda_witness::hash_checks::{are_packed_rows, have_counts, have_length};
use cairo_cuda_witness::inputs::{ComponentInputs, RowInputs};
use cairo_cuda_witness::launch::InteractionOutcome;
use cairo_cuda_witness::range_checks_cuda::RangeChecksCudaClaimGenerator;
use cairo_cuda_witness::tree_builder::TreeBuilder;

fn column(values: &[u32]) -> BaseFieldVec {
    BaseFieldVec::from_vec(values.to_vec())
}

/// `width` columns of `len` values; the value in column `c` and row `r` is `1000 * c + r`.
fn numbered(width: u32, len: u32) -> Vec<BaseFieldVec> {
    (0..width)
        .map(|c| BaseFieldVec::from_vec((0..len).map(|r| 1000 * c + r).collect()))
        .collect()
}

fn zeroes(width: usize, len: usize) -> Vec<BaseFieldVec> {
    (0..width).map(|_| BaseFieldVec::from_vec(vec![0; len])).collect()
}

/// One pack for each of `width` fields; lane `l` of field `f` holds `100 * f + l`.
fn packed_row(width: u32) -> Vec<[u32; 16]> {
    (0..width)
        .map(|f| {
            let mut pack = [0; 16];
            for (lane, value) in pack.iter_mut().enumerate() {
                *value = 100 * f + lane as u32;
            }
            pack
        })
        .collect()
}

fn outcome(width: usize, log_size: u32, first: u32) -> InteractionOutcome {
    InteractionOutcome {
        columns: zeroes(width, 1 << log_size),
        claimed_sum: [first, 0, 0, 0],
    }
}

#[test]
fn packs_are_padded_by_the_first() {
    let packs = pack_values(&(1..=20).collect());
    assert_eq!(packs.len(), 2);
    assert_eq!(packs[0][15], 16);
    assert_eq!(packs[1][..5], [17, 18, 19, 20, 1]);
    assert_eq!(packs[1][15], 1);
    let packs = pack_values(&(0..33).collect());
    assert_eq!(packs.len(), 4);
    assert_eq!(packs[2][0], 32);
    assert_eq!(packs[2][1], 0);
    assert_eq!(packs[3], packs[0]);
}

#[test]
fn round_keys_stand_in_three_groups_of_ten() {
    let table = round_keys_table(&numbered(30, 2));
    assert_eq!(table.len(), 3);
    assert_eq!(table[1].len(), 10);
    assert_eq!(table[2][9].to_vec(), vec![29000, 29001]);
}

#[test]
fn a_new_context_is_empty() {
    let mut context = PoseidonContextCudaClaimGenerator::new();
    assert!(context.is_empty());
    assert!(context.is_wf());
    let keys = context.round_key_inputs();
    assert_eq!(keys, vec![[0; 16], [0; 16]]);
    context.poseidon_full_round_chain_cuda.add_cuda_inputs(&numbered(32, 3));
    assert!(!context.is_empty());
    // The rows took the place of the placeholder.
    assert_eq!(context.poseidon_full_round_chain_cuda.inputs.size, 3);
    assert_eq!(context.poseidon_full_round_chain_cuda.round_numbers(), vec![1000, 1001, 1002]);
    let keys = context.round_key_inputs();
    assert_eq!(keys.len(), 2);
    assert_eq!(keys[0][..4], [1000, 1001, 1002, 1000]);
    context.poseidon_full_round_chain_cuda.add_cuda_inputs(&numbered(32, 2));
    assert_eq!(context.poseidon_full_round_chain_cuda.inputs.size, 5);
    assert_eq!(
        context.poseidon_full_round_chain_cuda.inputs.columns[2].to_vec(),
        vec![2000, 2001, 2002, 2000, 2001]
    );
}

#[test]
fn packed_rows_replace_all_rows() {
    let mut context = PoseidonContextCudaClaimGenerator::new();
    context.poseidon_full_round_chain_cuda.add_cuda_inputs(&numbered(32, 3));
    context.poseidon_full_round_chain_cuda.add_packed_inputs(&vec![packed_row(32)]);
    assert_eq!(context.poseidon_full_round_chain_cuda.inputs.size, 16);
    assert_eq!(context.poseidon_full_round_chain_cuda.inputs.columns[3].to_vec()[2], 302);
    context.poseidon_3_partial_rounds_chain_cuda.add_packed_inputs(&vec![packed_row(42)]);
    assert_eq!(context.poseidon_3_partial_rounds_chain_cuda.inputs.columns[41].to_vec()[15], 4115);
    context.range_check_252_width_27_cuda.add_packed_inputs(&vec![packed_row(10)]);
    assert!(!context.range_check_252_width_27_cuda.is_empty());
    assert!(context.is_wf());
}

#[test]
fn packs_become_columns() {
    let cols = packed_felt252w27_to_basefieldvec_10(&vec![packed_row(10), packed_row(10)]);
    assert_eq!(cols.len(), 10);
    assert_eq!(cols[4].to_vec()[..3], [400, 401, 402]);
    assert_eq!(cols[4].to_vec()[16], 400);
    let cols = simd_to_cuda_full_round_chain(&vec![packed_row(32)]);
    assert_eq!((cols.len(), cols[31].to_vec()[15]), (32, 3115));
    let cols = simd_to_cuda_3_partial(&vec![packed_row(42)]);
    assert_eq!((cols.len(), cols[41].to_vec()[0]), (42, 4100));
}

fn chain_outputs() -> ChainOutputs {
    let mut carries = zeroes(30, 4);
    carries[4].values[0] = 7;
    let mut rc_4_4_counts = vec![0; 1 << 8];
    rc_4_4_counts[3] = 9;
    let mut rc_4_4_4_4_counts = vec![0; 1 << 16];
    rc_4_4_4_4_counts[65535] = 11;
    ChainOutputs {
        partial_trace: numbered(156, 2),
        rc_4_4_counts,
        rc_4_4_4_4_counts,
        full_trace: numbered(126, 4),
        carries,
    }
}

fn write_chains(
    context: PoseidonContextCudaClaimGenerator,
    tree: &mut TreeBuilder,
    tables: &mut RangeChecksCudaClaimGenerator,
) -> ChainsWritten {
    match context.write_trace(Some(chain_outputs()), tree, tables) {
        PoseidonContextProgress::ChainsWritten(rounds, chains) => {
            assert_eq!(rounds.len(), 2);
            assert_eq!(rounds[0][..4], [1000, 1001, 1002, 1000]);
            assert_eq!(rounds[1][..3], [1000, 1001, 1000]);
            chains
        }
        PoseidonContextProgress::Finished(..) => panic!("there are hashes"),
    }
}

fn fed_context() -> PoseidonContextCudaClaimGenerator {
    let mut context = PoseidonContextCudaClaimGenerator::new();
    context.poseidon_full_round_chain_cuda.add_cuda_inputs(&numbered(32, 3));
    context.poseidon_3_partial_rounds_chain_cuda.add_cuda_inputs(&numbered(42, 2));
    context
}

#[test]
fn chains_are_checked_against_their_outputs() {
    assert!(fed_context().can_write_chains(&chain_outputs()));
    assert!(!PoseidonContextCudaClaimGenerator::new().can_write_chains(&chain_outputs()));
    let mut outputs = chain_outputs();
    outputs.full_trace.pop();
    assert!(!fed_context().can_write_chains(&outputs));
    let mut outputs = chain_outputs();
    outputs.carries[0].values[0] = 8;
    assert!(!fed_context().can_write_chains(&outputs));
    let mut outputs = chain_outputs();
    outputs.rc_4_4_counts.pop();
    assert!(!fed_context().can_write_chains(&outputs));
}

#[test]
fn a_context_writes_all_its_traces() {
    let context = fed_context();
    let (padded, log_size) = context.poseidon_full_round_chain_cuda.kernel_inputs();
    assert_eq!(log_size, 2);
    assert_eq!(padded[2].to_vec(), vec![2000, 2001, 2002, 2000]);
    let (padded, log_size) = context.poseidon_3_partial_rounds_chain_cuda.kernel_inputs();
    assert_eq!((padded.len(), log_size), (42, 1));

    let mut tree = TreeBuilder::new();
    let mut tables = RangeChecksCudaClaimGenerator::new();
    let chains = write_chains(context, &mut tree, &mut tables);
    assert_eq!(chains.poseidon_3_partial_rounds_chain.log_size, 1);
    assert_eq!(chains.poseidon_full_round_chain.log_size, 2);
    assert_eq!(tree.evals.len(), 156 + 126);
    assert_eq!(tree.evals[0].log_size, 1);
    // The last row is padding, which is not enabled.
    assert_eq!(tree.evals[156 + 125].values.to_vec(), vec![125000, 125001, 125002, 0]);
    assert_eq!(chains.cube_252.fed.len(), 6);
    assert_eq!(chains.cube_252.fed[0][0].to_vec(), vec![32000, 32001]);
    assert_eq!(chains.cube_252.fed[1][0].to_vec(), vec![93000, 93001]);
    assert_eq!(chains.cube_252.fed[2][9].to_vec(), vec![134000, 134001]);
    assert_eq!(chains.cube_252.fed[3][0].to_vec(), vec![2000, 2001, 2002, 2000]);
    assert_eq!(chains.cube_252.fed[5][9].to_vec(), vec![31000, 31001, 31002, 31000]);
    assert_eq!(
        chains.range_check_252_width_27.inputs.columns[0].to_vec(),
        vec![82000, 82001, 114000, 114001, 146000, 146001]
    );
    assert_eq!(tables.rc_4_4_trace_generator.get_multiplicities()[3], 9);
    assert_eq!(tables.rc_4_4_4_4_trace_generator.get_multiplicities()[65535], 11);
    // The only carry that is not zero is the last one of the first lookup.
    assert_eq!(tables.rc_3_3_3_3_3_trace_generator.get_multiplicities()[7], 1);
    assert_eq!(tables.rc_3_3_3_3_3_trace_generator.get_multiplicities()[0], 23);

    let (padded, log_size) = chains.range_check_252_width_27.kernel_inputs();
    assert_eq!((padded[0].size(), log_size), (8, 3));
    let mut rc_18_counts = vec![vec![0; 1 << 18]; 2];
    rc_18_counts[1][5] = 4;
    let mut rc_9_9_counts = vec![vec![0; 1 << 18]; 5];
    rc_9_9_counts[4][6] = 3;
    let mut cube_252_rc_9_9_counts = vec![vec![0; 1 << 18]; 8];
    cube_252_rc_9_9_counts[4][6] = 2;
    cube_252_rc_9_9_counts[7][1] = 8;
    let mut cube_252_rc_20_counts = vec![vec![0; 1 << 20]; 8];
    cube_252_rc_20_counts[2][9] = 1;
    let mut outputs = FedOutputs {
        cube_252_log_size: 4,
        cube_252_trace: zeroes(3, 16),
        cube_252_lookup_data: vec![vec![zeroes(2, 16)]],
        cube_252_rc_9_9_counts,
        cube_252_rc_20_counts,
        round_keys_log_size: 6,
        round_keys_trace: zeroes(1, 64),
        round_keys_lookup_data: vec![],
        rc_252_trace: zeroes(20, 8),
        rc_252_rc_18_counts: rc_18_counts,
        rc_252_rc_9_9_counts: rc_9_9_counts,
    };
    assert!(chains.can_write_trace(&outputs));
    outputs.round_keys_log_size = 5;
    assert!(!chains.can_write_trace(&outputs));
    outputs.round_keys_log_size = 6;
    let before = tree.evals.len();
    let (claim, pending) = chains.write_trace(outputs, &mut tree, &mut tables);
    let claim = claim.claim.unwrap();
    assert_eq!(claim.cube_252.log_size, 4);
    assert_eq!(claim.poseidon_round_keys.log_size, 6);
    assert_eq!(claim.range_check_252_width_27.log_size, 3);
    assert_eq!(claim.poseidon_full_round_chain.log_size, 2);
    assert_eq!(tree.evals.len(), before + 24);
    assert_eq!(tree.evals[before + 3].log_size, 6);
    assert_eq!(tree.evals[before + 4].log_size, 3);
    assert_eq!(tables.rc_18_trace_generator.0.multiplicities[1].to_vec()[5], 4);
    assert_eq!(tables.rc_20_trace_generator.0.multiplicities[2].to_vec()[9], 1);
    assert_eq!(tables.rc_9_9_trace_generator.multiplicities[4].to_vec()[6], 5);
    assert_eq!(tables.rc_9_9_trace_generator.multiplicities[7].to_vec()[1], 8);

    let outcomes = InteractionOutcomes {
        poseidon_3_partial_rounds_chain: outcome(36, 1, 1),
        poseidon_full_round_chain: outcome(24, 2, 2),
        cube_252: outcome(12, 4, 3),
        poseidon_round_keys: outcome(4, 6, 4),
        range_check_252_width_27: outcome(32, 3, 5),
    };
    let gen = pending.gen.as_ref().unwrap();
    assert!(gen.can_write_interaction_trace(&outcomes));
    assert_eq!(gen.cube_252_interaction_gen.lookup_data[0][0].len(), 2);
    let mut tree = TreeBuilder::new();
    let claim = pending.write_interaction_trace(&mut tree, Some(outcomes)).claim.unwrap();
    assert_eq!(tree.evals.len(), 36 + 24 + 12 + 4 + 32);
    assert_eq!(tree.evals[36].log_size, 2);
    assert_eq!(claim.cube_252.claimed_sum, SecureField { a: 3, b: 0, c: 0, d: 0 });
    assert_eq!(claim.range_check_252_width_27.claimed_sum.a, 5);
}

#[test]
fn outcomes_of_another_size_do_not_fit() {
    let mut tree = TreeBuilder::new();
    let mut tables = RangeChecksCudaClaimGenerator::new();
    let chains = write_chains(fed_context(), &mut tree, &mut tables);
    let outputs = FedOutputs {
        cube_252_log_size: 1,
        cube_252_trace: zeroes(1, 2),
        cube_252_lookup_data: vec![],
        cube_252_rc_9_9_counts: vec![vec![0; 1 << 18]; 8],
        cube_252_rc_20_counts: vec![vec![0; 1 << 20]; 8],
        round_keys_log_size: 6,
        round_keys_trace: zeroes(1, 64),
        round_keys_lookup_data: vec![],
        rc_252_trace: zeroes(20, 8),
        rc_252_rc_18_counts: vec![vec![0; 1 << 18]; 2],
        rc_252_rc_9_9_counts: vec![vec![0; 1 << 18]; 5],
    };
    let (_, pending) = chains.write_trace(outputs, &mut tree, &mut tables);
    let outcomes = InteractionOutcomes {
        poseidon_3_partial_rounds_chain: outcome(36, 1, 0),
        poseidon_full_round_chain: outcome(24, 3, 0),
        cube_252: outcome(12, 1, 0),
        poseidon_round_keys: outcome(4, 6, 0),
        range_check_252_width_27: outcome(32, 3, 0),
    };
    assert!(!pending.gen.unwrap().can_write_interaction_trace(&outcomes));
}

#[test]
fn without_hashes_nothing_is_claimed() {
    let mut tree = TreeBuilder::new();
    let mut tables = RangeChecksCudaClaimGenerator::new();
    let context = PoseidonContextCudaClaimGenerator::new();
    match context.write_trace(None, &mut tree, &mut tables) {
        PoseidonContextProgress::Finished(claim, pending) => {
            assert!(claim.claim.is_none());
            assert!(pending.gen.is_none());
        }
        PoseidonContextProgress::ChainsWritten(..) => panic!("there are no hashes"),
    }
    let pending = PoseidonContextCudaInteractionClaimGenerator::new_empty();
    assert!(pending.write_interaction_trace(&mut tree, None).claim.is_none());
    assert_eq!(tree.evals.len(), 0);
}

#[test]
fn the_native_aggregator_feeds_the_chains() {
    let aggregator =
        poseidon_aggregator_native_cuda::CudaClaimGenerator::from_gpu_ids(numbered(6, 2), 1);
    assert_eq!(aggregator.multiplicities().to_vec(), vec![1, 1]);
    let mut buffers = poseidon_aggregator_native_cuda::CudaClaimGenerator::trace_buffers(1);
    assert_eq!(buffers.trace.len(), 342);
    buffers.trace = numbered(342, 2);
    for (e, entry) in buffers.lookups[4].iter_mut().enumerate() {
        entry[1] = column(&[e as u32, 50 + e as u32]);
    }
    for (e, entry) in buffers.lookups[5].iter_mut().enumerate() {
        entry[1] = column(&[e as u32, 70 + e as u32]);
    }
    buffers.lookups[1][0][4].values[1] = 5;
    buffers.lookups[2][5][3].values[0] = 2;
    buffers.lookups[3][2][0].values[0] = 1;
    let mut tree = TreeBuilder::new();
    let mut context = Some(PoseidonContextCudaClaimGenerator::new());
    assert!(context.as_ref().unwrap().has_room_for_rows(1));
    let mut memory = ComponentInputs::new();
    let mut tables = RangeChecksCudaClaimGenerator::new();
    let (claim, pending) =
        aggregator.write_trace(buffers, &mut tree, &mut context, &mut memory, &mut tables);
    assert_eq!(claim.log_size, 1);
    assert_eq!(tree.evals.len(), 342);
    assert_eq!(memory.fed.len(), 6);
    assert_eq!(memory.fed[5][0].to_vec(), vec![5000, 5001]);
    let context = context.unwrap();
    // Eight entries of full rounds and twenty-seven of partial ones, of two rows each.
    assert_eq!(context.poseidon_full_round_chain_cuda.inputs.size, 16);
    assert_eq!(
        context.poseidon_full_round_chain_cuda.round_numbers()[..6],
        [0, 50, 1, 51, 2, 52]
    );
    assert_eq!(context.poseidon_3_partial_rounds_chain_cuda.inputs.size, 54);
    assert_eq!(context.poseidon_3_partial_rounds_chain_cuda.round_numbers()[53], 96);
    assert_eq!(context.cube_252_cuda.fed.len(), 2);
    assert_eq!(context.cube_252_cuda.fed[0][0].to_vec(), vec![143000, 143001]);
    assert_eq!(context.cube_252_cuda.fed[1][0].to_vec(), vec![163000, 163001]);
    assert_eq!(
        context.range_check_252_width_27_cuda.inputs.columns[0].to_vec(),
        vec![123000, 123001, 133000, 133001]
    );
    assert_eq!(tables.rc_3_3_3_3_3_trace_generator.get_multiplicities()[5], 1);
    assert_eq!(tables.rc_4_4_4_4_trace_generator.get_multiplicities()[2], 1);
    assert_eq!(tables.rc_4_4_4_4_trace_generator.get_multiplicities()[0], 11);
    assert_eq!(tables.rc_4_4_trace_generator.get_multiplicities()[16], 1);
    let lookups = pending.kernel_lookups();
    assert_eq!(lookups.len(), 6 + 2 + 6 + 3 + 6);
    let rounds: Vec<u32> = lookups[17..].iter().map(|entry| entry[1].to_vec()[0]).collect();
    assert_eq!(rounds, vec![0, 8, 4, 9, 0, 27]);
    let cols = pending.interaction_columns();
    assert_eq!((cols.len(), cols[0].size()), (56, 2));
    let claim = pending.write_interaction_trace(&mut tree, cols, [1, 2, 3, 4]);
    assert_eq!(claim.claimed_sum, SecureField { a: 1, b: 2, c: 3, d: 4 });
    assert_eq!(tree.evals.len(), 342 + 56);
}

#[test]
fn round_entries_are_joined_row_by_row() {
    // The value tells the entry, the column and the row apart.
    let values = |f: u32, e: u32, rows: u32| -> Vec<u32> {
        (0..rows).map(|r| 10000 * f + 100 * e + r).collect()
    };
    let entries = |n: u32, width: u32, rows: u32| -> Vec<Vec<BaseFieldVec>> {
        (0..n).map(|f| (0..width).map(|e| column(&values(f, e, rows))).collect()).collect()
    };
    let full = poseidon_aggregator_native_cuda::build_pfrc_input(&entries(10, 32, 3)[..8]);
    assert_eq!(full.len(), 32);
    assert!(full.iter().all(|column| column.size() == 24));
    let partial = poseidon_aggregator_native_cuda::build_p3prc_input(&entries(28, 42, 2)[..27]);
    assert_eq!(partial.len(), 42);
    assert!(partial.iter().all(|column| column.size() == 54));
    for (cols, rows) in [(&full, 3), (&partial, 2)] {
        for (e, column) in cols.iter().enumerate() {
            for (i, value) in column.to_vec().into_iter().enumerate() {
                assert_eq!(value as usize, 10000 * (i / rows) + 100 * e + i % rows);
            }
        }
    }
    // A column that has more rows than the first one gives as many as that one has.
    let mut longer = entries(8, 32, 2);
    longer[3][7] = column(&[1, 2, 3]);
    let joined = poseidon_aggregator_native_cuda::build_pfrc_input(&longer);
    assert_eq!(joined[7].size(), 16);
    assert_eq!(joined[7].to_vec()[6..9], [1, 2, 40700]);
}

fn host_output() -> HostOutput {
    let mut first = vec![0; 1 << 15];
    first[3] = 2;
    let mut second = vec![0; 1 << 15];
    second[3] = 5;
    HostOutput {
        log_size: 4,
        trace: zeroes(7, 16),
        lookup_data: vec![],
        memory_reads: MemoryReads { big: vec![1, 2], small: vec![3] },
        full_rounds: vec![packed_row(32)],
        partial_rounds: vec![packed_row(42), packed_row(42)],
        cubed: vec![packed_row(10)],
        checked: vec![packed_row(10)],
        rc_3_3_3_3_3: vec![first, second],
        rc_4_4_4_4: vec![],
        rc_4_4: vec![vec![1; 1 << 8]],
    }
}

#[test]
fn the_host_aggregator_hands_its_rows_on() {
    let output = host_output();
    assert!(output.is_handed_on());
    let mut context = Some(PoseidonContextCudaClaimGenerator::new());
    assert!(context.as_ref().unwrap().has_room_for_packs(&output));
    assert!(have_length(&output.rc_3_3_3_3_3, 1 << 15));
    let mut tree = TreeBuilder::new();
    let mut memory = MemoryMerges::new();
    let mut tables = RangeChecksCudaClaimGenerator::new();
    let aggregator = PoseidonAggregatorCudaClaimGenerator::new(output);
    let (claim, pending) =
        aggregator.write_trace(&mut tree, &mut context, &mut memory, &mut tables);
    assert_eq!(claim.log_size, 4);
    assert_eq!(tree.evals.len(), 7);
    assert_eq!(memory.merges.len(), 1);
    assert_eq!(memory.merges[0].big, vec![1, 2]);
    assert_eq!(memory.merges[0].small, vec![3]);
    let context = context.unwrap();
    assert_eq!(context.poseidon_full_round_chain_cuda.inputs.size, 16);
    assert_eq!(context.poseidon_3_partial_rounds_chain_cuda.inputs.size, 32);
    assert_eq!(context.cube_252_cuda.fed[0][9].to_vec()[1], 901);
    assert_eq!(context.range_check_252_width_27_cuda.inputs.columns[9].to_vec()[1], 901);
    assert_eq!(tables.rc_3_3_3_3_3_trace_generator.get_multiplicities()[3], 7);
    assert_eq!(tables.rc_4_4_trace_generator.get_multiplicities(), vec![1; 1 << 8]);
    let claim = pending.write_interaction_trace(&mut tree, zeroes(4, 16), [9, 0, 0, 0]);
    assert_eq!(claim.claimed_sum.a, 9);
    assert_eq!(tree.evals.len(), 11);
}

#[test]
fn a_host_aggregator_without_context_keeps_none() {
    let mut tree = TreeBuilder::new();
    let mut context = None;
    let mut memory = MemoryMerges::new();
    let mut tables = RangeChecksCudaClaimGenerator::new();
    PoseidonAggregatorCudaClaimGenerator::new(host_output()).write_trace(
        &mut tree,
        &mut context,
        &mut memory,
        &mut tables,
    );
    assert!(context.is_none());
    assert_eq!(tables.rc_3_3_3_3_3_trace_generator.get_multiplicities()[3], 7);
}

#[test]
fn checked_numbers_are_padded_and_counted() {
    let mut checked = range_check_252_width_27_cuda::CudaClaimGenerator::new();
    assert!(checked.is_empty());
    checked.add_cuda_inputs(&numbered(10, 17));
    let (padded, log_size) = checked.kernel_inputs();
    assert_eq!(log_size, 5);
    // The first sixteen rows are repeated in turn.
    assert_eq!(padded[1].to_vec()[16..20], [1016, 1000, 1001, 1002]);
    let mut tree = TreeBuilder::new();
    let mut tables = RangeChecksCudaClaimGenerator::new();
    let rc_18_counts = vec![vec![1; 1 << 18], vec![2; 1 << 18]];
    let rc_9_9_counts = vec![vec![3; 1 << 18]; 5];
    let (claim, pending) = checked.write_trace(
        zeroes(20, 32),
        &rc_18_counts,
        &rc_9_9_counts,
        &mut tree,
        &mut tables.rc_18_trace_generator,
        &mut tables.rc_9_9_trace_generator,
    );
    assert_eq!(claim.log_size, 5);
    assert_eq!(tree.evals.len(), 20);
    assert_eq!(tables.rc_18_trace_generator.0.multiplicities[0].to_vec()[0], 1);
    assert_eq!(tables.rc_18_trace_generator.0.multiplicities[1].to_vec()[9], 2);
    assert_eq!(tables.rc_9_9_trace_generator.multiplicities[4].to_vec()[0], 3);
    assert_eq!(tables.rc_9_9_trace_generator.multiplicities[5].to_vec()[0], 0);
    assert_eq!(pending.interaction_columns().len(), 32);
}

#[test]
fn shapes_of_packs_and_counters_are_told() {
    assert!(are_packed_rows(&vec![packed_row(3), packed_row(3)], 3));
    assert!(!are_packed_rows(&vec![packed_row(3), packed_row(2)], 3));
    assert!(have_counts(&vec![vec![0; 4]; 2], 2, 4));
    assert!(!have_counts(&vec![vec![0; 4]; 2], 3, 4));
    assert!(!have_counts(&vec![vec![0; 4], vec![0; 3]], 2, 4));
    assert!(have_length(&vec![], 4));
    assert!(RowInputs::new(3).is_wf(3));
    assert!(!RowInputs::new(3).is_wf(4));
    let crooked = RowInputs { columns: vec![column(&[1, 2]), column(&[1])], size: 2 };
    assert!(!crooked.is_wf(2));
}

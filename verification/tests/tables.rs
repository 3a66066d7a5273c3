//! Tables of tuples and the counters of their rows.

use cairo_cuda_witness::column::BaseFieldVec;
use cairo_cuda_witness::components_cuda::range_check::base::{
    add_counters, row_index, sum_of_ranges, CudaMultiRelationRangeCheckGenerator,
    CudaRangeCheckGenerator,
};
use cairo_cuda_witness::components_cuda::range_check::{rc_18, rc_20, rc_4_3};
use cairo_cuda_witness::components_cuda::range_check_11_cuda;
use cairo_cuda_witness::components_cuda::range_check_7_2_5_cuda;
use cairo_cuda_witness::components_cuda::range_check_cuda::pack_counters;
use cairo_cuda_witness::components_cuda::verify_bitwise_xor::base::CudaVerifyBitwiseXorGenerator;
use cairo_cuda_witness::field::SecureField;
use cairo_cuda_witness::launch::InteractionOutcome;
use cairo_cuda_witness::lookup::{LookupElements, RelationIds};
use cairo_cuda_witness::preprocessed_columns::{
    gen_bitwise_xor_columns_cuda, gen_range_check_columns_cuda,
};
use cairo_cuda_witness::range_checks_cuda::{RangeChecksCudaClaimGenerator, RangeChecksOutcomes};
use cairo_cuda_witness::tree_builder::TreeBuilder;

fn column(values: &[u32]) -> BaseFieldVec {
    BaseFieldVec::from_vec(values.to_vec())
}

fn secure(a: u32, b: u32, c: u32, d: u32) -> SecureField {
    SecureField { a, b, c, d }
}

fn common() -> LookupElements {
    LookupElements {
        z: secure(1, 2, 3, 4),
        alpha: secure(5, 6, 7, 8),
        alpha_powers: (0..128).map(|i| secure(i + 1, 0, 2 * i, 3)).collect(),
    }
}

fn ids() -> RelationIds {
    RelationIds {
        memory_address_to_id: 1,
        memory_id_to_big: 2,
        opcodes: 3,
        verify_instruction: 4,
        rc_18: 5,
        rc_18_b: 6,
        rc_11: 7,
        rc_7_2_5: 8,
        rc_4_3: 9,
        rc_4_4: 10,
        rc_4_4_4_4: 11,
        rc_3_3_3_3_3: 12,
        range_check_252_width_27: 13,
        verify_bitwise_xor_8: 14,
        verify_bitwise_xor_8_b: 15,
        triple_xor_32: 16,
        blake_round: 17,
        partial_ec_mul: 18,
        pedersen_points_table: 19,
        cube_252: 20,
        poseidon_round_keys: 21,
        poseidon_full_round_chain: 22,
        poseidon_3_partial_rounds_chain: 23,
        rc_19: [30, 31, 32, 33, 34, 35, 36, 37],
        rc_9_9: [40, 41, 42, 43, 44, 45, 46, 47],
    }
}

fn outcome(width: usize, log_size: u32, first: u32) -> InteractionOutcome {
    InteractionOutcome {
        columns: (0..width).map(|_| BaseFieldVec::from_vec(vec![0; 1 << log_size])).collect(),
        claimed_sum: [first, 0, 0, 0],
    }
}

#[test]
fn the_first_segment_is_the_most_significant() {
    let ranges = [4, 3];
    assert_eq!(sum_of_ranges(&ranges), 7);
    let rows = vec![column(&[0, 15, 1]), column(&[5, 7, 0])];
    assert_eq!(row_index(&ranges, &rows, 0), 5);
    assert_eq!(row_index(&ranges, &rows, 1), 127);
    assert_eq!(row_index(&ranges, &rows, 2), 8);
}

#[test]
fn lookups_are_counted_by_row() {
    let mut table = CudaRangeCheckGenerator::<2>::new([2, 1]);
    assert_eq!(table.get_multiplicities(), vec![0; 8]);
    let inputs = vec![column(&[3, 0, 3]), column(&[1, 1, 1])];
    table.add_inputs_internal(&inputs, 3);
    assert_eq!(table.get_multiplicities(), vec![0, 1, 0, 0, 0, 0, 0, 2]);
    // Only the first row counts.
    table.add_inputs_internal(&inputs, 1);
    assert_eq!(table.get_multiplicities(), vec![0, 1, 0, 0, 0, 0, 0, 3]);
    assert_eq!(table.log_size(), 3);
}

#[test]
fn every_lookup_is_counted_once() {
    let mut table = CudaRangeCheckGenerator::<3>::new([1, 2, 1]);
    let inputs = vec![
        vec![column(&[1, 0, 1, 1]), column(&[3, 2, 1, 3]), column(&[0, 1, 0, 0])],
        vec![column(&[0, 0, 0, 0]), column(&[0, 1, 2, 3]), column(&[1, 1, 1, 1])],
    ];
    table.add_each(&inputs);
    let total: u32 = table.get_multiplicities().iter().sum();
    assert_eq!(total, 8);
}

#[test]
fn batches_are_read_as_far_as_the_first_goes() {
    let batches = vec![vec![column(&[1, 2])], vec![column(&[3, 3, 3])]];
    let mut short = CudaRangeCheckGenerator::<1>::new([2]);
    short.add_inputs_batch_internal(&batches);
    assert_eq!(short.get_multiplicities(), vec![0, 1, 1, 2]);
    let mut long = CudaRangeCheckGenerator::<1>::new([2]);
    long.add_each(&batches);
    assert_eq!(long.get_multiplicities(), vec![0, 1, 1, 3]);
    let mut untouched = CudaRangeCheckGenerator::<1>::new([2]);
    untouched.add_inputs_batch_internal(&vec![]);
    assert_eq!(untouched.get_multiplicities(), vec![0; 4]);
}

#[test]
fn counting_commutes_with_merging() {
    let inputs = vec![vec![column(&[1, 3, 3])]];
    let elsewhere = vec![5, 6, 7, u32::MAX];
    let mut first = CudaRangeCheckGenerator::<1>::new([2]);
    first.add_each(&inputs);
    first.merge_simd_multiplicities(&elsewhere);
    let mut second = CudaRangeCheckGenerator::<1>::new([2]);
    second.merge_simd_multiplicities(&elsewhere);
    second.add_each(&inputs);
    assert_eq!(first.get_multiplicities(), second.get_multiplicities());
    assert_eq!(first.get_multiplicities(), vec![5, 7, 7, 1]);
}

#[test]
fn counters_wrap() {
    let mut counters = column(&[u32::MAX, 1]);
    add_counters(&mut counters, &vec![2, 2]);
    assert_eq!(counters.to_vec(), vec![1, 3]);
}

#[test]
fn a_table_commits_its_counters() {
    let mut table = CudaRangeCheckGenerator::<1>::new([2]);
    table.add_each(&vec![vec![column(&[2])]]);
    let mut tree = TreeBuilder::new();
    let pending = table.write_trace_cuda(&mut tree);
    assert_eq!(tree.evals.len(), 1);
    assert_eq!(tree.evals[0].log_size, 2);
    assert_eq!(tree.evals[0].values.to_vec(), vec![0, 0, 1, 0]);

    let elements = pending.relation_elements(&common(), 10);
    // z - 10 * alpha_0, and the powers from the second on.
    assert_eq!(elements.z, secure(2147483638, 2, 3, 2147483621));
    assert_eq!(elements.alpha_powers, vec![secure(2, 0, 2, 3)]);
    let cols = pending.interaction_columns();
    assert_eq!(cols.len(), 4);
    let sum = pending.write_interaction_trace(&mut tree, cols, [9, 8, 7, 6]);
    assert_eq!(sum, secure(9, 8, 7, 6));
    assert_eq!(tree.evals.len(), 5);
    assert_eq!(tree.evals[4].values.to_vec(), vec![0; 4]);
}

#[test]
fn relations_are_counted_apart() {
    let mut table = CudaMultiRelationRangeCheckGenerator::<1, 2>::new([1]);
    table.add_inputs_for_relation(&vec![column(&[1, 1])], 2, 0);
    table.add_inputs_batch_for_relation(&vec![vec![column(&[0])]], 1);
    table.add_inputs_batch_for_relation(&vec![], 0);
    assert_eq!(table.multiplicities[0].to_vec(), vec![0, 2]);
    assert_eq!(table.multiplicities[1].to_vec(), vec![1, 0]);
    table.merge_simd_multiplicities(&vec![vec![1, 1], vec![2, 2]]);
    table.merge_first(&vec![vec![10, 0]]);
    assert_eq!(table.multiplicities[0].to_vec(), vec![11, 3]);
    assert_eq!(table.multiplicities[1].to_vec(), vec![3, 2]);
    assert_eq!(table.log_size(), 1);

    let mut tree = TreeBuilder::new();
    let pending = table.write_trace_cuda(&mut tree, [10, 20]);
    assert_eq!(tree.evals.len(), 2);
    assert_eq!(tree.evals[1].values.to_vec(), vec![3, 2]);
    let elements = pending.relation_elements(&common());
    assert_eq!(elements[1].z, secure(2147483628, 2, 3, 2147483591));
    assert_eq!(pending.interaction_columns().len(), 4);
}

#[test]
fn relation_groups_feed_the_relations_in_order() {
    let mut table = CudaMultiRelationRangeCheckGenerator::<1, 2>::new([1]);
    let lookups = vec![
        vec![vec![column(&[7])]],
        vec![vec![column(&[1])], vec![column(&[1])]],
        vec![vec![column(&[0])]],
    ];
    table.add_relation_groups(&lookups, 1);
    assert_eq!(table.multiplicities[0].to_vec(), vec![0, 2]);
    assert_eq!(table.multiplicities[1].to_vec(), vec![1, 0]);
}

#[test]
fn an_offset_is_added_in_the_field() {
    let shifted = rc_20::shift_column(&column(&[0, 2147483646, 7]), 393216);
    assert_eq!(shifted.to_vec(), vec![393216, 393215, 393223]);
    let mut table = rc_20::CudaClaimGenerator::new();
    table.add_cuda_inputs_for_relation_with_offset(&vec![vec![column(&[2147483646])]], 3, 393216);
    table.add_cuda_inputs_for_relation(&vec![vec![column(&[5])]], 0);
    assert_eq!(table.0.multiplicities[3].to_vec()[393215], 1);
    assert_eq!(table.0.multiplicities[0].to_vec()[5], 1);
    assert_eq!(table.log_size(), 20);
}

#[test]
fn the_tables_know_their_relations() {
    let mut tree = TreeBuilder::new();
    let mut rc_18 = rc_18::CudaClaimGenerator::new();
    rc_18.add_cuda_inputs_for_relation(&vec![vec![column(&[262143])]], 1);
    assert_eq!(rc_18.relation_multiplicities(1)[262143], 1);
    assert_eq!(rc_18.relation_multiplicities(0)[262143], 0);
    let (_, pending) = rc_18.write_trace_cuda(&mut tree);
    assert_eq!(pending.relation_elements(&common()).len(), 2);
    let (_, rc_20) = rc_20::CudaClaimGenerator::new().write_trace_cuda(&mut tree);
    // z - 1410849886 * alpha_0.
    let elements = rc_20.relation_elements(&common());
    assert_eq!(elements[0].z.a, 736633762);
    assert_eq!(elements.len(), 8);
    assert_eq!(tree.evals.len(), 10);
}

#[test]
fn the_small_table_counts_pairs() {
    let mut table = rc_4_3::CudaClaimGenerator::new();
    table.add_cuda_inputs(&vec![vec![column(&[15, 0]), column(&[7, 1])]]);
    let mut tree = TreeBuilder::new();
    table.write_trace_cuda(&mut tree);
    let counters = tree.evals[0].values.to_vec();
    assert_eq!(counters.len(), 128);
    assert_eq!((counters[127], counters[1], counters[0]), (1, 1, 0));
}

#[test]
fn counters_are_packed_by_sixteen() {
    let packs = pack_counters(&(0..32).collect());
    assert_eq!(packs.len(), 2);
    assert_eq!(packs[1][0], 16);
    assert_eq!(packs[1][15], 31);
    // An incomplete pack holds zeroes.
    assert_eq!(pack_counters(&vec![1, 2, 3]), vec![[0; 16]]);
    assert!(pack_counters(&vec![]).is_empty());
}

#[test]
fn a_host_table_lists_fractions() {
    let mut table = range_check_11_cuda::CudaClaimGenerator::new_rc_11();
    table.add_cuda_inputs(&vec![vec![column(&[2, 2, 2047])]]);
    let mut tree = TreeBuilder::new();
    let (_, pending) = table.write_trace(&mut tree);
    assert_eq!(tree.evals[0].values.to_vec()[2], 2);
    let fractions = pending.fractions(&common());
    assert_eq!(fractions.len(), 2048);
    // The numerator is minus the counter, the denominator alpha_0 * row - z.
    assert_eq!(fractions[2].numerator, secure(2147483645, 0, 0, 0));
    assert_eq!(fractions[2].denominator, secure(1, 2147483645, 2147483644, 2));
    assert_eq!(fractions[0].numerator, secure(0, 0, 0, 0));
    let cols = (0..4).map(|_| BaseFieldVec::new_zeroes(2048)).collect();
    let claim = pending.write_interaction_trace(&mut tree, cols, [1, 2, 3, 4]);
    assert_eq!(claim.claimed_sum, secure(1, 2, 3, 4));
    assert_eq!(tree.evals.len(), 5);
}

#[test]
fn the_stub_of_the_triple_table_counts_nothing() {
    let mut table = range_check_7_2_5_cuda::CudaClaimGenerator::new();
    table.add_cuda_inputs(&vec![vec![column(&[1]), column(&[1]), column(&[1])]]);
}

#[test]
fn a_tuple_is_counted_in_the_row_that_lists_it() {
    let bits = vec![2, 3];
    let listed = gen_range_check_columns_cuda(&bits);
    let mut table = CudaRangeCheckGenerator::<2>::new([2, 3]);
    table.add_each(&vec![vec![column(&[2]), column(&[5])]]);
    let row = table.get_multiplicities().iter().position(|&count| count == 1).unwrap();
    assert_eq!((listed[0].values[row], listed[1].values[row]), (2, 5));

    let listed = gen_bitwise_xor_columns_cuda(4);
    let mut table = CudaVerifyBitwiseXorGenerator::new(4);
    table.add_inputs(&vec![vec![column(&[9]), column(&[3]), column(&[10])]]);
    let row = table.get_multiplicities().iter().position(|&count| count == 1).unwrap();
    assert_eq!(
        (listed[0].values[row], listed[1].values[row], listed[2].values[row]),
        (9, 3, 10)
    );
}

#[test]
fn all_tables_start_at_zero() {
    let tables = RangeChecksCudaClaimGenerator::new();
    assert_eq!(tables.rc_4_4_trace_generator.get_multiplicities(), vec![0; 256]);
    assert_eq!(tables.rc_3_3_3_3_3_trace_generator.log_size(), 15);
    assert_eq!(tables.rc_7_2_5_trace_generator.ranges, [7, 2, 5]);
}

#[test]
fn all_tables_are_committed_in_order() {
    let mut tables = RangeChecksCudaClaimGenerator::new();
    tables.rc_6_trace_generator.add_each(&vec![vec![column(&[63, 63])]]);
    tables.rc_3_3_3_3_3_trace_generator.add_each(&vec![vec![
        column(&[1]),
        column(&[0]),
        column(&[0]),
        column(&[0]),
        column(&[7]),
    ]]);
    let mut tree = TreeBuilder::new();
    let (_, pending) = tables.write_trace(&mut tree, &ids());
    let log_sizes: Vec<u32> = tree.evals.iter().map(|eval| eval.log_size).collect();
    let mut expected = vec![6, 8, 11, 12, 18, 18];
    expected.extend(vec![20; 8]);
    expected.extend(vec![7, 8]);
    expected.extend(vec![18; 8]);
    expected.extend(vec![14, 18, 16, 15]);
    assert_eq!(log_sizes, expected);
    assert_eq!(tree.evals[0].values.values[63], 2);
    assert_eq!(tree.evals[27].values.values[4096 + 7], 1);
    assert_eq!(pending.rc_9_9_interaction_gen.relation_constants, ids().rc_9_9);
    assert_eq!(pending.rc_6_interaction_gen.multiplicities.values[63], 2);

    let mut outcomes = RangeChecksOutcomes {
        rc_6: outcome(4, 6, 1),
        rc_8: outcome(4, 8, 2),
        rc_11: outcome(4, 11, 3),
        rc_12: outcome(4, 12, 4),
        rc_18: outcome(4, 18, 5),
        rc_20: outcome(16, 20, 6),
        rc_4_3: outcome(4, 7, 7),
        rc_4_4: outcome(4, 8, 8),
        rc_9_9: outcome(16, 18, 9),
        rc_7_2_5: outcome(4, 14, 10),
        rc_3_6_6_3: outcome(4, 18, 11),
        rc_4_4_4_4: outcome(4, 16, 12),
        rc_3_3_3_3_3: outcome(4, 15, 13),
    };
    assert!(outcomes.is_wf());
    outcomes.rc_8 = outcome(4, 7, 2);
    assert!(!outcomes.is_wf());
    outcomes.rc_8 = outcome(4, 8, 2);
    let mut tree = TreeBuilder::new();
    let claim = pending.write_interaction_trace(&mut tree, outcomes);
    assert_eq!(tree.evals.len(), 11 * 4 + 2 * 16);
    assert_eq!(claim.rc_6.claimed_sum, secure(1, 0, 0, 0));
    assert_eq!(claim.rc_20.claimed_sum, secure(6, 0, 0, 0));
    assert_eq!(claim.rc_3_3_3_3_3.claimed_sum, secure(13, 0, 0, 0));
}

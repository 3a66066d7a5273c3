//! Tables of pairs of numbers and their bitwise exclusive or.

use cairo_cuda_witness::column::BaseFieldVec;
use cairo_cuda_witness::components_cuda::verify_bitwise_xor::base::{
    supported, CudaVerifyBitwiseXorGenerator,
};
use cairo_cuda_witness::components_cuda::verify_bitwise_xor::{vbx_12, vbx_8, vbx_9};
use cairo_cuda_witness::components_cuda::{
    verify_bitwise_xor_12_cuda, verify_bitwise_xor_7_cuda, verify_bitwise_xor_8_b_cuda,
    verify_bitwise_xor_9_cuda,
};
use cairo_cuda_witness::field::SecureField;
use cairo_cuda_witness::lookup::LookupElements;
use cairo_cuda_witness::tree_builder::TreeBuilder;

fn column(values: &[u32]) -> BaseFieldVec {
    BaseFieldVec::from_vec(values.to_vec())
}

fn batch(a: &[u32], b: &[u32]) -> Vec<BaseFieldVec> {
    let c: Vec<u32> = a.iter().zip(b).map(|(x, y)| x ^ y).collect();
    vec![column(a), column(b), column(&c)]
}

fn elements() -> LookupElements {
    let one = SecureField { a: 1, b: 0, c: 0, d: 0 };
    LookupElements {
        z: SecureField { a: 3, b: 0, c: 0, d: 1 },
        alpha: one,
        alpha_powers: vec![
            one,
            SecureField { a: 100, b: 0, c: 0, d: 0 },
            SecureField { a: 0, b: 1, c: 0, d: 0 },
        ],
    }
}

#[test]
fn there_are_kernels_for_four_sizes() {
    let sizes: Vec<u32> = (0..16).filter(|n| supported(*n)).collect();
    assert_eq!(sizes, vec![4, 7, 8, 9]);
}

#[test]
fn pairs_are_counted_by_row() {
    let mut table = CudaVerifyBitwiseXorGenerator::new(4);
    assert_eq!(table.log_size(), 8);
    table.add_inputs(&vec![batch(&[1, 15], &[2, 15]), batch(&[1], &[2])]);
    let counters = table.get_multiplicities();
    assert_eq!(counters[16 + 2], 2);
    assert_eq!(counters[255], 1);
    assert_eq!(counters.iter().sum::<u32>(), 3);
    table.add_inputs(&vec![]);
    table.merge_simd_multiplicities(&vec![1; 256]);
    assert_eq!(table.get_multiplicities()[255], 2);

    let mut tree = TreeBuilder::new();
    let pending = table.write_trace_cuda(&mut tree);
    assert_eq!(tree.evals[0].log_size, 8);
    let cols = pending.interaction_columns();
    let sum = pending.write_interaction_trace(&mut tree, cols, [4, 3, 2, 1]);
    assert_eq!(sum, SecureField { a: 4, b: 3, c: 2, d: 1 });
    assert_eq!(tree.evals.len(), 5);
}

#[test]
fn a_table_for_other_sizes_can_be_empty() {
    let mut table = CudaVerifyBitwiseXorGenerator::new(5);
    table.add_inputs(&vec![]);
    assert_eq!(table.get_multiplicities(), vec![0; 1024]);
}

#[test]
fn two_relations_share_the_table_of_bytes() {
    let mut first = vbx_8::CudaClaimGenerator::new();
    let mut second = vbx_8::CudaClaimGenerator::default();
    first.add_cuda_inputs(&vec![batch(&[255], &[1])]);
    second.add_cuda_inputs(&vec![batch(&[0, 0], &[2, 2])]);
    let mut tree = TreeBuilder::new();
    let (_, pending) = first.write_trace_cuda(&second, &mut tree);
    assert_eq!(tree.evals.len(), 2);
    assert_eq!(tree.evals[0].values.to_vec()[255 * 256 + 1], 1);
    assert_eq!(tree.evals[1].values.to_vec()[2], 2);
    assert_eq!(pending.interaction_columns().len(), 4);
}

#[test]
fn the_table_of_nine_bits_commits_one_column() {
    let mut table = vbx_9::CudaClaimGenerator::new();
    table.add_cuda_inputs(&vec![batch(&[511], &[0])]);
    let mut tree = TreeBuilder::new();
    let (_, pending) = table.write_trace_cuda(&mut tree);
    assert_eq!(tree.evals[0].log_size, 18);
    assert_eq!(tree.evals[0].values.to_vec()[511 * 512], 1);
    let cols = (0..4).map(|_| BaseFieldVec::new_zeroes(1 << 18)).collect();
    let claim = pending.write_interaction_trace(&mut tree, cols, [1, 0, 0, 0]);
    assert_eq!(claim.claimed_sum.a, 1);
}

#[test]
fn the_table_of_twelve_bits_leaves_counting_to_the_kernel() {
    let mut table = vbx_12::CudaClaimGenerator::new();
    table.add_cuda_inputs(&vec![batch(&[4095], &[1])]);
    assert_eq!(table.pending.fed.len(), 1);
    assert_eq!(table.pending.fed[0][0].to_vec(), vec![4095]);
    let mut counted: Vec<BaseFieldVec> = (0..16).map(|_| BaseFieldVec::new_zeroes(1 << 20)).collect();
    counted[15].values[7] = 1;
    table.set_counted(counted);
    assert!(table.pending.fed.is_empty());
    let mut tree = TreeBuilder::new();
    let (_, pending) = table.write_trace_cuda(&mut tree);
    assert_eq!(tree.evals.len(), 16);
    assert_eq!(tree.evals[15].values.to_vec()[7], 1);
    assert_eq!(pending.interaction_columns().len(), 32);

    let mut other = verify_bitwise_xor_12_cuda::CudaClaimGenerator::new();
    other.add_cuda_inputs(&vec![batch(&[1], &[1])]);
    assert_eq!(other.pending.fed.len(), 1);
    assert_eq!(other.mults.len(), 16);
}

#[test]
fn small_tables_read_as_many_rows_as_the_first_batch_has() {
    let inputs = vec![batch(&[1], &[1]), batch(&[2, 3], &[2, 3])];
    let mut seven = verify_bitwise_xor_7_cuda::CudaClaimGenerator::new();
    seven.add_cuda_inputs(&inputs);
    assert_eq!(seven.mults.to_vec()[128 + 1], 1);
    assert_eq!(seven.mults.to_vec()[2 * 128 + 2], 1);
    assert_eq!(seven.mults.to_vec()[3 * 128 + 3], 0);
    let mut nine = verify_bitwise_xor_9_cuda::CudaClaimGenerator::new();
    nine.add_cuda_inputs(&inputs);
    assert_eq!(nine.mults.to_vec().iter().sum::<u32>(), 2);
}

#[test]
fn a_trace_takes_its_counters_from_packs() {
    let mut pack = [0; 16];
    pack[3] = 5;
    let (trace, lookups) = verify_bitwise_xor_7_cuda::write_trace_simd(&vec![[1; 16], pack]);
    assert_eq!(trace.size(), 1 << 14);
    assert_eq!(trace.to_vec()[0], 1);
    assert_eq!(trace.to_vec()[19], 5);
    assert_eq!(trace.to_vec()[32], 0);
    assert_eq!(lookups.mults.to_vec(), trace.to_vec());
    // Row 5 * 128 + 3 holds the pair (5, 3) and its exclusive or.
    let row: Vec<u32> =
        lookups.verify_bitwise_xor_7_0.iter().map(|c| c.to_vec()[5 * 128 + 3]).collect();
    assert_eq!(row, vec![5, 3, 6]);
}

#[test]
fn the_rows_of_a_host_table_contribute_fractions() {
    let mut mults = BaseFieldVec::new_zeroes(1 << 14);
    mults.values[5 * 128 + 3] = 2;
    let pending = verify_bitwise_xor_7_cuda::CudaInteractionClaimGenerator { mults };
    let fractions = pending.fractions(&elements());
    // 5 + 100 * 3 - 3, the exclusive or in the second coordinate, minus one in the last.
    let at = fractions[5 * 128 + 3];
    assert_eq!(at.denominator, SecureField { a: 302, b: 6, c: 0, d: 2147483646 });
    assert_eq!(at.numerator, SecureField { a: 2147483645, b: 0, c: 0, d: 0 });
    assert_eq!(fractions.len(), 1 << 14);
}

#[test]
fn the_stand_in_for_the_second_relation_keeps_zeroes() {
    let mut table = verify_bitwise_xor_8_b_cuda::CudaClaimGenerator::new();
    table.add_cuda_inputs(&vec![batch(&[1], &[1])]);
    assert_eq!(table.mults.to_vec(), vec![0; 1 << 16]);
    let (trace, lookups) = verify_bitwise_xor_8_b_cuda::write_trace_cuda(1);
    assert_eq!(trace.len(), 1);
    assert_eq!(lookups.verify_bitwise_xor_8_0.len(), 3);
    assert_eq!(lookups.mults.size(), 1 << 16);
}

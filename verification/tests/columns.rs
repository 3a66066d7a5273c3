//! Columns, the buffers of kernels, what components are fed with, and what is committed.

use cairo_cuda_witness::bits::{exp2, ilog2, next_power_of_two, padded_size};
use cairo_cuda_witness::checks::{
    are_batches_of_table, are_carry_groups, are_rows_of_table, are_shiftable_batches,
    are_xor_batches, fits_in_bits, has_canonical_values,
};
use cairo_cuda_witness::column::{duplicate_columns, new_zero_columns, BaseFieldVec};
use cairo_cuda_witness::components_cuda::opcodes::carries::{feed_carries, normalize_first_carry};
use cairo_cuda_witness::components_cuda::range_check::rc_20;
use cairo_cuda_witness::field::SecureField;
use cairo_cuda_witness::inputs::{
    append_first_columns, chunk_columns, extend_columns, pack_states, pad_columns, resize,
    select_columns, unpack_columns, CasmState, ColumnInputs, ComponentInputs, RowInputs,
    StateInputs,
};
use cairo_cuda_witness::launch::{
    allocate, columns_have_shape, finish_interaction, interaction_columns, BufferShape,
    PendingInteraction,
};
use cairo_cuda_witness::sorting::stable_order;
use cairo_cuda_witness::tree_builder::TreeBuilder;

const P: u32 = 2147483647;

fn column(values: &[u32]) -> BaseFieldVec {
    BaseFieldVec::from_vec(values.to_vec())
}

fn contents(cols: &[BaseFieldVec]) -> Vec<Vec<u32>> {
    cols.iter().map(|c| c.to_vec()).collect()
}

fn state(pc: u32, ap: u32, fp: u32) -> CasmState {
    CasmState { pc, ap, fp }
}

#[test]
fn sizes_are_rounded_up_to_powers_of_two() {
    assert_eq!(exp2(0), 1);
    assert_eq!(exp2(31), 1 << 31);
    assert_eq!(next_power_of_two(0), 1);
    assert_eq!(next_power_of_two(1), 1);
    assert_eq!(next_power_of_two(17), 32);
    assert_eq!(next_power_of_two(1 << 31), 1 << 31);
    assert_eq!(ilog2(1), 0);
    assert_eq!(ilog2(31), 4);
    assert_eq!(ilog2(32), 5);
    // A trace has at least one pack of rows.
    assert_eq!(padded_size(1), 16);
    assert_eq!(padded_size(16), 16);
    assert_eq!(padded_size(17), 32);
}

#[test]
fn columns_are_copied_and_extended() {
    let mut col = column(&[1, 2]);
    let copy = col.duplicate();
    col.extend(&column(&[3]));
    assert_eq!(col.to_vec(), vec![1, 2, 3]);
    assert_eq!(copy.to_vec(), vec![1, 2]);
    assert_eq!(col.size(), 3);
    col.fill_zero_from(1);
    assert_eq!(col.to_vec(), vec![1, 0, 0]);
    assert_eq!(contents(&new_zero_columns(2, 1)), vec![vec![0], vec![0]]);
    assert_eq!(contents(&duplicate_columns(&vec![copy])), vec![vec![1, 2]]);
}

#[test]
fn padding_repeats_the_first_values() {
    let mut col = column(&[1, 2, 3]);
    col.pad_with_cycle(8, 2);
    assert_eq!(col.to_vec(), vec![1, 2, 3, 1, 2, 1, 2, 1]);
    let mut long_cycle = column(&[1, 2, 3]);
    long_cycle.pad_with_cycle(4, 16);
    assert_eq!(long_cycle.to_vec(), vec![1, 2, 3, 1]);
    let mut cols = vec![column(&[1, 2, 3])];
    pad_columns(&mut cols, 4, 16);
    assert_eq!(contents(&cols), vec![vec![1, 2, 3, 1]]);
}

#[test]
fn evaluations_are_committed_in_order() {
    let mut tree = TreeBuilder::new();
    tree.extend_evals(1, vec![column(&[1, 2]), column(&[3, 4])]);
    tree.extend_evals(2, vec![column(&[5, 6, 7, 8])]);
    let committed: Vec<(u32, Vec<u32>)> =
        tree.evals.iter().map(|e| (e.log_size, e.values.to_vec())).collect();
    assert_eq!(
        committed,
        vec![(1, vec![1, 2]), (1, vec![3, 4]), (2, vec![5, 6, 7, 8])]
    );
}

#[test]
fn kernels_are_handed_zeroes_of_the_right_shape() {
    let lookups = vec![
        BufferShape { entries: 2, width: 3 },
        BufferShape { entries: 1, width: 1 },
    ];
    let subs = vec![BufferShape { entries: 1, width: 2 }];
    let buffers = allocate(4, &lookups, &subs, 4);
    assert_eq!(buffers.trace.len(), 4);
    assert_eq!(buffers.lookups.len(), 2);
    assert_eq!(buffers.lookups[0].len(), 2);
    assert_eq!(contents(&buffers.lookups[0][1]), vec![vec![0; 16]; 3]);
    assert_eq!(buffers.sub_inputs[0][0].len(), 2);
    assert!(buffers.check(4, &lookups, &subs, 4));
    assert!(!buffers.check(5, &lookups, &subs, 4));
    assert!(!buffers.check(4, &lookups, &subs, 5));
    assert!(!buffers.check(4, &subs, &subs, 4));
    assert!(columns_have_shape(&buffers.trace, 4, 16));
    assert_eq!(interaction_columns(2, 1).len(), 8);
}

#[test]
fn an_interaction_trace_is_committed_with_its_sum() {
    let mut tree = TreeBuilder::new();
    let claim = finish_interaction(&mut tree, vec![column(&[1, 2])], 1, [1, 2, 3, 4]);
    assert_eq!(claim.claimed_sum, SecureField { a: 1, b: 2, c: 3, d: 4 });
    let pending = PendingInteraction { log_size: 1, lookup_data: vec![] };
    let claim = pending.write_interaction_trace(&mut tree, vec![column(&[3, 4])], [4, 3, 2, 1]);
    assert_eq!(claim.claimed_sum, SecureField { a: 4, b: 3, c: 2, d: 1 });
    assert_eq!(tree.evals[1].values.to_vec(), vec![3, 4]);
}

#[test]
fn components_keep_what_they_are_fed() {
    let mut inputs = ComponentInputs::new();
    inputs.add_cuda_input(&vec![column(&[1])]);
    inputs.add_cuda_inputs(&vec![vec![column(&[2])], vec![column(&[3])]]);
    let fed: Vec<Vec<Vec<u32>>> = inputs.fed.iter().map(|b| contents(b)).collect();
    assert_eq!(fed, vec![vec![vec![1]], vec![vec![2]], vec![vec![3]]]);
}

#[test]
fn states_are_split_by_register_and_padded() {
    let states: Vec<CasmState> = (0..17).map(|i| state(i + 1, i + 100, i + 200)).collect();
    let cols = pack_states(&states);
    assert_eq!(cols.len(), 3);
    assert_eq!(cols[0].size(), 32);
    assert_eq!(cols[0].to_vec()[16..18], [17, 1]);
    assert_eq!(cols[1].to_vec()[31], 100);
    assert_eq!(cols[2].to_vec()[16], 216);
    assert_eq!(contents(&pack_states(&vec![])), vec![vec![0; 16]; 3]);
    let packed = StateInputs::new(vec![state(1, 2, 3)]);
    assert_eq!(packed.n_rows, 1);
    assert_eq!(contents(&packed.inputs), vec![vec![1; 16], vec![2; 16], vec![3; 16]]);
}

#[test]
fn values_are_continued() {
    let mut values = vec![1, 2];
    resize(&mut values, 4, 9);
    assert_eq!(values, vec![1, 2, 9, 9]);
}

#[test]
fn packed_rows_become_columns() {
    let first = vec![[1; 16], [2; 16]];
    let second = vec![[3; 16], [4; 16]];
    let cols = unpack_columns(&vec![first, second], 2);
    assert_eq!(cols[0].to_vec()[15..17], [1, 3]);
    assert_eq!(cols[1].to_vec()[15..17], [2, 4]);
    assert_eq!(cols[0].size(), 32);
}

#[test]
fn the_first_rows_replace_the_placeholder() {
    let mut rows = RowInputs::new(2);
    assert!(rows.is_empty());
    assert_eq!(contents(&rows.columns), vec![vec![0], vec![0]]);
    rows.add_rows(&vec![column(&[]), column(&[])]);
    assert!(rows.is_empty());
    rows.add_rows(&vec![column(&[1, 2]), column(&[3, 4])]);
    assert_eq!(contents(&rows.columns), vec![vec![1, 2], vec![3, 4]]);
    rows.add_rows(&vec![column(&[5]), column(&[6])]);
    assert_eq!(contents(&rows.columns), vec![vec![1, 2, 5], vec![3, 4, 6]]);
    assert_eq!(rows.size, 3);
    assert_eq!(rows.pad(2), 2);
    assert_eq!(contents(&rows.columns), vec![vec![1, 2, 5, 1], vec![3, 4, 6, 3]]);
    rows.set_packed(&vec![vec![[8; 16], [9; 16]]], 2);
    assert_eq!(contents(&rows.columns), vec![vec![8; 16], vec![9; 16]]);
    assert_eq!(rows.size, 16);
}

#[test]
fn columns_are_cut_and_joined() {
    let cols = vec![column(&[1]), column(&[2]), column(&[3]), column(&[4])];
    assert_eq!(contents(&select_columns(&cols, 1, 2)), vec![vec![2], vec![3]]);
    let chunks = chunk_columns(&cols, 2, 2);
    assert_eq!(contents(&chunks[1]), vec![vec![3], vec![4]]);
    let mut longer = select_columns(&cols, 0, 1);
    extend_columns(&mut longer, &vec![column(&[7, 8])]);
    assert_eq!(contents(&longer), vec![vec![1, 7, 8]]);
    let mut values = vec![9];
    append_first_columns(&mut values, &chunks);
    assert_eq!(values, vec![9, 1, 3]);
}

#[test]
fn inputs_by_columns_can_be_replaced() {
    let mut inputs = ColumnInputs::new();
    assert!(inputs.is_empty());
    inputs.set_cuda_inputs(vec![column(&[1, 2])], 2);
    assert!(!inputs.is_empty());
    assert_eq!(inputs.size, 2);
}

#[test]
fn a_stable_order_keeps_equal_keys_in_place() {
    assert_eq!(stable_order(&vec![3, 1, 3, 2, 1]), vec![1, 4, 3, 0, 2]);
    assert!(stable_order(&vec![]).is_empty());
}

#[test]
fn values_are_tested_before_they_are_counted() {
    assert!(has_canonical_values(&column(&[0, P - 1])));
    assert!(!has_canonical_values(&column(&[0, P])));
    assert!(fits_in_bits(7, 3) && !fits_in_bits(8, 3));
    assert!(fits_in_bits(u32::MAX, 32) && !fits_in_bits(1, 0));
    let rows = vec![column(&[3, 4]), column(&[1, 1])];
    assert!(are_rows_of_table(&[2, 1], &rows, 1));
    assert!(!are_rows_of_table(&[2, 1], &rows, 2));
    assert!(!are_rows_of_table(&[2, 1], &rows, 3));
    assert!(!are_rows_of_table(&[2], &rows, 1));
    assert!(are_batches_of_table(&[3, 1], &vec![rows]));
    assert!(!are_batches_of_table(&[2], &vec![vec![]]));
    assert!(are_xor_batches(2, &vec![vec![column(&[3]), column(&[0]), column(&[99])]]));
    assert!(!are_xor_batches(2, &vec![vec![column(&[4]), column(&[0]), column(&[4])]]));
    assert!(!are_xor_batches(2, &vec![vec![column(&[3]), column(&[0])]]));
    assert!(are_shiftable_batches(&vec![vec![column(&[5])]]));
    assert!(!are_shiftable_batches(&vec![vec![column(&[5]), column(&[5])]]));
}

#[test]
fn carries_reach_the_relations_of_the_table() {
    // Group g holds the stored carry g; the last group's first entry stands too high.
    let mut lookups: Vec<Vec<Vec<BaseFieldVec>>> =
        (0..8).map(|g| vec![vec![column(&[131072 + g])]]).collect();
    lookups[7][0][0] = column(&[262144 + 7]);
    normalize_first_carry(&mut lookups, 7);
    assert_eq!(lookups[7][0][0].to_vec(), vec![131072 + 7]);
    assert!(are_carry_groups(&lookups, 0));
    let mut table = rc_20::CudaClaimGenerator::new();
    feed_carries(&mut table, &lookups, 0);
    for relation in 0..8 {
        let group = if relation == 0 { 7 } else { relation - 1 };
        let counters = table.0.multiplicities[relation].to_vec();
        assert_eq!(counters[524288 + group], 1);
        assert_eq!(counters.iter().sum::<u32>(), 1);
    }
    lookups[2][0][0] = column(&[P - 1]);
    assert!(are_carry_groups(&lookups, 0));
    lookups[2][0][0] = column(&[1 << 20]);
    assert!(!are_carry_groups(&lookups, 0));
}

#[test]
fn a_negative_first_carry_wraps_in_the_field() {
    let mut lookups = vec![vec![vec![column(&[0, 131071])]]];
    normalize_first_carry(&mut lookups, 0);
    assert_eq!(lookups[0][0][0].to_vec(), vec![P - 131072, P - 1]);
}

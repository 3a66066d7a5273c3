//! Preprocessed columns and how they are interpolated.

use cairo_cuda_witness::column::BaseFieldVec;
use cairo_cuda_witness::interpolation::{
    interpolate_columns_batched, interpolation_groups, largest_group, Method,
};
use cairo_cuda_witness::preprocessed_columns::{
    gen_bitwise_xor_columns_cuda, gen_range_check_columns_cuda, gen_seq_column_cuda,
    partition_into_bit_segments, sum_of_bits,
};
use cairo_cuda_witness::preprocessed_trace_cuda::{
    can_be_generated, column_kind, gen_preprocessed_trace_cuda, gen_preprocessed_trace_on_gpu,
    leaves_enabled, outside_needs, use_gpu_generation, ColumnCounts, ColumnKind, IndexedColumn,
    OutsideColumns,
};
use cairo_cuda_witness::tree_builder::CircleEvaluation;

fn column(values: &[u32]) -> BaseFieldVec {
    BaseFieldVec::from_vec(values.to_vec())
}

fn evaluation(log_size: u32, value: u32) -> CircleEvaluation {
    CircleEvaluation { log_size, values: column(&vec![value; 1 << log_size]) }
}

fn indexed(index: usize, log_size: u32) -> IndexedColumn {
    IndexedColumn { index, column: evaluation(log_size, index as u32) }
}

fn contents(cols: &[CircleEvaluation]) -> Vec<(u32, Vec<u32>)> {
    cols.iter().map(|col| (col.log_size, col.values.to_vec())).collect()
}

fn nothing_outside() -> OutsideColumns {
    OutsideColumns {
        pedersen: vec![],
        pedersen_small: vec![],
        poseidon_round_keys: vec![],
        blake_sigma: vec![],
    }
}

fn names(ids: &[&str]) -> Vec<String> {
    ids.iter().map(|id| id.to_string()).collect()
}

#[test]
fn generation_on_the_device_is_the_default() {
    assert!(use_gpu_generation(None));
    assert!(use_gpu_generation(Some("1")));
    assert!(use_gpu_generation(Some("")));
    assert!(use_gpu_generation(Some("true")));
    assert!(!use_gpu_generation(Some("0")));
    assert!(!use_gpu_generation(Some("false")));
    assert!(!use_gpu_generation(Some("FALSE")));
    assert!(!use_gpu_generation(Some("False")));
    assert!(leaves_enabled("FALSE", "FALSE"));
    assert!(!leaves_enabled("anything", "false"));
}

#[test]
fn a_sequence_counts_up() {
    assert_eq!(gen_seq_column_cuda(3).to_vec(), vec![0, 1, 2, 3, 4, 5, 6, 7]);
    assert_eq!(gen_seq_column_cuda(0).to_vec(), vec![0]);
}

#[test]
fn an_index_is_partitioned_into_segments() {
    // 0b101_01_1 in segments of three, two and one bits.
    assert_eq!(partition_into_bit_segments(0b101011, &vec![3, 2, 1]), vec![5, 1, 1]);
    assert_eq!(sum_of_bits(&vec![3, 2, 1], 30), Some(6));
    assert_eq!(sum_of_bits(&vec![20, 11], 30), None);
    assert_eq!(sum_of_bits(&vec![u32::MAX, u32::MAX], 30), None);
}

#[test]
fn a_table_lists_all_tuples() {
    let cols = gen_range_check_columns_cuda(&vec![1, 2]);
    assert_eq!(cols.len(), 2);
    assert_eq!(cols[0].to_vec(), vec![0, 0, 0, 0, 1, 1, 1, 1]);
    assert_eq!(cols[1].to_vec(), vec![0, 1, 2, 3, 0, 1, 2, 3]);
}

#[test]
fn a_xor_table_lists_all_pairs() {
    let cols = gen_bitwise_xor_columns_cuda(2);
    assert_eq!(cols.len(), 3);
    for i in 0..16 {
        let (a, b, c) = (cols[0].values[i], cols[1].values[i], cols[2].values[i]);
        assert_eq!((a * 4 + b) as usize, i);
        assert_eq!(c, a ^ b);
    }
}

#[test]
fn names_tell_the_kind_of_a_column() {
    assert!(matches!(column_kind("seq_5"), ColumnKind::Sequence));
    assert!(matches!(column_kind("range_check_4_3_column_1"), ColumnKind::RangeCheck(_, 1)));
    assert!(matches!(column_kind("bitwise_xor_8_2"), ColumnKind::BitwiseXor(8, 2)));
    assert!(matches!(column_kind("pedersen_points_small_3"), ColumnKind::PedersenPointsSmall(3)));
    assert!(matches!(column_kind("pedersen_points_3"), ColumnKind::PedersenPoints(3)));
    assert!(matches!(column_kind("poseidon_round_keys_4"), ColumnKind::PoseidonRoundKeys(4)));
    assert!(matches!(column_kind("blake_sigma_5"), ColumnKind::BlakeSigma(5)));
    assert!(matches!(column_kind("sequence"), ColumnKind::Unknown));
}

#[test]
fn columns_are_generated_by_name() {
    let ids = names(&[
        "seq_2",
        "range_check_1_2_column_1",
        "bitwise_xor_1_2",
        "range_check_1_2_column_0",
        "pedersen_points_1",
        "pedersen_points_small_0",
        "poseidon_round_keys_7",
        "blake_sigma_3",
        "poseidon_round_keys_2",
    ]);
    let log_sizes = vec![2, 3, 2, 3, 1, 1, 6, 4, 6];
    let needs = match outside_needs(&ids) {
        Ok(needs) => needs,
        Err(at) => panic!("unknown name at {at}"),
    };
    assert!(needs.pedersen && needs.pedersen_small);
    assert_eq!(needs.poseidon_round_keys, vec![7, 2]);
    assert_eq!(needs.blake_sigma, vec![3]);
    let outside = OutsideColumns {
        pedersen: vec![evaluation(1, 10), evaluation(1, 11)],
        pedersen_small: vec![evaluation(1, 20)],
        poseidon_round_keys: vec![indexed(2, 6), indexed(7, 6)],
        blake_sigma: vec![indexed(3, 4)],
    };
    assert!(can_be_generated(&log_sizes, &ids, &outside));
    let (cols, counts) = gen_preprocessed_trace_on_gpu(&log_sizes, &ids, &outside);
    assert_eq!(cols.len(), 9);
    assert_eq!(cols[0].values.to_vec(), vec![0, 1, 2, 3]);
    assert_eq!(cols[1].values.to_vec(), vec![0, 1, 2, 3, 0, 1, 2, 3]);
    assert_eq!(cols[1].log_size, 3);
    assert_eq!(cols[2].values.to_vec(), vec![0, 1, 1, 0]);
    assert_eq!(cols[3].values.to_vec(), vec![0, 0, 0, 0, 1, 1, 1, 1]);
    assert_eq!(cols[4].values.to_vec(), vec![11, 11]);
    assert_eq!(cols[5].values.to_vec(), vec![20, 20]);
    assert_eq!(cols[6].values.to_vec()[0], 7);
    assert_eq!(cols[7].values.to_vec()[0], 3);
    assert_eq!(cols[8].values.to_vec()[0], 2);
    assert_eq!(
        counts,
        ColumnCounts {
            seq: 1,
            range_check: 2,
            bitwise_xor: 1,
            pedersen: 1,
            pedersen_small: 1,
            poseidon: 2,
            blake: 1,
        }
    );
}

#[test]
fn an_unknown_name_is_reported_by_position() {
    assert_eq!(outside_needs(&names(&["seq_1", "nonsense", "also"])).err(), Some(1));
}

#[test]
fn columns_that_cannot_be_generated_are_told() {
    let none = nothing_outside();
    assert!(can_be_generated(&vec![3], &names(&["range_check_1_2_column_1"]), &none));
    assert!(!can_be_generated(&vec![4], &names(&["range_check_1_2_column_1"]), &none));
    assert!(!can_be_generated(&vec![3], &names(&["range_check_1_2_column_2"]), &none));
    assert!(!can_be_generated(&vec![2], &names(&["bitwise_xor_1_3"]), &none));
    assert!(!can_be_generated(&vec![0], &names(&["seq_0"]), &none));
    assert!(!can_be_generated(&vec![31], &names(&["seq_31"]), &none));
    assert!(!can_be_generated(&vec![23], &names(&["pedersen_points_0"]), &none));
    assert!(!can_be_generated(&vec![4], &names(&["blake_sigma_0"]), &none));
    let mut other = nothing_outside();
    other.blake_sigma.push(indexed(1, 4));
    assert!(!can_be_generated(&vec![4], &names(&["blake_sigma_0"]), &other));
    assert!(can_be_generated(&vec![4], &names(&["blake_sigma_1"]), &other));
    assert!(!can_be_generated(&vec![4], &names(&["unknown"]), &none));
    assert!(!can_be_generated(&vec![], &names(&["seq_1"]), &none));
    // Only the first column of a table has to have its size.
    let ids = names(&["range_check_2_column_0", "range_check_2_column_0"]);
    assert!(can_be_generated(&vec![2, 5], &ids, &none));
}

#[test]
fn the_host_columns_are_taken_where_generation_is_disabled() {
    let none = nothing_outside();
    let ids = names(&["seq_1"]);
    let host = vec![evaluation(1, 9)];
    let taken = gen_preprocessed_trace_cuda(false, &vec![1], &ids, &none, host);
    assert_eq!(taken[0].values.to_vec(), vec![9, 9]);
    let generated = gen_preprocessed_trace_cuda(true, &vec![1], &ids, &none, vec![]);
    assert_eq!(generated[0].values.to_vec(), vec![0, 1]);
}

#[test]
fn a_column_does_not_depend_on_the_others() {
    let mut outside = nothing_outside();
    outside.poseidon_round_keys = vec![indexed(4, 6), indexed(0, 6)];
    outside.blake_sigma = vec![indexed(9, 4)];
    let ids = names(&[
        "poseidon_round_keys_0",
        "blake_sigma_9",
        "seq_2",
        "poseidon_round_keys_4",
        "bitwise_xor_1_1",
        "poseidon_round_keys_0",
    ]);
    let log_sizes = vec![6, 4, 2, 6, 2, 6];
    assert!(can_be_generated(&log_sizes, &ids, &outside));
    let all = contents(&gen_preprocessed_trace_on_gpu(&log_sizes, &ids, &outside).0);
    assert_eq!(all[0], (6, vec![0; 64]));
    assert_eq!(all[3], (6, vec![4; 64]));
    assert_eq!(all[5], all[0]);
    for i in 0..ids.len() {
        assert_eq!(all[i].0, log_sizes[i]);
        let alone = vec![ids[i].clone()];
        let (col, _) = gen_preprocessed_trace_on_gpu(&vec![log_sizes[i]], &alone, &outside);
        assert_eq!(contents(&col), vec![all[i].clone()]);
    }
    let back: Vec<String> = ids.iter().rev().cloned().collect();
    let back_sizes: Vec<u32> = log_sizes.iter().rev().copied().collect();
    let mut reversed = contents(&gen_preprocessed_trace_on_gpu(&back_sizes, &back, &outside).0);
    reversed.reverse();
    assert_eq!(reversed, all);
}

#[test]
fn generation_on_and_off_agree() {
    let mut outside = nothing_outside();
    outside.pedersen = vec![evaluation(3, 8), evaluation(3, 9)];
    outside.blake_sigma = vec![indexed(2, 4)];
    let ids = names(&[
        "seq_3",
        "range_check_1_1_column_0",
        "bitwise_xor_1_2",
        "pedersen_points_1",
        "blake_sigma_2",
    ]);
    let log_sizes = vec![3, 2, 2, 3, 4];
    let host = || {
        vec![
            CircleEvaluation { log_size: 3, values: column(&[0, 1, 2, 3, 4, 5, 6, 7]) },
            CircleEvaluation { log_size: 2, values: column(&[0, 0, 1, 1]) },
            CircleEvaluation { log_size: 2, values: column(&[0, 1, 1, 0]) },
            evaluation(3, 9),
            evaluation(4, 2),
        ]
    };
    assert!(can_be_generated(&log_sizes, &ids, &outside));
    let on = gen_preprocessed_trace_cuda(true, &log_sizes, &ids, &outside, vec![]);
    let off = gen_preprocessed_trace_cuda(false, &log_sizes, &ids, &outside, host());
    assert_eq!(contents(&on), contents(&off));
}

#[test]
fn a_batch_gives_what_its_columns_give_alone() {
    // Any transform that works column by column serves.
    let transform = |log_size: u32, values: &BaseFieldVec| {
        column(&values.values.iter().rev().map(|v| 10 * v + log_size).collect::<Vec<_>>())
    };
    let interpolate = |log_sizes: &Vec<u32>, cols: &[BaseFieldVec]| -> Vec<Vec<u32>> {
        let groups = interpolation_groups(log_sizes);
        let outcomes = groups
            .iter()
            .map(|g| g.members.iter().map(|&i| transform(g.log_size, &cols[i])).collect())
            .collect();
        let polys = interpolate_columns_batched(log_sizes, &groups, &outcomes);
        polys.iter().map(|p| p.to_vec()).collect()
    };
    let log_sizes = vec![2, 1, 2, 5, 1];
    let cols: Vec<BaseFieldVec> = log_sizes
        .iter()
        .enumerate()
        .map(|(i, &n)| column(&(0..1 << n).map(|r| 100 * i as u32 + r).collect::<Vec<_>>()))
        .collect();
    let batch = interpolate(&log_sizes, &cols);
    assert_eq!(batch.len(), 5);
    assert_eq!(batch[1], vec![1011, 1001]);
    for i in 0..5 {
        let alone = interpolate(&vec![log_sizes[i]], &cols[i..i + 1]);
        assert_eq!(alone, vec![batch[i].clone()]);
    }
}

#[test]
fn columns_of_one_size_are_interpolated_together() {
    let log_sizes = vec![5, 3, 5, 4, 3];
    let groups = interpolation_groups(&log_sizes);
    let seen: Vec<(u32, Vec<usize>, Method)> =
        groups.iter().map(|g| (g.log_size, g.members.clone(), g.method)).collect();
    assert_eq!(
        seen,
        vec![
            (3, vec![1, 4], Method::Host),
            (4, vec![3], Method::Transform { num_poly: 1, eval_domain_size: 8 }),
            (5, vec![0, 2], Method::Transform { num_poly: 2, eval_domain_size: 16 }),
        ]
    );
    assert_eq!(largest_group(&groups), 2);
    let outcomes = vec![
        vec![column(&[1]), column(&[4])],
        vec![column(&[3])],
        vec![column(&[0]), column(&[2])],
    ];
    let polys = interpolate_columns_batched(&log_sizes, &groups, &outcomes);
    let values: Vec<u32> = polys.iter().map(|p| p.values[0]).collect();
    assert_eq!(values, vec![0, 1, 2, 3, 4]);
}

#[test]
fn no_columns_need_no_interpolation() {
    let groups = interpolation_groups(&vec![]);
    assert!(groups.is_empty());
    assert_eq!(largest_group(&groups), 0);
    assert!(interpolate_columns_batched(&vec![], &groups, &vec![]).is_empty());
}

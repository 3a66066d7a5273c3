//! Lookup elements, relation constants and denominators.

use cairo_cuda_witness::field::SecureField;
use cairo_cuda_witness::launch::{modified_lookups, LookupRequest};
use cairo_cuda_witness::logup::{fraction_of, tuple_fractions};
use cairo_cuda_witness::lookup::{
    combine, create_modified_lookup_for_cuda, create_modified_lookup_for_cuda_with_offset,
    create_per_relation_lookup_elements, LookupElements, RelationIds,
};

const P: u32 = 2147483647;

fn secure(a: u32, b: u32, c: u32, d: u32) -> SecureField {
    SecureField { a, b, c, d }
}

fn common() -> LookupElements {
    LookupElements {
        z: secure(11, 22, 33, 44),
        alpha: secure(7, 1, 2, 3),
        alpha_powers: (0..128)
            .map(|i| secure(1000 + i, P - 1 - i, 17 * i, 123456789))
            .collect(),
    }
}

fn ids() -> RelationIds {
    RelationIds {
        memory_address_to_id: 1,
        memory_id_to_big: 2,
        opcodes: 3,
        verify_instruction: 4,
        rc_18: 5,
        rc_18_b: 6,
        rc_11: 7,
        rc_7_2_5: 8,
        rc_4_3: 9,
        rc_4_4: 10,
        rc_4_4_4_4: 11,
        rc_3_3_3_3_3: 12,
        range_check_252_width_27: 13,
        verify_bitwise_xor_8: 14,
        verify_bitwise_xor_8_b: 15,
        triple_xor_32: 16,
        blake_round: 17,
        partial_ec_mul: 18,
        pedersen_points_table: 19,
        cube_252: 20,
        poseidon_round_keys: 21,
        poseidon_full_round_chain: 22,
        poseidon_3_partial_rounds_chain: 23,
        rc_19: [30, 31, 32, 33, 34, 35, 36, 37],
        rc_9_9: [40, 41, 42, 43, 44, 45, 46, 47],
    }
}

#[test]
fn values_are_weighted_by_the_powers() {
    let e = LookupElements {
        z: secure(5, 0, 1, 0),
        alpha: secure(1, 0, 0, 0),
        alpha_powers: vec![secure(1, 0, 0, 0), secure(0, 2, 0, P - 1)],
    };
    assert_eq!(combine(&e, &vec![]), secure(P - 5, 0, P - 1, 0));
    assert_eq!(combine(&e, &vec![9]), secure(4, 0, P - 1, 0));
    assert_eq!(combine(&e, &vec![9, 3]), secure(4, 6, P - 1, P - 3));
}

#[test]
fn a_baked_in_constant_stands_in_front_of_the_values() {
    let common = common();
    let values = vec![5, 2000000000, 77];
    for constant in [0, 1, 1410849886, P - 1] {
        let m = create_per_relation_lookup_elements(&common, constant, 3);
        assert_eq!(m.alpha_powers.len(), 3);
        let mut with_constant = vec![constant];
        with_constant.extend(&values);
        assert_eq!(combine(&m, &values), combine(&common, &with_constant));
    }
}

#[test]
fn a_kernel_is_handed_all_remaining_powers() {
    let common = common();
    let m = create_modified_lookup_for_cuda(&common, 3);
    assert_eq!(m.alpha_powers.len(), 127);
    assert_eq!(m.alpha_powers[126], common.alpha_powers[127]);
    assert_eq!(m.alpha, common.alpha);
    // 11 - 3 * 1000, 22 + 3, 33, 44 - 3 * 123456789.
    assert_eq!(m.z, secure(P - 2989, 25, 33, P - 370370323));
}

#[test]
fn a_baked_in_offset_is_added_to_the_first_value() {
    let common = common();
    let offset = 393216;
    let m = create_modified_lookup_for_cuda_with_offset(&common, 9, offset);
    for first in [0, 131072, P - 1] {
        let shifted = ((first as u64 + offset as u64) % P as u64) as u32;
        assert_eq!(
            combine(&m, &vec![first, 6]),
            combine(&common, &vec![9, shifted, 6])
        );
    }
}

#[test]
fn requests_are_answered_in_order() {
    let common = common();
    let requests = vec![LookupRequest::Plain(3), LookupRequest::WithOffset(9, 5)];
    let answers = modified_lookups(&common, &requests);
    assert_eq!(answers.len(), 2);
    assert_eq!(answers[0].z, create_modified_lookup_for_cuda(&common, 3).z);
    assert_eq!(
        answers[1].z,
        create_modified_lookup_for_cuda_with_offset(&common, 9, 5).z
    );
}

#[test]
fn a_table_takes_back_what_its_users_added() {
    let common = common();
    let once = fraction_of(&common, &vec![1, 2], 1);
    assert_eq!(once.numerator, secure(P - 1, 0, 0, 0));
    assert_eq!(once.denominator, combine(&common, &vec![1, 2]));
    let never = fraction_of(&common, &vec![1, 2], 0);
    assert_eq!(never.numerator, secure(0, 0, 0, 0));
    let often = fraction_of(&common, &vec![], P - 1);
    assert_eq!(often.numerator, secure(1, 0, 0, 0));
}

#[test]
fn the_fractions_of_a_table_follow_its_rows() {
    let common = common();
    let fractions = tuple_fractions(&common, &vec![1, 2], &vec![0, 1, 2, 3, 4, 5, 6, 7]);
    assert_eq!(fractions.len(), 8);
    // Row 6 holds the pair (1, 2).
    assert_eq!(fractions[6].denominator, combine(&common, &vec![1, 2]));
    assert_eq!(fractions[6].numerator, secure(P - 6, 0, 0, 0));
}

#[test]
fn malformed_elements_are_told() {
    assert!(common().are_common());
    let mut short = common();
    short.alpha_powers.pop();
    assert!(!short.are_common());
    let mut large = common();
    large.alpha_powers[127].d = P;
    assert!(!large.are_common());
    let mut large_z = common();
    large_z.z.a = P;
    assert!(!large_z.are_common());
    assert!(ids().is_wf());
    let mut wrong = ids();
    wrong.rc_9_9[7] = P;
    assert!(!wrong.is_wf());
    let mut wrong = ids();
    wrong.blake_round = u32::MAX;
    assert!(!wrong.is_wf());
}

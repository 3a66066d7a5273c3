//! Opcodes: their states, their buffers, and what they feed.

use cairo_cuda_witness::column::BaseFieldVec;
use cairo_cuda_witness::components_cuda::opcodes::{
    blake_compress_opcode_cuda, generic_opcode_cuda, jump_opcode_cuda,
    jump_opcode_double_deref_cuda, mul_opcode_cuda, mul_opcode_small_cuda,
};
use cairo_cuda_witness::components_cuda::range_check::{rc_18, rc_20};
use cairo_cuda_witness::components_cuda::range_check::base::{
    CudaMultiRelationRangeCheckGenerator, CudaRangeCheckGenerator,
};
use cairo_cuda_witness::components_cuda::verify_bitwise_xor::vbx_8;
use cairo_cuda_witness::components_cuda::{triple_xor_32_cuda, verify_instruction_cuda};
use cairo_cuda_witness::field::SecureField;
use cairo_cuda_witness::inputs::{CasmState, ComponentInputs};
use cairo_cuda_witness::launch::{InteractionOutcome, TraceBuffers};
use cairo_cuda_witness::lookup::{
    create_modified_lookup_for_cuda, create_modified_lookup_for_cuda_with_offset, LookupElements,
    RelationIds,
};
use cairo_cuda_witness::opcode_checks::{
    can_feed_blake, can_feed_generic, can_feed_jump, can_feed_jump_double_deref, can_feed_mul,
    can_feed_mul_small, can_feed_other,
};
use cairo_cuda_witness::opcodes_cuda::{
    CasmStatesByOpcode, OpcodeFeeds, OpcodeInteractionOutcomes, OpcodeOutput, OpcodeOutputs,
    OpcodesCudaClaimGenerator, OtherOpcode, Relation,
};
use cairo_cuda_witness::range_checks_cuda::RangeChecksCudaClaimGenerator;
use cairo_cuda_witness::tree_builder::TreeBuilder;

const P: u32 = 2147483647;

fn column(values: &[u32]) -> BaseFieldVec {
    BaseFieldVec::from_vec(values.to_vec())
}

fn states(n: u32) -> Vec<CasmState> {
    (0..n).map(|i| CasmState { pc: i + 1, ap: i + 50, fp: 50 }).collect()
}

fn program() -> verify_instruction_cuda::CudaClaimGenerator {
    verify_instruction_cuda::CudaClaimGenerator::new((0..20).map(|pc| (pc, pc as u128)).collect())
}

fn common() -> LookupElements {
    LookupElements {
        z: SecureField { a: 1, b: 2, c: 3, d: 4 },
        alpha: SecureField { a: 5, b: 6, c: 7, d: 8 },
        alpha_powers: (0..128)
            .map(|i| SecureField { a: i + 1, b: 3 * i, c: 9, d: 7 * i })
            .collect(),
    }
}

fn ids() -> RelationIds {
    RelationIds {
        memory_address_to_id: 1,
        memory_id_to_big: 2,
        opcodes: 3,
        verify_instruction: 4,
        rc_18: 5,
        rc_18_b: 6,
        rc_11: 7,
        rc_7_2_5: 8,
        rc_4_3: 9,
        rc_4_4: 10,
        rc_4_4_4_4: 11,
        rc_3_3_3_3_3: 12,
        range_check_252_width_27: 13,
        verify_bitwise_xor_8: 14,
        verify_bitwise_xor_8_b: 15,
        triple_xor_32: 16,
        blake_round: 17,
        partial_ec_mul: 18,
        pedersen_points_table: 19,
        cube_252: 20,
        poseidon_round_keys: 21,
        poseidon_full_round_chain: 22,
        poseidon_3_partial_rounds_chain: 23,
        rc_19: [30, 31, 32, 33, 34, 35, 36, 37],
        rc_9_9: [40, 41, 42, 43, 44, 45, 46, 47],
    }
}

/// Writes `value` into row `row` of a column.
fn put(col: &mut BaseFieldVec, row: usize, value: u32) {
    col.values[row] = value;
}

fn rows_with(col: &BaseFieldVec, value: u32) -> usize {
    col.to_vec().iter().filter(|v| **v == value).count()
}

fn multiplicity(program: &verify_instruction_cuda::CudaClaimGenerator, pc: u32) -> u32 {
    program.sorted_instructions().iter().find(|i| i.pc == pc).unwrap().multiplicity
}

#[test]
fn a_jump_feeds_memory_and_instructions() {
    let gen = jump_opcode_cuda::CudaClaimGenerator::new(states(3));
    assert_eq!((gen.n_rows, gen.log_size()), (3, 4));
    assert_eq!(rows_with(&gen.inputs[0], 1), 14);
    let mut buffers = gen.trace_buffers();
    assert_eq!(buffers.trace.len(), jump_opcode_cuda::N_TRACE_COLUMNS);
    put(&mut buffers.trace[0], 2, 77);
    put(&mut buffers.sub_inputs[0][0][0], 3, 5);
    put(&mut buffers.sub_inputs[1][0][0], 0, 11);
    put(&mut buffers.sub_inputs[2][0][0], 1, 12);
    assert!(can_feed_jump(&gen, &buffers));
    let mut tree = TreeBuilder::new();
    let mut addresses = ComponentInputs::new();
    let mut values = ComponentInputs::new();
    let mut instructions = program();
    let (mut host_addresses, mut host_values, mut host_instructions) = (vec![9], vec![], vec![]);
    let (claim, pending) = gen.write_trace(
        buffers,
        &mut tree,
        &mut addresses,
        &mut values,
        &mut instructions,
        &mut host_addresses,
        &mut host_values,
        &mut host_instructions,
    );
    assert_eq!(claim.log_size, 4);
    assert_eq!(tree.evals.len(), jump_opcode_cuda::N_TRACE_COLUMNS);
    assert_eq!(tree.evals[0].values.values[2], 77);
    assert_eq!(addresses.fed[0][0].values[0], 11);
    assert_eq!(values.fed[0][0].values[1], 12);
    assert_eq!(multiplicity(&instructions, 5), 1);
    assert_eq!(multiplicity(&instructions, 0), 15);
    assert_eq!(host_addresses[..3], [9, 11, 0]);
    assert_eq!(host_values.len(), 16);
    assert_eq!(host_instructions[3].pc, 5);

    let cols = pending.interaction_columns();
    assert_eq!(cols.len(), 4 * jump_opcode_cuda::N_INTERACTION_TRACE_COLUMNS);
    let claim = pending.write_interaction_trace(&mut tree, cols, [1, 2, 3, 4]);
    assert_eq!(claim.claimed_sum, SecureField { a: 1, b: 2, c: 3, d: 4 });
}

#[test]
fn jumps_may_have_no_states() {
    let gen = jump_opcode_cuda::CudaClaimGenerator::new(vec![]);
    assert_eq!((gen.n_rows, gen.log_size()), (0, 4));
    assert_eq!(gen.inputs[2].to_vec(), vec![0; 16]);
    let gen = jump_opcode_double_deref_cuda::CudaClaimGenerator::new(vec![]);
    assert_eq!(gen.log_size(), 4);
}

#[test]
fn a_double_jump_has_two_lookups_of_each_kind() {
    let gen = jump_opcode_double_deref_cuda::CudaClaimGenerator::new(states(17));
    assert_eq!(gen.log_size(), 5);
    let buffers = gen.trace_buffers();
    assert_eq!(buffers.lookups[0].len(), 2);
    assert_eq!(buffers.lookups[1].len(), 2);
    assert!(can_feed_jump_double_deref(&gen, &buffers));
    let mut tree = TreeBuilder::new();
    let mut addresses = ComponentInputs::new();
    let mut values = ComponentInputs::new();
    let mut instructions = program();
    let (claim, pending) =
        gen.write_trace(buffers, &mut tree, &mut addresses, &mut values, &mut instructions);
    assert_eq!(claim.log_size, 5);
    assert_eq!((addresses.fed.len(), values.fed.len()), (2, 2));
    let elements = pending.relation_elements(&common(), &ids());
    let expected: Vec<SecureField> =
        [1, 2, 3, 4].iter().map(|id| create_modified_lookup_for_cuda(&common(), *id).z).collect();
    assert_eq!(elements.iter().map(|e| e.z).collect::<Vec<_>>(), expected);
}

#[test]
fn a_small_product_feeds_the_host_too() {
    let gen = mul_opcode_small_cuda::CudaClaimGenerator::new(states(1));
    let mut buffers = gen.trace_buffers();
    put(&mut buffers.sub_inputs[3][2][0], 4, 2047);
    assert!(can_feed_mul_small(&gen, &buffers));
    let mut tree = TreeBuilder::new();
    let mut addresses = ComponentInputs::new();
    let mut values = ComponentInputs::new();
    let mut instructions = program();
    let (mut a, mut v, mut i, mut r) = (vec![], vec![], vec![], vec![]);
    let (claim, pending) = gen.write_trace(
        buffers,
        &mut tree,
        &mut addresses,
        &mut values,
        &mut instructions,
        &mut a,
        &mut v,
        &mut i,
        &mut r,
    );
    assert_eq!(claim.log_size, 4);
    assert_eq!((a.len(), v.len(), i.len(), r.len()), (48, 48, 16, 48));
    assert_eq!(r[36], 2047);
    assert_eq!(pending.n_rows, 1);
}

#[test]
fn a_product_feeds_its_carries() {
    let gen = mul_opcode_cuda::CudaClaimGenerator::new(states(2));
    let mut buffers = gen.trace_buffers();
    // The very first carry stands in the last group, at twice the offset of the others.
    for g in 0..8 {
        for entry in buffers.lookups[mul_opcode_cuda::FIRST_CARRY_GROUP + g].iter_mut() {
            entry[0] = column(&[131072; 16]);
        }
    }
    buffers.lookups[mul_opcode_cuda::LAST_CARRY_GROUP][0][0] = column(&[262144; 16]);
    assert!(can_feed_mul(&gen, &buffers));
    let mut tree = TreeBuilder::new();
    let mut addresses = ComponentInputs::new();
    let mut values = ComponentInputs::new();
    let mut instructions = program();
    let mut table = rc_20::CudaClaimGenerator::new();
    let (_, pending) = gen.write_trace(
        buffers,
        &mut tree,
        &mut addresses,
        &mut values,
        &mut instructions,
        &mut table,
    );
    // Every carry is zero, which the table has at its own offset.
    let total: u32 = table.0.multiplicities.iter().map(|m| m.to_vec()[524288]).sum();
    assert_eq!(total, 28 * 16);
    let lowered = &pending.lookup_data[mul_opcode_cuda::LAST_CARRY_GROUP][0][0];
    assert_eq!(lowered.to_vec(), vec![131072; 16]);
    let elements = pending.relation_elements(&common(), &ids());
    assert_eq!(elements.len(), 12);
    let first = create_modified_lookup_for_cuda_with_offset(&common(), 31, 393216);
    let last = create_modified_lookup_for_cuda_with_offset(&common(), 30, 393216);
    assert_eq!(elements[4].z, first.z);
    assert_eq!(elements[11].z, last.z);
}

#[test]
fn carries_out_of_range_are_told() {
    let gen = mul_opcode_cuda::CudaClaimGenerator::new(states(2));
    let mut buffers = gen.trace_buffers();
    assert!(can_feed_mul(&gen, &buffers));
    put(&mut buffers.lookups[mul_opcode_cuda::FIRST_CARRY_GROUP][0][0], 0, 1 << 20);
    assert!(!can_feed_mul(&gen, &buffers));
    let mut buffers = gen.trace_buffers();
    put(&mut buffers.lookups[mul_opcode_cuda::LAST_CARRY_GROUP][0][0], 0, P);
    assert!(!can_feed_mul(&gen, &buffers));
}

#[test]
fn a_generic_step_drops_the_extra_column() {
    let gen = generic_opcode_cuda::CudaClaimGenerator::new(states(16));
    let mut buffers = gen.trace_buffers();
    assert_eq!(buffers.trace.len(), 244);
    put(&mut buffers.trace[227], 0, 1);
    put(&mut buffers.trace[228], 0, 2);
    put(&mut buffers.lookups[generic_opcode_cuda::RC_18_GROUP][0][0], 0, 262143);
    put(&mut buffers.lookups[generic_opcode_cuda::RC_11_GROUP][0][0], 0, 2047);
    put(&mut buffers.lookups[generic_opcode_cuda::FIRST_PAIR_GROUP + 7][1][0], 5, 1);
    assert!(can_feed_generic(&gen, &buffers));
    let mut tree = TreeBuilder::new();
    let mut addresses = ComponentInputs::new();
    let mut values = ComponentInputs::new();
    let mut instructions = program();
    let mut rc_9_9 = CudaMultiRelationRangeCheckGenerator::<2, 8>::new([9, 9]);
    let mut rc_20 = rc_20::CudaClaimGenerator::new();
    let mut rc_18 = rc_18::CudaClaimGenerator::new();
    let mut rc_11 = CudaRangeCheckGenerator::<1>::new([11]);
    let (claim, pending) = gen.write_trace(
        buffers,
        &mut tree,
        &mut addresses,
        &mut values,
        &mut instructions,
        &mut rc_9_9,
        &mut rc_20,
        &mut rc_18,
        &mut rc_11,
    );
    assert_eq!(claim.log_size, 4);
    assert_eq!(tree.evals.len(), 243);
    assert_eq!(tree.evals[227].values.values[0], 2);
    assert_eq!(rc_18.relation_multiplicities(0)[262143], 1);
    assert_eq!(rc_18.relation_multiplicities(1)[262143], 0);
    assert_eq!(rc_11.get_multiplicities()[2047], 1);
    assert_eq!(rc_9_9.multiplicities[7].to_vec()[512], 1);
    assert_eq!(rc_9_9.multiplicities[0].to_vec()[0], 64);
    assert_eq!(pending.relation_elements(&common(), &ids()).len(), 22);
    assert_eq!(pending.interaction_columns().len(), 136);
}

#[test]
fn a_compression_feeds_words_and_bytes() {
    let gen = blake_compress_opcode_cuda::CudaClaimGenerator::new(states(1));
    let mut buffers = gen.trace_buffers();
    put(&mut buffers.sub_inputs[3][0][0], 0, 127);
    put(&mut buffers.sub_inputs[4][0][0], 0, 255);
    put(&mut buffers.sub_inputs[6][7][2], 15, 123456789);
    assert!(can_feed_blake(&gen, &buffers, 1));
    assert!(!can_feed_blake(&gen, &buffers, u32::MAX));
    let mut tree = TreeBuilder::new();
    let mut addresses = ComponentInputs::new();
    let mut values = ComponentInputs::new();
    let mut instructions = program();
    let mut rc_7_2_5 = CudaRangeCheckGenerator::<3>::new([7, 2, 5]);
    let mut words = triple_xor_32_cuda::CudaClaimGenerator::new();
    let mut bytes = vbx_8::CudaClaimGenerator::new();
    let mut rounds = ComponentInputs::new();
    let (claim, pending) = gen.write_trace(
        buffers,
        &mut tree,
        &mut addresses,
        &mut values,
        &mut instructions,
        &mut rc_7_2_5,
        &mut words,
        &mut bytes,
        &mut rounds,
    );
    assert_eq!(claim.log_size, 4);
    assert_eq!((addresses.fed.len(), values.fed.len(), rounds.fed.len()), (20, 20, 10));
    assert_eq!(rc_7_2_5.get_multiplicities()[127 * 128], 1);
    assert_eq!(bytes.0.get_multiplicities()[255 * 256], 1);
    assert_eq!(words.inputs.size, 128);
    assert_eq!(words.inputs.columns[2].values[127], 123456789);
    assert_eq!(pending.relation_elements(&common(), &ids()).len(), 8);
}

#[test]
fn words_are_padded_down_to_a_power_of_two() {
    let mut words = triple_xor_32_cuda::CudaClaimGenerator::new();
    words.add_cuda_inputs(&vec![
        vec![column(&[1, 2, 3]), column(&[4, 5, 6]), column(&[7, 8, 9])],
        vec![column(&[10, 11]), column(&[12, 13]), column(&[14, 15])],
    ]);
    assert_eq!(words.inputs.columns[0].to_vec(), vec![1, 2, 3, 10, 11]);
    let mut buffers = words.trace_buffers(21);
    assert_eq!(buffers.trace[0].size(), 4);
    put(&mut buffers.sub_inputs[1][3][1], 2, 9);
    let mut first = vbx_8::CudaClaimGenerator::new();
    let mut second = vbx_8::CudaClaimGenerator::new();
    let mut tree = TreeBuilder::new();
    let (claim, pending) = words.write_trace(buffers, &mut tree, &mut first, &mut second);
    assert_eq!(claim.log_size, 2);
    assert_eq!(first.0.get_multiplicities()[0], 16);
    assert_eq!(second.0.get_multiplicities()[9], 1);
    let elements = pending.relation_elements(&common(), &ids());
    assert_eq!(elements[0].z, create_modified_lookup_for_cuda(&common(), 16).z);
    assert_eq!(elements.len(), 3);
}

#[test]
fn packed_words_replace_all_others() {
    let mut words = triple_xor_32_cuda::CudaClaimGenerator::new();
    words.add_packed_inputs(&vec![vec![[1; 16], [2; 16], [3; 16]]]);
    assert_eq!(words.inputs.size, 16);
    assert_eq!(words.inputs.columns[2].to_vec(), vec![3; 16]);
}

fn no_states() -> CasmStatesByOpcode {
    CasmStatesByOpcode {
        add_opcode: vec![],
        add_opcode_small: vec![],
        add_ap_opcode: vec![],
        assert_eq_opcode: vec![],
        assert_eq_opcode_imm: vec![],
        assert_eq_opcode_double_deref: vec![],
        blake_compress_opcode: vec![],
        call_opcode: vec![],
        call_opcode_rel_imm: vec![],
        generic_opcode: vec![],
        jnz_opcode: vec![],
        jnz_opcode_taken: vec![],
        jump_opcode: vec![],
        jump_opcode_double_deref: vec![],
        jump_opcode_rel: vec![],
        jump_opcode_rel_imm: vec![],
        mul_opcode: vec![],
        mul_opcode_small: vec![],
        qm_31_add_mul_opcode: vec![],
        ret_opcode: vec![],
    }
}

fn no_outputs() -> OpcodeOutputs {
    OpcodeOutputs {
        add: None,
        add_small: None,
        add_ap: None,
        assert_eq: None,
        assert_eq_imm: None,
        assert_eq_double_deref: None,
        blake: None,
        call: None,
        call_rel_imm: None,
        generic: None,
        jnz: None,
        jnz_taken: None,
        jump: None,
        jump_double_deref: None,
        jump_rel: None,
        jump_rel_imm: None,
        mul: None,
        mul_small: None,
        qm31: None,
        ret: None,
    }
}

fn no_outcomes() -> OpcodeInteractionOutcomes {
    OpcodeInteractionOutcomes {
        add: None,
        add_small: None,
        add_ap: None,
        assert_eq: None,
        assert_eq_imm: None,
        assert_eq_double_deref: None,
        blake: None,
        call: None,
        call_rel_imm: None,
        generic: None,
        jnz: None,
        jnz_taken: None,
        jump: None,
        jump_double_deref: None,
        jump_rel: None,
        jump_rel_imm: None,
        mul: None,
        mul_small: None,
        qm31: None,
        ret: None,
    }
}

fn feeds() -> OpcodeFeeds {
    OpcodeFeeds {
        memory_address_to_id: ComponentInputs::new(),
        memory_id_to_big: ComponentInputs::new(),
        verify_instruction: program(),
        range_checks: RangeChecksCudaClaimGenerator::new(),
        verify_bitwise_xor_8: vbx_8::CudaClaimGenerator::new(),
        blake_round: ComponentInputs::new(),
        triple_xor_32: triple_xor_32_cuda::CudaClaimGenerator::new(),
        host_memory_address_to_id: vec![],
        host_memory_id_to_big: vec![],
        host_verify_instruction: vec![],
        host_range_check_11: vec![],
        host_range_check_18: vec![],
        host_range_check_4_4_4_4: vec![],
    }
}

fn add_output() -> OpcodeOutput {
    let mut instruction: Vec<BaseFieldVec> = (0..7).map(|_| BaseFieldVec::new_zeroes(16)).collect();
    put(&mut instruction[0], 0, 3);
    OpcodeOutput {
        log_size: 4,
        trace: vec![BaseFieldVec::new_zeroes(16)],
        lookup_data: vec![],
        verify_instruction: vec![instruction],
        memory_address_to_id: vec![vec![column(&[8; 16])]],
        memory_id_to_big: vec![],
        range_check_11: vec![],
        range_check_18: vec![],
        range_check_4_4_4_4: vec![],
        host_memory_address_to_id: vec![8, 8],
        host_memory_id_to_big: vec![9],
        host_verify_instruction: vec![],
        host_range_check_11: vec![],
        host_range_check_18: vec![],
        host_range_check_4_4_4_4: vec![],
    }
}

fn add_ap_output() -> OpcodeOutput {
    let mut output = add_output();
    output.range_check_11 = vec![vec![column(&[5; 16])]];
    output.range_check_18 = vec![vec![column(&[262143; 16])]];
    output.host_range_check_11 = vec![5];
    output.host_range_check_18 = vec![6, 7];
    output
}

fn qm31_output() -> OpcodeOutput {
    let mut output = add_output();
    output.range_check_4_4_4_4 = vec![(0..4).map(|i| column(&[i; 16])).collect()];
    output.host_range_check_4_4_4_4 = vec![[0, 1, 2, 3]];
    output
}

fn assert_eq_output() -> OpcodeOutput {
    let mut output = add_output();
    output.host_memory_id_to_big = vec![];
    output
}

#[test]
fn opcodes_without_states_are_left_out() {
    let gens = OpcodesCudaClaimGenerator::new(no_states());
    assert!(gens.add.is_none() && gens.blake.is_none() && gens.ret.is_none());
    let mut feeds = feeds();
    let mut tree = TreeBuilder::new();
    assert!(gens.can_write_trace(&no_outputs(), &feeds));
    let (claim, pending) = gens.write_trace(no_outputs(), &mut tree, &mut feeds);
    assert!(claim.add.is_none() && claim.mul.is_none());
    assert!(tree.evals.is_empty());
    assert!(pending.can_write_interaction_trace(&no_outcomes()));
    let claim = pending.write_interaction_trace(&mut tree, no_outcomes());
    assert!(claim.jump.is_none());
    assert!(tree.evals.is_empty());
}

#[test]
fn opcodes_are_written_in_order() {
    let mut by_opcode = no_states();
    by_opcode.add_opcode = states(1);
    by_opcode.jump_opcode = states(2);
    by_opcode.mul_opcode = states(17);
    let gens = OpcodesCudaClaimGenerator::new(by_opcode);
    let mut outputs = no_outputs();
    outputs.add = Some(add_output());
    outputs.jump = gens.jump.as_ref().map(|g| g.trace_buffers());
    outputs.mul = gens.mul.as_ref().map(|g| g.trace_buffers());
    let mut feeds = feeds();
    let mut tree = TreeBuilder::new();
    assert!(gens.can_write_trace(&outputs, &feeds));
    let (claim, pending) = gens.write_trace(outputs, &mut tree, &mut feeds);
    assert_eq!(claim.add.unwrap().log_size, 4);
    assert_eq!(claim.jump.unwrap().log_size, 4);
    assert_eq!(claim.mul.unwrap().log_size, 5);
    assert!(claim.generic.is_none());
    let n_jump = jump_opcode_cuda::N_TRACE_COLUMNS;
    assert_eq!(tree.evals.len(), 1 + n_jump + mul_opcode_cuda::N_TRACE_COLUMNS);
    assert_eq!(tree.evals[n_jump].log_size, 4);
    assert_eq!(tree.evals[n_jump + 1].log_size, 5);
    assert_eq!(multiplicity(&feeds.verify_instruction, 3), 1);
    let unfed = RangeChecksCudaClaimGenerator::new();
    assert_eq!(
        feeds.range_checks.rc_11_trace_generator.get_multiplicities(),
        unfed.rc_11_trace_generator.get_multiplicities()
    );
    // One batch of addresses from the addition, one from the jump, three from the product.
    assert_eq!(feeds.memory_address_to_id.fed.len(), 5);
    // Two addresses of the host from the addition, and those of the jump's rows.
    assert_eq!(feeds.host_memory_address_to_id.len(), 2 + 16);
    assert_eq!(feeds.host_memory_address_to_id[..2], [8, 8]);
    assert_eq!(feeds.host_memory_id_to_big[0], 9);
    assert!(feeds.host_range_check_11.is_empty() && feeds.host_range_check_18.is_empty());

    let outcome = |n: usize, len: usize, sum: u32| InteractionOutcome {
        columns: (0..n).map(|_| BaseFieldVec::new_zeroes(len)).collect(),
        claimed_sum: [sum, 0, 0, 0],
    };
    let mut outcomes = no_outcomes();
    outcomes.add = Some(outcome(4, 16, 1));
    outcomes.jump = Some(outcome(4 * jump_opcode_cuda::N_INTERACTION_TRACE_COLUMNS, 16, 2));
    outcomes.mul = Some(outcome(4 * mul_opcode_cuda::N_INTERACTION_TRACE_COLUMNS, 32, 3));
    assert!(pending.can_write_interaction_trace(&outcomes));
    let mut tree = TreeBuilder::new();
    let claim = pending.write_interaction_trace(&mut tree, outcomes);
    assert_eq!(claim.add.unwrap().claimed_sum.a, 1);
    assert_eq!(claim.jump.unwrap().claimed_sum.a, 2);
    assert_eq!(claim.mul.unwrap().claimed_sum.a, 3);
    assert_eq!(tree.evals[0].log_size, 4);
    assert_eq!(tree.evals[tree.evals.len() - 1].log_size, 5);
}

#[test]
fn missing_or_malformed_outputs_are_told() {
    let mut by_opcode = no_states();
    by_opcode.add_opcode = states(1);
    let gens = OpcodesCudaClaimGenerator::new(by_opcode);
    let feeds = feeds();
    assert!(!gens.can_write_trace(&no_outputs(), &feeds));
    let mut outputs = no_outputs();
    let mut output = add_output();
    assert!(can_feed_other(OtherOpcode::Add, &output));
    output.range_check_11 = vec![vec![column(&[5])]];
    assert!(!can_feed_other(OtherOpcode::Add, &output));
    assert!(can_feed_other(OtherOpcode::AddAp, &output));
    output.range_check_11 = vec![vec![column(&[2048])]];
    assert!(!can_feed_other(OtherOpcode::AddAp, &output));
    outputs.add = Some(output);
    assert!(!gens.can_write_trace(&outputs, &feeds));
    let mut output = add_output();
    output.trace = vec![BaseFieldVec::new_zeroes(15)];
    assert!(!can_feed_other(OtherOpcode::Add, &output));
    let empty = TraceBuffers { trace: vec![], lookups: vec![], sub_inputs: vec![] };
    let jump = jump_opcode_cuda::CudaClaimGenerator::new(states(1));
    assert!(!can_feed_jump(&jump, &empty));
}

#[test]
fn only_two_of_the_other_opcodes_feed_tables() {
    for opcode in [
        OtherOpcode::Add,
        OtherOpcode::AddSmall,
        OtherOpcode::AssertEqDoubleDeref,
        OtherOpcode::Call,
        OtherOpcode::CallRelImm,
        OtherOpcode::Jnz,
        OtherOpcode::JnzTaken,
        OtherOpcode::JumpRel,
        OtherOpcode::JumpRelImm,
        OtherOpcode::Ret,
    ] {
        assert!(can_feed_other(opcode, &add_output()));
        assert!(!can_feed_other(opcode, &add_ap_output()));
        assert!(!can_feed_other(opcode, &qm31_output()));
    }
    assert!(can_feed_other(OtherOpcode::AddAp, &add_ap_output()));
    assert!(!can_feed_other(OtherOpcode::AddAp, &qm31_output()));
    assert!(can_feed_other(OtherOpcode::Qm31, &qm31_output()));
    assert!(!can_feed_other(OtherOpcode::Qm31, &add_ap_output()));
    let mut output = add_output();
    output.host_range_check_18 = vec![1];
    assert!(!can_feed_other(OtherOpcode::Ret, &output));
    let mut output = add_output();
    output.host_range_check_4_4_4_4 = vec![[1, 1, 1, 1]];
    assert!(!can_feed_other(OtherOpcode::AddAp, &output));
}

#[test]
fn plain_assertions_feed_no_values_of_the_host() {
    for opcode in [OtherOpcode::AssertEq, OtherOpcode::AssertEqImm] {
        assert!(!can_feed_other(opcode, &add_output()));
        assert!(can_feed_other(opcode, &assert_eq_output()));
    }
}

#[test]
fn other_opcodes_feed_their_tables_and_the_host() {
    let mut by_opcode = no_states();
    by_opcode.add_ap_opcode = states(1);
    by_opcode.assert_eq_opcode = states(1);
    by_opcode.qm_31_add_mul_opcode = states(1);
    let gens = OpcodesCudaClaimGenerator::new(by_opcode);
    let mut outputs = no_outputs();
    outputs.add_ap = Some(add_ap_output());
    outputs.assert_eq = Some(assert_eq_output());
    outputs.qm31 = Some(qm31_output());
    let mut feeds = feeds();
    let mut tree = TreeBuilder::new();
    assert!(gens.can_write_trace(&outputs, &feeds));
    let (claim, _) = gens.write_trace(outputs, &mut tree, &mut feeds);
    assert!(claim.add_ap.is_some() && claim.assert_eq.is_some() && claim.qm31.is_some());
    let tables = &feeds.range_checks;
    assert_eq!(tables.rc_11_trace_generator.get_multiplicities()[5], 16);
    assert_eq!(tables.rc_18_trace_generator.relation_multiplicities(0)[262143], 16);
    assert_eq!(tables.rc_18_trace_generator.relation_multiplicities(1)[262143], 0);
    assert_eq!(tables.rc_4_4_4_4_trace_generator.get_multiplicities()[0x0123], 16);
    assert_eq!(feeds.host_memory_address_to_id, vec![8; 6]);
    assert_eq!(feeds.host_memory_id_to_big, vec![9, 9]);
    assert_eq!(feeds.host_range_check_11, vec![5]);
    assert_eq!(feeds.host_range_check_18, vec![6, 7]);
    assert_eq!(feeds.host_range_check_4_4_4_4, vec![[0, 1, 2, 3]]);
}

#[test]
fn interaction_kernels_are_handed_their_relations() {
    let memory = [Relation::MemoryAddressToId, Relation::MemoryIdToValue];
    let plain = [
        Relation::VerifyInstruction,
        Relation::MemoryAddressToId,
        Relation::MemoryIdToValue,
        Relation::Opcodes,
    ];
    assert_eq!(OtherOpcode::Add.interaction_relations(), plain);
    assert_eq!(OtherOpcode::JumpRel.interaction_relations(), plain);
    assert_eq!(OtherOpcode::Ret.interaction_relations(), plain);
    let small = OtherOpcode::AddSmall.interaction_relations();
    assert_eq!(small[..2], memory);
    assert_eq!(small[2..], [Relation::Opcodes, Relation::VerifyInstruction]);
    assert_eq!(OtherOpcode::AssertEqDoubleDeref.interaction_relations(), small);
    let add_ap = OtherOpcode::AddAp.interaction_relations();
    assert_eq!(add_ap[..3], plain[..3]);
    assert_eq!(add_ap[3..], [Relation::RangeCheck18, Relation::RangeCheck11, Relation::Opcodes]);
    let qm31 = OtherOpcode::Qm31.interaction_relations();
    assert_eq!(qm31[3..], [Relation::RangeCheck4444, Relation::Opcodes]);
    assert_eq!(
        OtherOpcode::AssertEq.interaction_relations(),
        [Relation::VerifyInstruction, Relation::MemoryAddressToId, Relation::Opcodes]
    );
    assert_eq!(
        OtherOpcode::AssertEqImm.interaction_relations(),
        [Relation::MemoryAddressToId, Relation::Opcodes, Relation::VerifyInstruction]
    );
}

#[test]
fn the_claimed_size_is_the_least_that_holds_full_packs() {
    for n in [1u32, 15, 16, 17, 32, 33, 100, 1025] {
        let gen = mul_opcode_small_cuda::CudaClaimGenerator::new(states(n));
        assert_eq!(gen.log_size(), n.next_power_of_two().max(16).ilog2());
    }
}

//! Tests of what the opcodes ask of the columns that their kernels wrote.

use crate::bits::{lemma_padded_log, lemma_padded_rows, padded_log, padded_rows, padded_size};
use crate::checks::{
    are_batches_of_table, are_groups_of_table, are_raw_carry_groups, are_table_groups,
    are_xor_batches, fit_on_top, have_a_column,
};
use crate::column::{columns, is_shape, BaseFieldVec};
use crate::components_cuda::opcodes::{
    blake_compress_opcode_cuda, generic_opcode_cuda, jump_opcode_cuda,
    jump_opcode_double_deref_cuda, mul_opcode_cuda, mul_opcode_small_cuda,
};
use crate::components_cuda::range_check::rc_18;
use crate::components_cuda::range_check::tables::{
    rc_11_ranges, rc_4_4_4_4_ranges, rc_7_2_5_ranges, rc_9_9_ranges,
};
use crate::components_cuda::verify_bitwise_xor::vbx_8;
use crate::inputs::StateInputs;
use crate::launch::{
    are_evaluations_of, columns_have_shape, groups, groups_have_shapes, InteractionOutcome,
    PendingInteraction, TraceBuffers,
};
use crate::opcodes_cuda::{
    accepts_all, accepts_blake, accepts_generic, accepts_jump, accepts_jump_double_deref,
    accepts_mul, accepts_mul_small, accepts_other, outcome_fits_blake, outcome_fits_generic,
    outcome_fits_jump, outcome_fits_jump_double_deref, outcome_fits_mul, outcome_fits_mul_small,
    outcome_fits_other, ready_blake, ready_generic, ready_jump, ready_jump_double_deref, ready_mul,
    ready_mul_small, ready_other, OpcodeFeeds, OpcodeInteractionOutcomes, OpcodeOutput,
    OpcodeOutputs, OpcodesCudaClaimGenerator, OpcodesCudaInteractionClaimGenerator, OtherOpcode,
};
use crate::tree_builder::MAX_LOG_SIZE;
use vstd::arithmetic::power2::pow2;
use vstd::prelude::*;

verus! {

/// Tells whether there are three columns with the length of a trace with so many rows.
fn are_state_columns(n_rows: usize, inputs: &Vec<BaseFieldVec>) -> (r: bool)
    ensures
        r == (n_rows <= 0x4000_0000 && is_shape(
            columns(inputs@),
            3,
            padded_rows(n_rows as nat),
        )),
{
    if n_rows > 0x4000_0000 {
        return false;
    }
    proof {
        lemma_padded_rows(n_rows as nat);
    }
    columns_have_shape(inputs, 3, padded_size(n_rows))
}

/// Tells whether the output of an opcode, whose buffers are laid out elsewhere, can be fed on.
pub fn can_feed_other(opcode: OtherOpcode, output: &OpcodeOutput) -> (r: bool)
    ensures
        r == accepts_other(opcode, *output),
{
    proof {
        reveal(accepts_other);
    }
    let rc_11: [u32; 1] = [11];
    let rc_18: [u32; 1] = [18];
    let rc_4_4_4_4: [u32; 4] = [4, 4, 4, 4];
    assert(rc_11@ =~= rc_11_ranges());
    assert(rc_18@ =~= rc_18::ranges());
    assert(rc_4_4_4_4@ =~= rc_4_4_4_4_ranges());
    let feeds_values = opcode != OtherOpcode::AssertEq && opcode != OtherOpcode::AssertEqImm;
    let bits_fit = if opcode == OtherOpcode::AddAp {
        are_batches_of_table(&rc_11, &output.range_check_11) && are_batches_of_table(
            &rc_18,
            &output.range_check_18,
        )
    } else {
        output.range_check_11.len() == 0 && output.range_check_18.len() == 0
            && output.host_range_check_11.len() == 0 && output.host_range_check_18.len() == 0
    };
    let limbs_fit = if opcode == OtherOpcode::Qm31 {
        are_batches_of_table(&rc_4_4_4_4, &output.range_check_4_4_4_4)
    } else {
        output.range_check_4_4_4_4.len() == 0 && output.host_range_check_4_4_4_4.len() == 0
    };
    are_evaluations_of(&output.trace, output.log_size) && have_a_column(&output.verify_instruction)
        && (feeds_values || output.host_memory_id_to_big.len() == 0) && bits_fit && limbs_fit
}

fn is_ready_other(
    opcode: OtherOpcode,
    gen: &Option<StateInputs>,
    output: &Option<OpcodeOutput>,
) -> (r: bool)
    ensures
        r == ready_other(opcode, *gen, *output),
{
    proof {
        reveal(ready_other);
    }
    match (gen, output) {
        (Some(_), Some(o)) => can_feed_other(opcode, o),
        (Some(_), None) => false,
        _ => true,
    }
}

/// Tells whether the buffers of the opcode can be fed on.
pub fn can_feed_blake(
    gen: &blake_compress_opcode_cuda::CudaClaimGenerator,
    buffers: &TraceBuffers,
    words: u32,
) -> (r: bool)
    ensures
        r == accepts_blake(*gen, *buffers, words),
{
    proof {
        reveal(accepts_blake);
    }
    if gen.n_rows == 0 || !are_state_columns(gen.n_rows, &gen.inputs) {
        return false;
    }
    proof {
        lemma_padded_log(gen.n_rows as nat);
    }
    let fits = buffers.check(
        blake_compress_opcode_cuda::N_TRACE_COLUMNS,
        &blake_compress_opcode_cuda::lookup_layout(),
        &blake_compress_opcode_cuda::sub_input_layout(),
        gen.log_size(),
    );
    proof {
        if fits {
            let gs = groups(buffers.sub_inputs@);
            let s = blake_compress_opcode_cuda::sub_input_shapes();
            assert(crate::launch::is_group(
                gs[6],
                s[6],
                pow2(padded_log(gen.n_rows as nat) as nat),
            ));
            assert forall|b: int| 0 <= b < gs[6].len() implies (#[trigger] gs[6][b]).len() > 0 by {
                assert(is_shape(gs[6][b], 3, pow2(padded_log(gen.n_rows as nat) as nat)));
            }
        }
    }
    if !fits {
        return false;
    }
    let rc_7_2_5: [u32; 3] = [7, 2, 5];
    assert(rc_7_2_5@ =~= rc_7_2_5_ranges());
    are_batches_of_table(&rc_7_2_5, &buffers.sub_inputs[3]) && are_xor_batches(
        vbx_8::N_BITS,
        &buffers.sub_inputs[4],
    ) && fit_on_top(words, &buffers.sub_inputs[6])
}

fn is_ready_blake(
    gen: &Option<blake_compress_opcode_cuda::CudaClaimGenerator>,
    output: &Option<TraceBuffers>,
    words: u32,
) -> (r: bool)
    ensures
        r == ready_blake(*gen, *output, words),
{
    proof {
        reveal(ready_blake);
    }
    match (gen, output) {
        (Some(g), Some(o)) => can_feed_blake(g, o, words),
        (Some(_), None) => false,
        _ => true,
    }
}

fn fits_blake(
    gen: &Option<blake_compress_opcode_cuda::CudaInteractionClaimGenerator>,
    outcome: &Option<InteractionOutcome>,
) -> (r: bool)
    ensures
        r == outcome_fits_blake(*gen, *outcome),
{
    proof {
        reveal(outcome_fits_blake);
    }
    match (gen, outcome) {
        (Some(g), Some(o)) => {
            if g.log_size == 0 || g.log_size > MAX_LOG_SIZE {
                return false;
            }
            let len = crate::bits::exp2(g.log_size);
            groups_have_shapes(
                &g.lookup_data,
                &blake_compress_opcode_cuda::lookup_layout(),
                len,
            ) && columns_have_shape(
                &o.columns,
                4 * blake_compress_opcode_cuda::N_INTERACTION_TRACE_COLUMNS,
                len,
            )
        },
        (Some(_), None) => false,
        _ => true,
    }
}

/// Tells whether the buffers of the opcode can be fed on.
pub fn can_feed_generic(
    gen: &generic_opcode_cuda::CudaClaimGenerator,
    buffers: &TraceBuffers,
) -> (r: bool)
    ensures
        r == accepts_generic(*gen, *buffers),
{
    proof {
        reveal(accepts_generic);
    }
    if gen.n_rows == 0 || !are_state_columns(gen.n_rows, &gen.inputs) {
        return false;
    }
    proof {
        lemma_padded_log(gen.n_rows as nat);
    }
    let fits = buffers.check(
        generic_opcode_cuda::CUDA_N_TRACE_COLUMNS,
        &generic_opcode_cuda::lookup_layout(),
        &generic_opcode_cuda::sub_input_layout(),
        gen.log_size(),
    );
    proof {
        let gs = groups(buffers.lookups@);
        if fits {
            let last = generic_opcode_cuda::LAST_CARRY_GROUP as int;
            assert(crate::launch::is_group(
                gs[last],
                generic_opcode_cuda::lookup_shapes()[last],
                pow2(padded_log(gen.n_rows as nat) as nat),
            ));
            assert(is_shape(gs[last][0], 1, pow2(padded_log(gen.n_rows as nat) as nat)));
            assert(gs[last] == crate::column::batches(buffers.lookups@[last]@));
            assert(gs[last][0] == columns(buffers.lookups@[last]@[0]@));
        }
    }
    if !fits {
        return false;
    }
    let rc_9_9: [u32; 2] = [9, 9];
    let rc_18: [u32; 1] = [18];
    let rc_11: [u32; 1] = [11];
    assert(rc_9_9@ =~= rc_9_9_ranges());
    assert(rc_18@ =~= rc_18::ranges());
    assert(rc_11@ =~= rc_11_ranges());
    let ghost gs = groups(buffers.lookups@);
    let pairs = are_table_groups(
        &rc_9_9,
        &buffers.lookups,
        generic_opcode_cuda::FIRST_PAIR_GROUP,
        8,
    );
    assert(gs.subrange(generic_opcode_cuda::FIRST_PAIR_GROUP as int, 11)
        == generic_opcode_cuda::pair_groups(gs));
    assert(pairs == are_groups_of_table(rc_9_9_ranges(), generic_opcode_cuda::pair_groups(gs)));
    assert(gs[generic_opcode_cuda::RC_18_GROUP as int] == crate::column::batches(
        buffers.lookups@[generic_opcode_cuda::RC_18_GROUP as int]@,
    ));
    assert(gs[generic_opcode_cuda::RC_11_GROUP as int] == crate::column::batches(
        buffers.lookups@[generic_opcode_cuda::RC_11_GROUP as int]@,
    ));
    pairs && are_raw_carry_groups(
        &buffers.lookups,
        generic_opcode_cuda::LAST_CARRY_GROUP,
        generic_opcode_cuda::FIRST_CARRY_GROUP,
    ) && are_batches_of_table(&rc_18, &buffers.lookups[generic_opcode_cuda::RC_18_GROUP])
        && are_batches_of_table(&rc_11, &buffers.lookups[generic_opcode_cuda::RC_11_GROUP])
}

fn is_ready_generic(
    gen: &Option<generic_opcode_cuda::CudaClaimGenerator>,
    output: &Option<TraceBuffers>,
) -> (r: bool)
    ensures
        r == ready_generic(*gen, *output),
{
    proof {
        reveal(ready_generic);
    }
    match (gen, output) {
        (Some(g), Some(o)) => can_feed_generic(g, o),
        (Some(_), None) => false,
        _ => true,
    }
}

fn fits_generic(
    gen: &Option<generic_opcode_cuda::CudaInteractionClaimGenerator>,
    outcome: &Option<InteractionOutcome>,
) -> (r: bool)
    ensures
        r == outcome_fits_generic(*gen, *outcome),
{
    proof {
        reveal(outcome_fits_generic);
    }
    match (gen, outcome) {
        (Some(g), Some(o)) => {
            if g.log_size == 0 || g.log_size > MAX_LOG_SIZE {
                return false;
            }
            let len = crate::bits::exp2(g.log_size);
            groups_have_shapes(
                &g.lookup_data,
                &generic_opcode_cuda::lookup_layout(),
                len,
            ) && columns_have_shape(
                &o.columns,
                4 * generic_opcode_cuda::N_INTERACTION_TRACE_COLUMNS,
                len,
            )
        },
        (Some(_), None) => false,
        _ => true,
    }
}

/// Tells whether the buffers of the opcode can be fed on.
pub fn can_feed_jump(
    gen: &jump_opcode_cuda::CudaClaimGenerator,
    buffers: &TraceBuffers,
) -> (r: bool)
    ensures
        r == accepts_jump(*gen, *buffers),
{
    proof {
        reveal(accepts_jump);
    }
    if !are_state_columns(gen.n_rows, &gen.inputs) {
        return false;
    }
    proof {
        lemma_padded_log(gen.n_rows as nat);
    }
    let fits = buffers.check(
        jump_opcode_cuda::N_TRACE_COLUMNS,
        &jump_opcode_cuda::lookup_layout(),
        &jump_opcode_cuda::sub_input_layout(),
        gen.log_size(),
    );
    fits
}

fn is_ready_jump(
    gen: &Option<jump_opcode_cuda::CudaClaimGenerator>,
    output: &Option<TraceBuffers>,
) -> (r: bool)
    ensures
        r == ready_jump(*gen, *output),
{
    proof {
        reveal(ready_jump);
    }
    match (gen, output) {
        (Some(g), Some(o)) => can_feed_jump(g, o),
        (Some(_), None) => false,
        _ => true,
    }
}

fn fits_jump(
    gen: &Option<jump_opcode_cuda::CudaInteractionClaimGenerator>,
    outcome: &Option<InteractionOutcome>,
) -> (r: bool)
    ensures
        r == outcome_fits_jump(*gen, *outcome),
{
    proof {
        reveal(outcome_fits_jump);
    }
    match (gen, outcome) {
        (Some(g), Some(o)) => {
            if g.log_size == 0 || g.log_size > MAX_LOG_SIZE {
                return false;
            }
            let len = crate::bits::exp2(g.log_size);
            groups_have_shapes(
                &g.lookup_data,
                &jump_opcode_cuda::lookup_layout(),
                len,
            ) && columns_have_shape(
                &o.columns,
                4 * jump_opcode_cuda::N_INTERACTION_TRACE_COLUMNS,
                len,
            )
        },
        (Some(_), None) => false,
        _ => true,
    }
}

/// Tells whether the buffers of the opcode can be fed on.
pub fn can_feed_jump_double_deref(
    gen: &jump_opcode_double_deref_cuda::CudaClaimGenerator,
    buffers: &TraceBuffers,
) -> (r: bool)
    ensures
        r == accepts_jump_double_deref(*gen, *buffers),
{
    proof {
        reveal(accepts_jump_double_deref);
    }
    if !are_state_columns(gen.n_rows, &gen.inputs) {
        return false;
    }
    proof {
        lemma_padded_log(gen.n_rows as nat);
    }
    let fits = buffers.check(
        jump_opcode_double_deref_cuda::N_TRACE_COLUMNS,
        &jump_opcode_double_deref_cuda::lookup_layout(),
        &jump_opcode_double_deref_cuda::sub_input_layout(),
        gen.log_size(),
    );
    fits
}

fn is_ready_jump_double_deref(
    gen: &Option<jump_opcode_double_deref_cuda::CudaClaimGenerator>,
    output: &Option<TraceBuffers>,
) -> (r: bool)
    ensures
        r == ready_jump_double_deref(*gen, *output),
{
    proof {
        reveal(ready_jump_double_deref);
    }
    match (gen, output) {
        (Some(g), Some(o)) => can_feed_jump_double_deref(g, o),
        (Some(_), None) => false,
        _ => true,
    }
}

fn fits_jump_double_deref(
    gen: &Option<jump_opcode_double_deref_cuda::CudaInteractionClaimGenerator>,
    outcome: &Option<InteractionOutcome>,
) -> (r: bool)
    ensures
        r == outcome_fits_jump_double_deref(*gen, *outcome),
{
    proof {
        reveal(outcome_fits_jump_double_deref);
    }
    match (gen, outcome) {
        (Some(g), Some(o)) => {
            if g.log_size == 0 || g.log_size > MAX_LOG_SIZE {
                return false;
            }
            let len = crate::bits::exp2(g.log_size);
            groups_have_shapes(
                &g.lookup_data,
                &jump_opcode_double_deref_cuda::lookup_layout(),
                len,
            ) && columns_have_shape(
                &o.columns,
                4 * jump_opcode_double_deref_cuda::N_INTERACTION_TRACE_COLUMNS,
                len,
            )
        },
        (Some(_), None) => false,
        _ => true,
    }
}

/// Tells whether the buffers of the opcode can be fed on.
pub fn can_feed_mul(
    gen: &mul_opcode_cuda::CudaClaimGenerator,
    buffers: &TraceBuffers,
) -> (r: bool)
    ensures
        r == accepts_mul(*gen, *buffers),
{
    proof {
        reveal(accepts_mul);
    }
    if gen.n_rows == 0 || !are_state_columns(gen.n_rows, &gen.inputs) {
        return false;
    }
    proof {
        lemma_padded_log(gen.n_rows as nat);
    }
    let fits = buffers.check(
        mul_opcode_cuda::N_TRACE_COLUMNS,
        &mul_opcode_cuda::lookup_layout(),
        &mul_opcode_cuda::sub_input_layout(),
        gen.log_size(),
    );
    proof {
        let gs = groups(buffers.lookups@);
        if fits {
            let last = mul_opcode_cuda::LAST_CARRY_GROUP as int;
            assert(crate::launch::is_group(
                gs[last],
                mul_opcode_cuda::lookup_shapes()[last],
                pow2(padded_log(gen.n_rows as nat) as nat),
            ));
            assert(is_shape(gs[last][0], 1, pow2(padded_log(gen.n_rows as nat) as nat)));
            assert(gs[last] == crate::column::batches(buffers.lookups@[last]@));
            assert(gs[last][0] == columns(buffers.lookups@[last]@[0]@));
        }
    }
    if !fits {
        return false;
    }
    are_raw_carry_groups(
        &buffers.lookups,
        mul_opcode_cuda::LAST_CARRY_GROUP,
        mul_opcode_cuda::FIRST_CARRY_GROUP,
    )
}

fn is_ready_mul(
    gen: &Option<mul_opcode_cuda::CudaClaimGenerator>,
    output: &Option<TraceBuffers>,
) -> (r: bool)
    ensures
        r == ready_mul(*gen, *output),
{
    proof {
        reveal(ready_mul);
    }
    match (gen, output) {
        (Some(g), Some(o)) => can_feed_mul(g, o),
        (Some(_), None) => false,
        _ => true,
    }
}

fn fits_mul(
    gen: &Option<mul_opcode_cuda::CudaInteractionClaimGenerator>,
    outcome: &Option<InteractionOutcome>,
) -> (r: bool)
    ensures
        r == outcome_fits_mul(*gen, *outcome),
{
    proof {
        reveal(outcome_fits_mul);
    }
    match (gen, outcome) {
        (Some(g), Some(o)) => {
            if g.log_size == 0 || g.log_size > MAX_LOG_SIZE {
                return false;
            }
            let len = crate::bits::exp2(g.log_size);
            groups_have_shapes(
                &g.lookup_data,
                &mul_opcode_cuda::lookup_layout(),
                len,
            ) && columns_have_shape(
                &o.columns,
                4 * mul_opcode_cuda::N_INTERACTION_TRACE_COLUMNS,
                len,
            )
        },
        (Some(_), None) => false,
        _ => true,
    }
}

/// Tells whether the buffers of the opcode can be fed on.
pub fn can_feed_mul_small(
    gen: &mul_opcode_small_cuda::CudaClaimGenerator,
    buffers: &TraceBuffers,
) -> (r: bool)
    ensures
        r == accepts_mul_small(*gen, *buffers),
{
    proof {
        reveal(accepts_mul_small);
    }
    if gen.n_rows == 0 || !are_state_columns(gen.n_rows, &gen.inputs) {
        return false;
    }
    proof {
        lemma_padded_log(gen.n_rows as nat);
    }
    let fits = buffers.check(
        mul_opcode_small_cuda::N_TRACE_COLUMNS,
        &mul_opcode_small_cuda::lookup_layout(),
        &mul_opcode_small_cuda::sub_input_layout(),
        gen.log_size(),
    );
    fits
}

fn is_ready_mul_small(
    gen: &Option<mul_opcode_small_cuda::CudaClaimGenerator>,
    output: &Option<TraceBuffers>,
) -> (r: bool)
    ensures
        r == ready_mul_small(*gen, *output),
{
    proof {
        reveal(ready_mul_small);
    }
    match (gen, output) {
        (Some(g), Some(o)) => can_feed_mul_small(g, o),
        (Some(_), None) => false,
        _ => true,
    }
}

fn fits_mul_small(
    gen: &Option<mul_opcode_small_cuda::CudaInteractionClaimGenerator>,
    outcome: &Option<InteractionOutcome>,
) -> (r: bool)
    ensures
        r == outcome_fits_mul_small(*gen, *outcome),
{
    proof {
        reveal(outcome_fits_mul_small);
    }
    match (gen, outcome) {
        (Some(g), Some(o)) => {
            if g.log_size == 0 || g.log_size > MAX_LOG_SIZE {
                return false;
            }
            let len = crate::bits::exp2(g.log_size);
            groups_have_shapes(
                &g.lookup_data,
                &mul_opcode_small_cuda::lookup_layout(),
                len,
            ) && columns_have_shape(
                &o.columns,
                4 * mul_opcode_small_cuda::N_INTERACTION_TRACE_COLUMNS,
                len,
            )
        },
        (Some(_), None) => false,
        _ => true,
    }
}

fn fits_other(gen: &Option<PendingInteraction>, outcome: &Option<InteractionOutcome>) -> (r: bool)
    ensures
        r == outcome_fits_other(*gen, *outcome),
{
    proof {
        reveal(outcome_fits_other);
    }
    match (gen, outcome) {
        (Some(g), Some(o)) => are_evaluations_of(&o.columns, g.log_size),
        (Some(_), None) => false,
        _ => true,
    }
}

impl OpcodesCudaClaimGenerator {
    /// Tells whether every opcode that the program used has an output that can be fed on.
    pub fn can_write_trace(&self, outputs: &OpcodeOutputs, feeds: &OpcodeFeeds) -> (r: bool)
        ensures
            r == accepts_all(*self, *outputs, *feeds),
    {
        is_ready_other(OtherOpcode::Add, &self.add, &outputs.add)
            && is_ready_other(OtherOpcode::AddSmall, &self.add_small, &outputs.add_small)
            && is_ready_other(OtherOpcode::AddAp, &self.add_ap, &outputs.add_ap)
            && is_ready_other(OtherOpcode::AssertEq, &self.assert_eq, &outputs.assert_eq)
            && is_ready_other(OtherOpcode::AssertEqImm, &self.assert_eq_imm, &outputs.assert_eq_imm)
            && is_ready_other(
            OtherOpcode::AssertEqDoubleDeref,
            &self.assert_eq_double_deref,
            &outputs.assert_eq_double_deref,
        )
            && is_ready_blake(
            &self.blake,
            &outputs.blake,
            feeds.triple_xor_32.inputs.size,
        )
            && is_ready_other(OtherOpcode::Call, &self.call, &outputs.call)
            && is_ready_other(OtherOpcode::CallRelImm, &self.call_rel_imm, &outputs.call_rel_imm)
            && is_ready_generic(&self.generic, &outputs.generic)
            && is_ready_other(OtherOpcode::Jnz, &self.jnz, &outputs.jnz)
            && is_ready_other(OtherOpcode::JnzTaken, &self.jnz_taken, &outputs.jnz_taken)
            && is_ready_jump(&self.jump, &outputs.jump)
            && is_ready_jump_double_deref(&self.jump_double_deref, &outputs.jump_double_deref)
            && is_ready_other(OtherOpcode::JumpRel, &self.jump_rel, &outputs.jump_rel)
            && is_ready_other(OtherOpcode::JumpRelImm, &self.jump_rel_imm, &outputs.jump_rel_imm)
            && is_ready_mul(&self.mul, &outputs.mul)
            && is_ready_mul_small(&self.mul_small, &outputs.mul_small)
            && is_ready_other(OtherOpcode::Qm31, &self.qm31, &outputs.qm31)
            && is_ready_other(OtherOpcode::Ret, &self.ret, &outputs.ret)
    }
}

impl OpcodesCudaInteractionClaimGenerator {
    /// Tells whether every opcode that the program used has an outcome that fits its trace.
    pub fn can_write_interaction_trace(&self, outcomes: &OpcodeInteractionOutcomes) -> (r: bool)
        ensures
            r == self.accepts(*outcomes),
    {
        fits_other(&self.add, &outcomes.add)
            && fits_other(&self.add_small, &outcomes.add_small)
            && fits_other(&self.add_ap, &outcomes.add_ap)
            && fits_other(&self.assert_eq, &outcomes.assert_eq)
            && fits_other(&self.assert_eq_imm, &outcomes.assert_eq_imm)
            && fits_other(&self.assert_eq_double_deref, &outcomes.assert_eq_double_deref)
            && fits_blake(&self.blake, &outcomes.blake)
            && fits_other(&self.call, &outcomes.call)
            && fits_other(&self.call_rel_imm, &outcomes.call_rel_imm)
            && fits_generic(&self.generic, &outcomes.generic)
            && fits_other(&self.jnz, &outcomes.jnz)
            && fits_other(&self.jnz_taken, &outcomes.jnz_taken)
            && fits_jump(&self.jump, &outcomes.jump)
            && fits_jump_double_deref(&self.jump_double_deref, &outcomes.jump_double_deref)
            && fits_other(&self.jump_rel, &outcomes.jump_rel)
            && fits_other(&self.jump_rel_imm, &outcomes.jump_rel_imm)
            && fits_mul(&self.mul, &outcomes.mul)
            && fits_mul_small(&self.mul_small, &outcomes.mul_small)
            && fits_other(&self.qm31, &outcomes.qm31)
            && fits_other(&self.ret, &outcomes.ret)
    }
}

} // verus!

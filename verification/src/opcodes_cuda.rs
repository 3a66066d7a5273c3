//! The opcodes: which of them a program used, and how their traces are committed and feed the other
//! components, one opcode after the other.

use crate::bits::{law_padded_size_is_the_least, padded_log, N_LANES};
use crate::column::{batches, columns, is_canonical, is_shape, BaseFieldVec};
use crate::components_cuda::opcodes::carries::{are_carries, normalized, table_inputs};
use crate::components_cuda::opcodes::{
    blake_compress_opcode_cuda, generic_opcode_cuda, jump_opcode_cuda,
    jump_opcode_double_deref_cuda, mul_opcode_cuda, mul_opcode_small_cuda,
};
use crate::components_cuda::range_check::base::{
    all_occurrences, are_all_inputs, counted, fed_relation, fed_relations, lemma_wrapped_twice,
};
use crate::components_cuda::range_check::tables::{
    rc_11_ranges, rc_4_4_4_4_ranges, rc_7_2_5_ranges, rc_9_9_ranges,
};
use crate::components_cuda::range_check::{rc_18, rc_20};
use crate::components_cuda::triple_xor_32_cuda;
use crate::components_cuda::verify_bitwise_xor::base::{are_xor_inputs, pair_ranges, pairs};
use crate::components_cuda::verify_bitwise_xor::vbx_8;
use crate::components_cuda::verify_instruction_cuda::{
    counted_lookups, fields, instruction_rows, law_lookups_are_counted_by_place, lookups_of,
    InstructionInput,
};
use crate::components_cuda::verify_instruction_cuda;
use crate::inputs::{first_columns, CasmState, ComponentInputs, StateInputs};
use crate::launch::{
    groups, law_words_are_coordinates, secure_of, Claim, InteractionClaim, InteractionOutcome,
    PendingInteraction, TraceBuffers,
};
use crate::range_checks_cuda::RangeChecksCudaClaimGenerator;
use crate::tree_builder::{are_evaluations, committed, Committed, TreeBuilder};
use vstd::arithmetic::power2::pow2;
use vstd::prelude::*;

verus! {

/// The states of a program, by the opcode of the step that follows.
pub struct CasmStatesByOpcode {
    pub add_opcode: Vec<CasmState>,
    pub add_opcode_small: Vec<CasmState>,
    pub add_ap_opcode: Vec<CasmState>,
    pub assert_eq_opcode: Vec<CasmState>,
    pub assert_eq_opcode_imm: Vec<CasmState>,
    pub assert_eq_opcode_double_deref: Vec<CasmState>,
    pub blake_compress_opcode: Vec<CasmState>,
    pub call_opcode: Vec<CasmState>,
    pub call_opcode_rel_imm: Vec<CasmState>,
    pub generic_opcode: Vec<CasmState>,
    pub jnz_opcode: Vec<CasmState>,
    pub jnz_opcode_taken: Vec<CasmState>,
    pub jump_opcode: Vec<CasmState>,
    pub jump_opcode_double_deref: Vec<CasmState>,
    pub jump_opcode_rel: Vec<CasmState>,
    pub jump_opcode_rel_imm: Vec<CasmState>,
    pub mul_opcode: Vec<CasmState>,
    pub mul_opcode_small: Vec<CasmState>,
    pub qm_31_add_mul_opcode: Vec<CasmState>,
    pub ret_opcode: Vec<CasmState>,
}

impl CasmStatesByOpcode {
    /// No opcode has more states than a trace has rows.
    pub open spec fn wf(self) -> bool {
        &&& self.add_opcode@.len() <= 0x4000_0000
        &&& self.add_opcode_small@.len() <= 0x4000_0000
        &&& self.add_ap_opcode@.len() <= 0x4000_0000
        &&& self.assert_eq_opcode@.len() <= 0x4000_0000
        &&& self.assert_eq_opcode_imm@.len() <= 0x4000_0000
        &&& self.assert_eq_opcode_double_deref@.len() <= 0x4000_0000
        &&& self.blake_compress_opcode@.len() <= 0x4000_0000
        &&& self.call_opcode@.len() <= 0x4000_0000
        &&& self.call_opcode_rel_imm@.len() <= 0x4000_0000
        &&& self.generic_opcode@.len() <= 0x4000_0000
        &&& self.jnz_opcode@.len() <= 0x4000_0000
        &&& self.jnz_opcode_taken@.len() <= 0x4000_0000
        &&& self.jump_opcode@.len() <= 0x4000_0000
        &&& self.jump_opcode_double_deref@.len() <= 0x4000_0000
        &&& self.jump_opcode_rel@.len() <= 0x4000_0000
        &&& self.jump_opcode_rel_imm@.len() <= 0x4000_0000
        &&& self.mul_opcode@.len() <= 0x4000_0000
        &&& self.mul_opcode_small@.len() <= 0x4000_0000
        &&& self.qm_31_add_mul_opcode@.len() <= 0x4000_0000
        &&& self.ret_opcode@.len() <= 0x4000_0000
    }
}

/// The opcodes that a program used, each with its states.
pub struct OpcodesCudaClaimGenerator {
    pub add: Option<StateInputs>,
    pub add_small: Option<StateInputs>,
    pub add_ap: Option<StateInputs>,
    pub assert_eq: Option<StateInputs>,
    pub assert_eq_imm: Option<StateInputs>,
    pub assert_eq_double_deref: Option<StateInputs>,
    pub blake: Option<blake_compress_opcode_cuda::CudaClaimGenerator>,
    pub call: Option<StateInputs>,
    pub call_rel_imm: Option<StateInputs>,
    pub generic: Option<generic_opcode_cuda::CudaClaimGenerator>,
    pub jnz: Option<StateInputs>,
    pub jnz_taken: Option<StateInputs>,
    pub jump: Option<jump_opcode_cuda::CudaClaimGenerator>,
    pub jump_double_deref: Option<jump_opcode_double_deref_cuda::CudaClaimGenerator>,
    pub jump_rel: Option<StateInputs>,
    pub jump_rel_imm: Option<StateInputs>,
    pub mul: Option<mul_opcode_cuda::CudaClaimGenerator>,
    pub mul_small: Option<mul_opcode_small_cuda::CudaClaimGenerator>,
    pub qm31: Option<StateInputs>,
    pub ret: Option<StateInputs>,
}

/// The opcodes whose buffers are laid out elsewhere.
#[derive(Clone, Copy, Debug, PartialEq, Eq, Structural)]
pub enum OtherOpcode {
    Add,
    AddSmall,
    AddAp,
    AssertEq,
    AssertEqImm,
    AssertEqDoubleDeref,
    Call,
    CallRelImm,
    Jnz,
    JnzTaken,
    JumpRel,
    JumpRelImm,
    Qm31,
    Ret,
}

/// A relation whose elements an interaction kernel is handed.
#[derive(Clone, Copy, Debug, PartialEq, Eq, Structural)]
pub enum Relation {
    VerifyInstruction,
    MemoryAddressToId,
    MemoryIdToValue,
    RangeCheck18,
    RangeCheck11,
    RangeCheck4444,
    Opcodes,
}

impl OtherOpcode {
    /// The relations whose elements the interaction kernel of the opcode is handed, in their order.
    pub open spec fn relations(self) -> Seq<Relation> {
        match self {
            OtherOpcode::AddSmall | OtherOpcode::AssertEqDoubleDeref => seq![
                Relation::MemoryAddressToId,
                Relation::MemoryIdToValue,
                Relation::Opcodes,
                Relation::VerifyInstruction,
            ],
            OtherOpcode::AddAp => seq![
                Relation::VerifyInstruction,
                Relation::MemoryAddressToId,
                Relation::MemoryIdToValue,
                Relation::RangeCheck18,
                Relation::RangeCheck11,
                Relation::Opcodes,
            ],
            OtherOpcode::AssertEq => seq![
                Relation::VerifyInstruction,
                Relation::MemoryAddressToId,
                Relation::Opcodes,
            ],
            OtherOpcode::AssertEqImm => seq![
                Relation::MemoryAddressToId,
                Relation::Opcodes,
                Relation::VerifyInstruction,
            ],
            OtherOpcode::Qm31 => seq![
                Relation::VerifyInstruction,
                Relation::MemoryAddressToId,
                Relation::MemoryIdToValue,
                Relation::RangeCheck4444,
                Relation::Opcodes,
            ],
            _ => seq![
                Relation::VerifyInstruction,
                Relation::MemoryAddressToId,
                Relation::MemoryIdToValue,
                Relation::Opcodes,
            ],
        }
    }

    /// The opcode is handed the values of the host's memory: it is not a plain assertion that two
    /// cells, or a cell and an immediate, are equal.
    pub open spec fn is_handed_host_values(self) -> bool {
        self != OtherOpcode::AssertEq && self != OtherOpcode::AssertEqImm
    }

    /// Returns the relations whose elements the interaction kernel of the opcode is handed.
    pub fn interaction_relations(self) -> (r: Vec<Relation>)
        ensures
            r@ == self.relations(),
    {
        let relations = match self {
            OtherOpcode::AddSmall | OtherOpcode::AssertEqDoubleDeref => vec![
                Relation::MemoryAddressToId,
                Relation::MemoryIdToValue,
                Relation::Opcodes,
                Relation::VerifyInstruction,
            ],
            OtherOpcode::AddAp => vec![
                Relation::VerifyInstruction,
                Relation::MemoryAddressToId,
                Relation::MemoryIdToValue,
                Relation::RangeCheck18,
                Relation::RangeCheck11,
                Relation::Opcodes,
            ],
            OtherOpcode::AssertEq => vec![
                Relation::VerifyInstruction,
                Relation::MemoryAddressToId,
                Relation::Opcodes,
            ],
            OtherOpcode::AssertEqImm => vec![
                Relation::MemoryAddressToId,
                Relation::Opcodes,
                Relation::VerifyInstruction,
            ],
            OtherOpcode::Qm31 => vec![
                Relation::VerifyInstruction,
                Relation::MemoryAddressToId,
                Relation::MemoryIdToValue,
                Relation::RangeCheck4444,
                Relation::Opcodes,
            ],
            _ => vec![
                Relation::VerifyInstruction,
                Relation::MemoryAddressToId,
                Relation::MemoryIdToValue,
                Relation::Opcodes,
            ],
        };
        assert(relations@ =~= self.relations());
        relations
    }
}

/// What other components are fed with by the opcodes, and what host components are.
pub struct OpcodeFeeds {
    pub memory_address_to_id: ComponentInputs,
    pub memory_id_to_big: ComponentInputs,
    pub verify_instruction: verify_instruction_cuda::CudaClaimGenerator,
    pub range_checks: RangeChecksCudaClaimGenerator,
    pub verify_bitwise_xor_8: vbx_8::CudaClaimGenerator,
    pub blake_round: ComponentInputs,
    pub triple_xor_32: triple_xor_32_cuda::CudaClaimGenerator,
    pub host_memory_address_to_id: Vec<u32>,
    pub host_memory_id_to_big: Vec<u32>,
    pub host_verify_instruction: Vec<InstructionInput>,
    pub host_range_check_11: Vec<u32>,
    pub host_range_check_18: Vec<u32>,
    pub host_range_check_4_4_4_4: Vec<[u32; 4]>,
}

impl OpcodeFeeds {
    /// The components that count hold their counters.
    #[verifier::opaque]
    pub open spec fn wf(self) -> bool {
        &&& self.verify_instruction.wf()
        &&& self.range_checks.wf()
        &&& self.verify_bitwise_xor_8.wf()
        &&& self.triple_xor_32.wf()
    }
}

/// What the trace kernel of an opcode wrote whose buffers are laid out elsewhere, and what the host
/// components are fed with. The number of rows is the kernel's own choice: it is the logarithm that
/// comes with the columns, not one computed from the states.
pub struct OpcodeOutput {
    pub log_size: u32,
    pub trace: Vec<BaseFieldVec>,
    pub lookup_data: Vec<Vec<Vec<BaseFieldVec>>>,
    pub verify_instruction: Vec<Vec<BaseFieldVec>>,
    pub memory_address_to_id: Vec<Vec<BaseFieldVec>>,
    pub memory_id_to_big: Vec<Vec<BaseFieldVec>>,
    pub range_check_11: Vec<Vec<BaseFieldVec>>,
    pub range_check_18: Vec<Vec<BaseFieldVec>>,
    pub range_check_4_4_4_4: Vec<Vec<BaseFieldVec>>,
    pub host_memory_address_to_id: Vec<u32>,
    pub host_memory_id_to_big: Vec<u32>,
    pub host_verify_instruction: Vec<InstructionInput>,
    pub host_range_check_11: Vec<u32>,
    pub host_range_check_18: Vec<u32>,
    pub host_range_check_4_4_4_4: Vec<[u32; 4]>,
}

/// What the trace kernels of all opcodes wrote.
pub struct OpcodeOutputs {
    pub add: Option<OpcodeOutput>,
    pub add_small: Option<OpcodeOutput>,
    pub add_ap: Option<OpcodeOutput>,
    pub assert_eq: Option<OpcodeOutput>,
    pub assert_eq_imm: Option<OpcodeOutput>,
    pub assert_eq_double_deref: Option<OpcodeOutput>,
    pub blake: Option<TraceBuffers>,
    pub call: Option<OpcodeOutput>,
    pub call_rel_imm: Option<OpcodeOutput>,
    pub generic: Option<TraceBuffers>,
    pub jnz: Option<OpcodeOutput>,
    pub jnz_taken: Option<OpcodeOutput>,
    pub jump: Option<TraceBuffers>,
    pub jump_double_deref: Option<TraceBuffers>,
    pub jump_rel: Option<OpcodeOutput>,
    pub jump_rel_imm: Option<OpcodeOutput>,
    pub mul: Option<TraceBuffers>,
    pub mul_small: Option<TraceBuffers>,
    pub qm31: Option<OpcodeOutput>,
    pub ret: Option<OpcodeOutput>,
}

/// The claims of the opcodes that the program used.
#[derive(Clone, Copy, Debug)]
pub struct OpcodeClaim {
    pub add: Option<Claim>,
    pub add_small: Option<Claim>,
    pub add_ap: Option<Claim>,
    pub assert_eq: Option<Claim>,
    pub assert_eq_imm: Option<Claim>,
    pub assert_eq_double_deref: Option<Claim>,
    pub blake: Option<Claim>,
    pub call: Option<Claim>,
    pub call_rel_imm: Option<Claim>,
    pub generic: Option<Claim>,
    pub jnz: Option<Claim>,
    pub jnz_taken: Option<Claim>,
    pub jump: Option<Claim>,
    pub jump_double_deref: Option<Claim>,
    pub jump_rel: Option<Claim>,
    pub jump_rel_imm: Option<Claim>,
    pub mul: Option<Claim>,
    pub mul_small: Option<Claim>,
    pub qm31: Option<Claim>,
    pub ret: Option<Claim>,
}

/// Instructions, addresses and identifiers were fed on.
pub open spec fn fed_memory(
    before: OpcodeFeeds,
    after: OpcodeFeeds,
    instructions: Seq<Seq<Seq<u32>>>,
    addresses: Seq<Seq<Seq<u32>>>,
    ids: Seq<Seq<Seq<u32>>>,
) -> bool {
    &&& after.verify_instruction@ == counted_lookups(
        before.verify_instruction@,
        |pc: u32| lookups_of(instructions, pc) as int,
    )
    &&& after.memory_address_to_id@ == before.memory_address_to_id@ + addresses
    &&& after.memory_id_to_big@ == before.memory_id_to_big@ + ids
}

/// The host components were fed on with the same.
pub open spec fn fed_host(
    before: OpcodeFeeds,
    after: OpcodeFeeds,
    instructions: Seq<Seq<Seq<u32>>>,
    addresses: Seq<Seq<Seq<u32>>>,
    ids: Seq<Seq<Seq<u32>>>,
) -> bool {
    &&& after.host_memory_address_to_id@ == before.host_memory_address_to_id@ + first_columns(
        addresses,
    )
    &&& after.host_memory_id_to_big@ == before.host_memory_id_to_big@ + first_columns(ids)
    &&& after.host_verify_instruction@.map_values(|x: InstructionInput| fields(x))
        == before.host_verify_instruction@.map_values(|x: InstructionInput| fields(x))
        + instruction_rows(instructions)
}

/// Only the components that every opcode feeds may differ.
pub open spec fn same_but_memory(before: OpcodeFeeds, after: OpcodeFeeds) -> bool {
    after == (OpcodeFeeds {
        memory_address_to_id: after.memory_address_to_id,
        memory_id_to_big: after.memory_id_to_big,
        verify_instruction: after.verify_instruction,
        ..before
    })
}

/// Only the components that every opcode feeds and the host components may differ.
pub open spec fn same_but_host(before: OpcodeFeeds, after: OpcodeFeeds) -> bool {
    after == (OpcodeFeeds {
        memory_address_to_id: after.memory_address_to_id,
        memory_id_to_big: after.memory_id_to_big,
        verify_instruction: after.verify_instruction,
        host_memory_address_to_id: after.host_memory_address_to_id,
        host_memory_id_to_big: after.host_memory_id_to_big,
        host_verify_instruction: after.host_verify_instruction,
        host_range_check_11: after.host_range_check_11,
        ..before
    })
}

/// Only the components that every opcode feeds and the range checks may differ.
pub open spec fn same_but_range_checks(before: OpcodeFeeds, after: OpcodeFeeds) -> bool {
    after == (OpcodeFeeds {
        memory_address_to_id: after.memory_address_to_id,
        memory_id_to_big: after.memory_id_to_big,
        verify_instruction: after.verify_instruction,
        range_checks: after.range_checks,
        ..before
    })
}

/// Only the components that an opcode, whose buffers are laid out elsewhere, may be handed may
/// differ.
pub open spec fn same_but_other(before: OpcodeFeeds, after: OpcodeFeeds) -> bool {
    after == (OpcodeFeeds {
        memory_address_to_id: after.memory_address_to_id,
        memory_id_to_big: after.memory_id_to_big,
        verify_instruction: after.verify_instruction,
        range_checks: after.range_checks,
        host_memory_address_to_id: after.host_memory_address_to_id,
        host_memory_id_to_big: after.host_memory_id_to_big,
        host_verify_instruction: after.host_verify_instruction,
        host_range_check_11: after.host_range_check_11,
        host_range_check_18: after.host_range_check_18,
        host_range_check_4_4_4_4: after.host_range_check_4_4_4_4,
        ..before
    })
}

/// The output can be fed on: it feeds no component that the opcode is not handed.
#[verifier::opaque]
pub open spec fn accepts_other(opcode: OtherOpcode, output: OpcodeOutput) -> bool {
    &&& are_evaluations(columns(output.trace@), output.log_size)
    &&& forall|b: int|
        0 <= b < output.verify_instruction@.len() ==> (#[trigger] batches(
            output.verify_instruction@,
        )[b]).len() > 0
    &&& opcode.is_handed_host_values() || output.host_memory_id_to_big@.len() == 0
    &&& if opcode == OtherOpcode::AddAp {
        &&& are_all_inputs(rc_11_ranges(), batches(output.range_check_11@))
        &&& are_all_inputs(rc_18::ranges(), batches(output.range_check_18@))
    } else {
        &&& output.range_check_11@.len() == 0
        &&& output.range_check_18@.len() == 0
        &&& output.host_range_check_11@.len() == 0
        &&& output.host_range_check_18@.len() == 0
    }
    &&& if opcode == OtherOpcode::Qm31 {
        are_all_inputs(rc_4_4_4_4_ranges(), batches(output.range_check_4_4_4_4@))
    } else {
        &&& output.range_check_4_4_4_4@.len() == 0
        &&& output.host_range_check_4_4_4_4@.len() == 0
    }
}

/// The memory and the instructions of the host after the output was fed on.
pub open spec fn fed_host_by_other(
    opcode: OtherOpcode,
    output: OpcodeOutput,
    before: OpcodeFeeds,
    after: OpcodeFeeds,
) -> bool {
    &&& after.host_memory_address_to_id@ == before.host_memory_address_to_id@
        + output.host_memory_address_to_id@
    &&& after.host_verify_instruction@ == before.host_verify_instruction@
        + output.host_verify_instruction@
    &&& if opcode.is_handed_host_values() {
        after.host_memory_id_to_big@ == before.host_memory_id_to_big@
            + output.host_memory_id_to_big@
    } else {
        after.host_memory_id_to_big == before.host_memory_id_to_big
    }
}

/// The tables after the output was fed on: the addition to `ap` feeds those of 11 and of 18 bits,
/// the arithmetic of the extension field that of four times four bits, and no other opcode feeds
/// one.
pub open spec fn fed_tables_by_other(
    opcode: OtherOpcode,
    output: OpcodeOutput,
    before: OpcodeFeeds,
    after: OpcodeFeeds,
) -> bool {
    &&& if opcode == OtherOpcode::AddAp {
        &&& after.range_checks == (RangeChecksCudaClaimGenerator {
            rc_11_trace_generator: after.range_checks.rc_11_trace_generator,
            rc_18_trace_generator: after.range_checks.rc_18_trace_generator,
            ..before.range_checks
        })
        &&& after.range_checks.rc_11_trace_generator.multiplicities@ == counted(
            before.range_checks.rc_11_trace_generator.multiplicities@,
            |i: int|
                all_occurrences(rc_11_ranges(), batches(output.range_check_11@), i) as int,
        )
        &&& after.range_checks.rc_18_trace_generator.counters() == fed_relation(
            before.range_checks.rc_18_trace_generator.counters(),
            rc_18::ranges(),
            batches(output.range_check_18@),
            0,
        )
        &&& after.host_range_check_11@ == before.host_range_check_11@ + output.host_range_check_11@
        &&& after.host_range_check_18@ == before.host_range_check_18@ + output.host_range_check_18@
    } else {
        &&& after.host_range_check_11 == before.host_range_check_11
        &&& after.host_range_check_18 == before.host_range_check_18
    }
    &&& if opcode == OtherOpcode::Qm31 {
        &&& after.range_checks == (RangeChecksCudaClaimGenerator {
            rc_4_4_4_4_trace_generator: after.range_checks.rc_4_4_4_4_trace_generator,
            ..before.range_checks
        })
        &&& after.range_checks.rc_4_4_4_4_trace_generator.multiplicities@ == counted(
            before.range_checks.rc_4_4_4_4_trace_generator.multiplicities@,
            |i: int|
                all_occurrences(
                    rc_4_4_4_4_ranges(),
                    batches(output.range_check_4_4_4_4@),
                    i,
                ) as int,
        )
        &&& after.host_range_check_4_4_4_4@ == before.host_range_check_4_4_4_4@
            + output.host_range_check_4_4_4_4@
    } else {
        after.host_range_check_4_4_4_4 == before.host_range_check_4_4_4_4
    }
    &&& opcode != OtherOpcode::AddAp && opcode != OtherOpcode::Qm31 ==> after.range_checks
        == before.range_checks
}

/// The components after the output was fed on.
#[verifier::opaque]
pub open spec fn fed_by_other(
    opcode: OtherOpcode,
    output: OpcodeOutput,
    before: OpcodeFeeds,
    after: OpcodeFeeds,
) -> bool {
    &&& same_but_other(before, after)
    &&& fed_memory(
        before,
        after,
        batches(output.verify_instruction@),
        batches(output.memory_address_to_id@),
        batches(output.memory_id_to_big@),
    )
    &&& fed_host_by_other(opcode, output, before, after)
    &&& fed_tables_by_other(opcode, output, before, after)
}

/// The buffers fit the opcode's states and can be fed on.
#[verifier::opaque]
pub open spec fn accepts_blake(
    gen: blake_compress_opcode_cuda::CudaClaimGenerator,
    buffers: TraceBuffers,
    words: u32,
) -> bool {
    &&& gen.wf()
    &&& buffers.fit(
        blake_compress_opcode_cuda::N_TRACE_COLUMNS as nat,
        blake_compress_opcode_cuda::lookup_shapes(),
        blake_compress_opcode_cuda::sub_input_shapes(),
        padded_log(gen.n_rows as nat),
    )
    &&& are_all_inputs(rc_7_2_5_ranges(), groups(buffers.sub_inputs@)[3])
    &&& are_xor_inputs(vbx_8::N_BITS, groups(buffers.sub_inputs@)[4])
    &&& words + triple_xor_32_cuda::total_rows(
        groups(buffers.sub_inputs@)[6],
    ) <= u32::MAX
}

/// The components after the buffers were fed on.
#[verifier::opaque]
pub open spec fn fed_by_blake(
    buffers: TraceBuffers,
    before: OpcodeFeeds,
    after: OpcodeFeeds,
) -> bool {
    &&& after == (OpcodeFeeds {
        memory_address_to_id: after.memory_address_to_id,
        memory_id_to_big: after.memory_id_to_big,
        verify_instruction: after.verify_instruction,
        range_checks: after.range_checks,
        verify_bitwise_xor_8: after.verify_bitwise_xor_8,
        blake_round: after.blake_round,
        triple_xor_32: after.triple_xor_32,
        ..before
    })
    &&& fed_memory(
        before,
        after,
        groups(buffers.sub_inputs@)[0],
        groups(buffers.sub_inputs@)[1],
        groups(buffers.sub_inputs@)[2],
    )
    &&& after.range_checks == (RangeChecksCudaClaimGenerator {
        rc_7_2_5_trace_generator: after.range_checks.rc_7_2_5_trace_generator,
        ..before.range_checks
    })
    &&& after.range_checks.rc_7_2_5_trace_generator.multiplicities@ == counted(
        before.range_checks.rc_7_2_5_trace_generator.multiplicities@,
        |i: int|
            all_occurrences(rc_7_2_5_ranges(), groups(buffers.sub_inputs@)[3], i) as int,
    )
    &&& after.verify_bitwise_xor_8.0.multiplicities@ == counted(
        before.verify_bitwise_xor_8.0.multiplicities@,
        |i: int|
            all_occurrences(
                pair_ranges(vbx_8::N_BITS),
                pairs(groups(buffers.sub_inputs@)[4]),
                i,
            ) as int,
    )
    &&& after.blake_round@ == before.blake_round@ + groups(buffers.sub_inputs@)[5]
    &&& columns(after.triple_xor_32.inputs.columns@) == triple_xor_32_cuda::fed_batches(
        columns(before.triple_xor_32.inputs.columns@),
        groups(buffers.sub_inputs@)[6],
    )
}

/// The columns that the opcode commits.
#[verifier::opaque]
pub open spec fn commits_of_blake(
    gen: Option<blake_compress_opcode_cuda::CudaClaimGenerator>,
    output: Option<TraceBuffers>,
) -> Seq<Committed> {
    match (gen, output) {
        (Some(g), Some(o)) => committed(
            padded_log(g.n_rows as nat),
            columns(o.trace@),
        ),
        _ => Seq::empty(),
    }
}

/// What becomes of the components: they are fed if the program used the opcode.
#[verifier::opaque]
pub open spec fn step_blake(
    gen: Option<blake_compress_opcode_cuda::CudaClaimGenerator>,
    output: Option<TraceBuffers>,
    before: OpcodeFeeds,
    after: OpcodeFeeds,
) -> bool {
    match (gen, output) {
        (Some(_), Some(o)) => fed_by_blake(o, before, after),
        _ => after == before,
    }
}

/// The opcode has an output that can be fed on, if the program used it.
#[verifier::opaque]
pub open spec fn ready_blake(
    gen: Option<blake_compress_opcode_cuda::CudaClaimGenerator>,
    output: Option<TraceBuffers>,
    words: u32,
) -> bool {
    gen matches Some(g) ==> (output matches Some(o) && accepts_blake(g, o, words))
}

/// The claim, and what the interaction trace is written from, if the program used the opcode.
#[verifier::opaque]
pub open spec fn written_blake(
    gen: Option<blake_compress_opcode_cuda::CudaClaimGenerator>,
    output: Option<TraceBuffers>,
    claim: Option<Claim>,
    interaction: Option<blake_compress_opcode_cuda::CudaInteractionClaimGenerator>,
) -> bool {
    match gen {
        Some(g) => output matches Some(o) && claim matches Some(c) && interaction matches Some(i)
            && {
            &&& c.log_size == padded_log(g.n_rows as nat)
            &&& i.wf()
            &&& i.log_size == c.log_size
            &&& i.n_rows == g.n_rows
            &&& groups(i.lookup_data@) == groups(o.lookups@)
        },
        None => claim is None && interaction is None,
    }
}

fn write_blake(
    gen: Option<blake_compress_opcode_cuda::CudaClaimGenerator>,
    output: Option<TraceBuffers>,
    tree_builder: &mut TreeBuilder,
    feeds: &mut OpcodeFeeds,
) -> (r: (Option<Claim>, Option<blake_compress_opcode_cuda::CudaInteractionClaimGenerator>))
    requires
        ready_blake(gen, output, old(feeds).triple_xor_32.inputs.size),
        old(feeds).wf(),
    ensures
        final(feeds).wf(),
        step_blake(gen, output, *old(feeds), *final(feeds)),
        final(tree_builder)@ == old(tree_builder)@ + commits_of_blake(gen, output),
        written_blake(gen, output, r.0, r.1),
{
    proof {
        reveal(OpcodeFeeds::wf);
        reveal(accepts_blake);
        reveal(fed_by_blake);
        reveal(commits_of_blake);
        reveal(step_blake);
        reveal(ready_blake);
        reveal(written_blake);
    }
    match gen {
        Some(g) => {
            let (claim, interaction) = g.write_trace(
                output.unwrap(),
                tree_builder,
                &mut feeds.memory_address_to_id,
                &mut feeds.memory_id_to_big,
                &mut feeds.verify_instruction,
                &mut feeds.range_checks.rc_7_2_5_trace_generator,
                &mut feeds.triple_xor_32,
                &mut feeds.verify_bitwise_xor_8,
                &mut feeds.blake_round,
            );
            (Some(claim), Some(interaction))
        },
        None => (None, None),
    }
}

/// The buffers fit the opcode's states and can be fed on.
#[verifier::opaque]
pub open spec fn accepts_generic(
    gen: generic_opcode_cuda::CudaClaimGenerator,
    buffers: TraceBuffers,
) -> bool {
    &&& gen.wf()
    &&& buffers.fit(
        generic_opcode_cuda::CUDA_N_TRACE_COLUMNS as nat,
        generic_opcode_cuda::lookup_shapes(),
        generic_opcode_cuda::sub_input_shapes(),
        padded_log(gen.n_rows as nat),
    )
    &&& forall|r: int|
        0 <= r < 8 ==> are_all_inputs(
            rc_9_9_ranges(),
            #[trigger] generic_opcode_cuda::pair_groups(groups(buffers.lookups@))[r],
        )
    &&& is_canonical(
        groups(buffers.lookups@)[generic_opcode_cuda::LAST_CARRY_GROUP as int][0][0],
    )
    &&& are_carries(
        normalized(groups(buffers.lookups@), generic_opcode_cuda::LAST_CARRY_GROUP as int),
        generic_opcode_cuda::FIRST_CARRY_GROUP as int,
    )
    &&& are_all_inputs(
        rc_18::ranges(),
        groups(buffers.lookups@)[generic_opcode_cuda::RC_18_GROUP as int],
    )
    &&& are_all_inputs(
        rc_11_ranges(),
        groups(buffers.lookups@)[generic_opcode_cuda::RC_11_GROUP as int],
    )
}

/// The components after the buffers were fed on.
#[verifier::opaque]
pub open spec fn fed_by_generic(
    buffers: TraceBuffers,
    before: OpcodeFeeds,
    after: OpcodeFeeds,
) -> bool {
    &&& same_but_range_checks(before, after)
    &&& fed_memory(
        before,
        after,
        groups(buffers.sub_inputs@)[0],
        groups(buffers.sub_inputs@)[1],
        groups(buffers.sub_inputs@)[2],
    )
    &&& after.range_checks == (RangeChecksCudaClaimGenerator {
        rc_9_9_trace_generator: after.range_checks.rc_9_9_trace_generator,
        rc_20_trace_generator: after.range_checks.rc_20_trace_generator,
        rc_18_trace_generator: after.range_checks.rc_18_trace_generator,
        rc_11_trace_generator: after.range_checks.rc_11_trace_generator,
        ..before.range_checks
    })
    &&& columns(after.range_checks.rc_9_9_trace_generator.multiplicities@) == fed_relations(
        columns(before.range_checks.rc_9_9_trace_generator.multiplicities@),
        rc_9_9_ranges(),
        generic_opcode_cuda::pair_groups(groups(buffers.lookups@)),
    )
    &&& after.range_checks.rc_20_trace_generator.counters() == fed_relations(
        before.range_checks.rc_20_trace_generator.counters(),
        rc_20::ranges(),
        table_inputs(
            normalized(groups(buffers.lookups@), generic_opcode_cuda::LAST_CARRY_GROUP as int),
            generic_opcode_cuda::FIRST_CARRY_GROUP as int,
        ),
    )
    &&& after.range_checks.rc_18_trace_generator.counters() == fed_relation(
        before.range_checks.rc_18_trace_generator.counters(),
        rc_18::ranges(),
        groups(buffers.lookups@)[generic_opcode_cuda::RC_18_GROUP as int],
        0,
    )
    &&& after.range_checks.rc_11_trace_generator.multiplicities@ == counted(
        before.range_checks.rc_11_trace_generator.multiplicities@,
        |i: int|
            all_occurrences(
                rc_11_ranges(),
                groups(buffers.lookups@)[generic_opcode_cuda::RC_11_GROUP as int],
                i,
            ) as int,
    )
}

/// The columns that the opcode commits.
#[verifier::opaque]
pub open spec fn commits_of_generic(
    gen: Option<generic_opcode_cuda::CudaClaimGenerator>,
    output: Option<TraceBuffers>,
) -> Seq<Committed> {
    match (gen, output) {
        (Some(g), Some(o)) => committed(
            padded_log(g.n_rows as nat),
            columns(o.trace@).remove(
                generic_opcode_cuda::EXTRA_COLUMN as int,
            ),
        ),
        _ => Seq::empty(),
    }
}

/// What becomes of the components: they are fed if the program used the opcode.
#[verifier::opaque]
pub open spec fn step_generic(
    gen: Option<generic_opcode_cuda::CudaClaimGenerator>,
    output: Option<TraceBuffers>,
    before: OpcodeFeeds,
    after: OpcodeFeeds,
) -> bool {
    match (gen, output) {
        (Some(_), Some(o)) => fed_by_generic(o, before, after),
        _ => after == before,
    }
}

/// The opcode has an output that can be fed on, if the program used it.
#[verifier::opaque]
pub open spec fn ready_generic(
    gen: Option<generic_opcode_cuda::CudaClaimGenerator>,
    output: Option<TraceBuffers>,
) -> bool {
    gen matches Some(g) ==> (output matches Some(o) && accepts_generic(g, o))
}

/// The claim, and what the interaction trace is written from, if the program used the opcode.
#[verifier::opaque]
pub open spec fn written_generic(
    gen: Option<generic_opcode_cuda::CudaClaimGenerator>,
    output: Option<TraceBuffers>,
    claim: Option<Claim>,
    interaction: Option<generic_opcode_cuda::CudaInteractionClaimGenerator>,
) -> bool {
    match gen {
        Some(g) => output matches Some(o) && claim matches Some(c) && interaction matches Some(i)
            && {
            &&& c.log_size == padded_log(g.n_rows as nat)
            &&& i.wf()
            &&& i.log_size == c.log_size
            &&& i.n_rows == g.n_rows
            &&& groups(i.lookup_data@) == normalized(
                    groups(o.lookups@),
                    generic_opcode_cuda::LAST_CARRY_GROUP as int,
                )
        },
        None => claim is None && interaction is None,
    }
}

fn write_generic(
    gen: Option<generic_opcode_cuda::CudaClaimGenerator>,
    output: Option<TraceBuffers>,
    tree_builder: &mut TreeBuilder,
    feeds: &mut OpcodeFeeds,
) -> (r: (Option<Claim>, Option<generic_opcode_cuda::CudaInteractionClaimGenerator>))
    requires
        ready_generic(gen, output),
        old(feeds).wf(),
    ensures
        final(feeds).wf(),
        step_generic(gen, output, *old(feeds), *final(feeds)),
        final(feeds).triple_xor_32 == old(feeds).triple_xor_32,
        final(tree_builder)@ == old(tree_builder)@ + commits_of_generic(gen, output),
        written_generic(gen, output, r.0, r.1),
{
    proof {
        reveal(OpcodeFeeds::wf);
        reveal(accepts_generic);
        reveal(fed_by_generic);
        reveal(commits_of_generic);
        reveal(step_generic);
        reveal(ready_generic);
        reveal(written_generic);
    }
    match gen {
        Some(g) => {
            let (claim, interaction) = g.write_trace(
                output.unwrap(),
                tree_builder,
                &mut feeds.memory_address_to_id,
                &mut feeds.memory_id_to_big,
                &mut feeds.verify_instruction,
                &mut feeds.range_checks.rc_9_9_trace_generator,
                &mut feeds.range_checks.rc_20_trace_generator,
                &mut feeds.range_checks.rc_18_trace_generator,
                &mut feeds.range_checks.rc_11_trace_generator,
            );
            (Some(claim), Some(interaction))
        },
        None => (None, None),
    }
}

/// The buffers fit the opcode's states and can be fed on.
#[verifier::opaque]
pub open spec fn accepts_jump(
    gen: jump_opcode_cuda::CudaClaimGenerator,
    buffers: TraceBuffers,
) -> bool {
    &&& gen.wf()
    &&& buffers.fit(
        jump_opcode_cuda::N_TRACE_COLUMNS as nat,
        jump_opcode_cuda::lookup_shapes(),
        jump_opcode_cuda::sub_input_shapes(),
        padded_log(gen.n_rows as nat),
    )
}

/// The components after the buffers were fed on.
#[verifier::opaque]
pub open spec fn fed_by_jump(
    buffers: TraceBuffers,
    before: OpcodeFeeds,
    after: OpcodeFeeds,
) -> bool {
    &&& same_but_host(before, after)
    &&& fed_memory(
        before,
        after,
        groups(buffers.sub_inputs@)[0],
        groups(buffers.sub_inputs@)[1],
        groups(buffers.sub_inputs@)[2],
    )
    &&& fed_host(
        before,
        after,
        groups(buffers.sub_inputs@)[0],
        groups(buffers.sub_inputs@)[1],
        groups(buffers.sub_inputs@)[2],
    )
    &&& after.host_range_check_11 == before.host_range_check_11
}

/// The columns that the opcode commits.
#[verifier::opaque]
pub open spec fn commits_of_jump(
    gen: Option<jump_opcode_cuda::CudaClaimGenerator>,
    output: Option<TraceBuffers>,
) -> Seq<Committed> {
    match (gen, output) {
        (Some(g), Some(o)) => committed(
            padded_log(g.n_rows as nat),
            columns(o.trace@),
        ),
        _ => Seq::empty(),
    }
}

/// What becomes of the components: they are fed if the program used the opcode.
#[verifier::opaque]
pub open spec fn step_jump(
    gen: Option<jump_opcode_cuda::CudaClaimGenerator>,
    output: Option<TraceBuffers>,
    before: OpcodeFeeds,
    after: OpcodeFeeds,
) -> bool {
    match (gen, output) {
        (Some(_), Some(o)) => fed_by_jump(o, before, after),
        _ => after == before,
    }
}

/// The opcode has an output that can be fed on, if the program used it.
#[verifier::opaque]
pub open spec fn ready_jump(
    gen: Option<jump_opcode_cuda::CudaClaimGenerator>,
    output: Option<TraceBuffers>,
) -> bool {
    gen matches Some(g) ==> (output matches Some(o) && accepts_jump(g, o))
}

/// The claim, and what the interaction trace is written from, if the program used the opcode.
#[verifier::opaque]
pub open spec fn written_jump(
    gen: Option<jump_opcode_cuda::CudaClaimGenerator>,
    output: Option<TraceBuffers>,
    claim: Option<Claim>,
    interaction: Option<jump_opcode_cuda::CudaInteractionClaimGenerator>,
) -> bool {
    match gen {
        Some(g) => output matches Some(o) && claim matches Some(c) && interaction matches Some(i)
            && {
            &&& c.log_size == padded_log(g.n_rows as nat)
            &&& i.wf()
            &&& i.log_size == c.log_size
            &&& i.n_rows == g.n_rows
            &&& groups(i.lookup_data@) == groups(o.lookups@)
        },
        None => claim is None && interaction is None,
    }
}

fn write_jump(
    gen: Option<jump_opcode_cuda::CudaClaimGenerator>,
    output: Option<TraceBuffers>,
    tree_builder: &mut TreeBuilder,
    feeds: &mut OpcodeFeeds,
) -> (r: (Option<Claim>, Option<jump_opcode_cuda::CudaInteractionClaimGenerator>))
    requires
        ready_jump(gen, output),
        old(feeds).wf(),
    ensures
        final(feeds).wf(),
        step_jump(gen, output, *old(feeds), *final(feeds)),
        final(feeds).triple_xor_32 == old(feeds).triple_xor_32,
        final(tree_builder)@ == old(tree_builder)@ + commits_of_jump(gen, output),
        written_jump(gen, output, r.0, r.1),
{
    proof {
        reveal(OpcodeFeeds::wf);
        reveal(accepts_jump);
        reveal(fed_by_jump);
        reveal(commits_of_jump);
        reveal(step_jump);
        reveal(ready_jump);
        reveal(written_jump);
    }
    match gen {
        Some(g) => {
            let (claim, interaction) = g.write_trace(
                output.unwrap(),
                tree_builder,
                &mut feeds.memory_address_to_id,
                &mut feeds.memory_id_to_big,
                &mut feeds.verify_instruction,
                &mut feeds.host_memory_address_to_id,
                &mut feeds.host_memory_id_to_big,
                &mut feeds.host_verify_instruction,
            );
            (Some(claim), Some(interaction))
        },
        None => (None, None),
    }
}

/// The buffers fit the opcode's states and can be fed on.
#[verifier::opaque]
pub open spec fn accepts_jump_double_deref(
    gen: jump_opcode_double_deref_cuda::CudaClaimGenerator,
    buffers: TraceBuffers,
) -> bool {
    &&& gen.wf()
    &&& buffers.fit(
        jump_opcode_double_deref_cuda::N_TRACE_COLUMNS as nat,
        jump_opcode_double_deref_cuda::lookup_shapes(),
        jump_opcode_double_deref_cuda::sub_input_shapes(),
        padded_log(gen.n_rows as nat),
    )
}

/// The components after the buffers were fed on.
#[verifier::opaque]
pub open spec fn fed_by_jump_double_deref(
    buffers: TraceBuffers,
    before: OpcodeFeeds,
    after: OpcodeFeeds,
) -> bool {
    &&& same_but_memory(before, after)
    &&& fed_memory(
        before,
        after,
        groups(buffers.sub_inputs@)[0],
        groups(buffers.sub_inputs@)[1],
        groups(buffers.sub_inputs@)[2],
    )
}

/// The columns that the opcode commits.
#[verifier::opaque]
pub open spec fn commits_of_jump_double_deref(
    gen: Option<jump_opcode_double_deref_cuda::CudaClaimGenerator>,
    output: Option<TraceBuffers>,
) -> Seq<Committed> {
    match (gen, output) {
        (Some(g), Some(o)) => committed(
            padded_log(g.n_rows as nat),
            columns(o.trace@),
        ),
        _ => Seq::empty(),
    }
}

/// What becomes of the components: they are fed if the program used the opcode.
#[verifier::opaque]
pub open spec fn step_jump_double_deref(
    gen: Option<jump_opcode_double_deref_cuda::CudaClaimGenerator>,
    output: Option<TraceBuffers>,
    before: OpcodeFeeds,
    after: OpcodeFeeds,
) -> bool {
    match (gen, output) {
        (Some(_), Some(o)) => fed_by_jump_double_deref(o, before, after),
        _ => after == before,
    }
}

/// The opcode has an output that can be fed on, if the program used it.
#[verifier::opaque]
pub open spec fn ready_jump_double_deref(
    gen: Option<jump_opcode_double_deref_cuda::CudaClaimGenerator>,
    output: Option<TraceBuffers>,
) -> bool {
    gen matches Some(g) ==> (output matches Some(o) && accepts_jump_double_deref(g, o))
}

/// The claim, and what the interaction trace is written from, if the program used the opcode.
#[verifier::opaque]
pub open spec fn written_jump_double_deref(
    gen: Option<jump_opcode_double_deref_cuda::CudaClaimGenerator>,
    output: Option<TraceBuffers>,
    claim: Option<Claim>,
    interaction: Option<jump_opcode_double_deref_cuda::CudaInteractionClaimGenerator>,
) -> bool {
    match gen {
        Some(g) => output matches Some(o) && claim matches Some(c) && interaction matches Some(i)
            && {
            &&& c.log_size == padded_log(g.n_rows as nat)
            &&& i.wf()
            &&& i.log_size == c.log_size
            &&& i.n_rows == g.n_rows
            &&& groups(i.lookup_data@) == groups(o.lookups@)
        },
        None => claim is None && interaction is None,
    }
}

fn write_jump_double_deref(
    gen: Option<jump_opcode_double_deref_cuda::CudaClaimGenerator>,
    output: Option<TraceBuffers>,
    tree_builder: &mut TreeBuilder,
    feeds: &mut OpcodeFeeds,
) -> (r: (Option<Claim>, Option<jump_opcode_double_deref_cuda::CudaInteractionClaimGenerator>))
    requires
        ready_jump_double_deref(gen, output),
        old(feeds).wf(),
    ensures
        final(feeds).wf(),
        step_jump_double_deref(gen, output, *old(feeds), *final(feeds)),
        final(feeds).triple_xor_32 == old(feeds).triple_xor_32,
        final(tree_builder)@ == old(tree_builder)@ + commits_of_jump_double_deref(gen, output),
        written_jump_double_deref(gen, output, r.0, r.1),
{
    proof {
        reveal(OpcodeFeeds::wf);
        reveal(accepts_jump_double_deref);
        reveal(fed_by_jump_double_deref);
        reveal(commits_of_jump_double_deref);
        reveal(step_jump_double_deref);
        reveal(ready_jump_double_deref);
        reveal(written_jump_double_deref);
    }
    match gen {
        Some(g) => {
            let (claim, interaction) = g.write_trace(
                output.unwrap(),
                tree_builder,
                &mut feeds.memory_address_to_id,
                &mut feeds.memory_id_to_big,
                &mut feeds.verify_instruction,
            );
            (Some(claim), Some(interaction))
        },
        None => (None, None),
    }
}

/// The buffers fit the opcode's states and can be fed on.
#[verifier::opaque]
pub open spec fn accepts_mul(
    gen: mul_opcode_cuda::CudaClaimGenerator,
    buffers: TraceBuffers,
) -> bool {
    &&& gen.wf()
    &&& buffers.fit(
        mul_opcode_cuda::N_TRACE_COLUMNS as nat,
        mul_opcode_cuda::lookup_shapes(),
        mul_opcode_cuda::sub_input_shapes(),
        padded_log(gen.n_rows as nat),
    )
    &&& is_canonical(groups(buffers.lookups@)[mul_opcode_cuda::LAST_CARRY_GROUP as int][0][0])
    &&& are_carries(
        normalized(groups(buffers.lookups@), mul_opcode_cuda::LAST_CARRY_GROUP as int),
        mul_opcode_cuda::FIRST_CARRY_GROUP as int,
    )
}

/// The components after the buffers were fed on.
#[verifier::opaque]
pub open spec fn fed_by_mul(
    buffers: TraceBuffers,
    before: OpcodeFeeds,
    after: OpcodeFeeds,
) -> bool {
    &&& same_but_range_checks(before, after)
    &&& fed_memory(
        before,
        after,
        groups(buffers.sub_inputs@)[0],
        groups(buffers.sub_inputs@)[1],
        groups(buffers.sub_inputs@)[2],
    )
    &&& after.range_checks == (RangeChecksCudaClaimGenerator {
        rc_20_trace_generator: after.range_checks.rc_20_trace_generator,
        ..before.range_checks
    })
    &&& after.range_checks.rc_20_trace_generator.counters() == fed_relations(
        before.range_checks.rc_20_trace_generator.counters(),
        rc_20::ranges(),
        table_inputs(
            normalized(groups(buffers.lookups@), mul_opcode_cuda::LAST_CARRY_GROUP as int),
            mul_opcode_cuda::FIRST_CARRY_GROUP as int,
        ),
    )
}

/// The columns that the opcode commits.
#[verifier::opaque]
pub open spec fn commits_of_mul(
    gen: Option<mul_opcode_cuda::CudaClaimGenerator>,
    output: Option<TraceBuffers>,
) -> Seq<Committed> {
    match (gen, output) {
        (Some(g), Some(o)) => committed(
            padded_log(g.n_rows as nat),
            columns(o.trace@),
        ),
        _ => Seq::empty(),
    }
}

/// What becomes of the components: they are fed if the program used the opcode.
#[verifier::opaque]
pub open spec fn step_mul(
    gen: Option<mul_opcode_cuda::CudaClaimGenerator>,
    output: Option<TraceBuffers>,
    before: OpcodeFeeds,
    after: OpcodeFeeds,
) -> bool {
    match (gen, output) {
        (Some(_), Some(o)) => fed_by_mul(o, before, after),
        _ => after == before,
    }
}

/// The opcode has an output that can be fed on, if the program used it.
#[verifier::opaque]
pub open spec fn ready_mul(
    gen: Option<mul_opcode_cuda::CudaClaimGenerator>,
    output: Option<TraceBuffers>,
) -> bool {
    gen matches Some(g) ==> (output matches Some(o) && accepts_mul(g, o))
}

/// The claim, and what the interaction trace is written from, if the program used the opcode.
#[verifier::opaque]
pub open spec fn written_mul(
    gen: Option<mul_opcode_cuda::CudaClaimGenerator>,
    output: Option<TraceBuffers>,
    claim: Option<Claim>,
    interaction: Option<mul_opcode_cuda::CudaInteractionClaimGenerator>,
) -> bool {
    match gen {
        Some(g) => output matches Some(o) && claim matches Some(c) && interaction matches Some(i)
            && {
            &&& c.log_size == padded_log(g.n_rows as nat)
            &&& i.wf()
            &&& i.log_size == c.log_size
            &&& i.n_rows == g.n_rows
            &&& groups(i.lookup_data@) == normalized(
                    groups(o.lookups@),
                    mul_opcode_cuda::LAST_CARRY_GROUP as int,
                )
        },
        None => claim is None && interaction is None,
    }
}

fn write_mul(
    gen: Option<mul_opcode_cuda::CudaClaimGenerator>,
    output: Option<TraceBuffers>,
    tree_builder: &mut TreeBuilder,
    feeds: &mut OpcodeFeeds,
) -> (r: (Option<Claim>, Option<mul_opcode_cuda::CudaInteractionClaimGenerator>))
    requires
        ready_mul(gen, output),
        old(feeds).wf(),
    ensures
        final(feeds).wf(),
        step_mul(gen, output, *old(feeds), *final(feeds)),
        final(feeds).triple_xor_32 == old(feeds).triple_xor_32,
        final(tree_builder)@ == old(tree_builder)@ + commits_of_mul(gen, output),
        written_mul(gen, output, r.0, r.1),
{
    proof {
        reveal(OpcodeFeeds::wf);
        reveal(accepts_mul);
        reveal(fed_by_mul);
        reveal(commits_of_mul);
        reveal(step_mul);
        reveal(ready_mul);
        reveal(written_mul);
    }
    match gen {
        Some(g) => {
            let (claim, interaction) = g.write_trace(
                output.unwrap(),
                tree_builder,
                &mut feeds.memory_address_to_id,
                &mut feeds.memory_id_to_big,
                &mut feeds.verify_instruction,
                &mut feeds.range_checks.rc_20_trace_generator,
            );
            (Some(claim), Some(interaction))
        },
        None => (None, None),
    }
}

/// The buffers fit the opcode's states and can be fed on.
#[verifier::opaque]
pub open spec fn accepts_mul_small(
    gen: mul_opcode_small_cuda::CudaClaimGenerator,
    buffers: TraceBuffers,
) -> bool {
    &&& gen.wf()
    &&& buffers.fit(
        mul_opcode_small_cuda::N_TRACE_COLUMNS as nat,
        mul_opcode_small_cuda::lookup_shapes(),
        mul_opcode_small_cuda::sub_input_shapes(),
        padded_log(gen.n_rows as nat),
    )
}

/// The components after the buffers were fed on.
#[verifier::opaque]
pub open spec fn fed_by_mul_small(
    buffers: TraceBuffers,
    before: OpcodeFeeds,
    after: OpcodeFeeds,
) -> bool {
    &&& same_but_host(before, after)
    &&& fed_memory(
        before,
        after,
        groups(buffers.sub_inputs@)[0],
        groups(buffers.sub_inputs@)[1],
        groups(buffers.sub_inputs@)[2],
    )
    &&& fed_host(
        before,
        after,
        groups(buffers.sub_inputs@)[0],
        groups(buffers.sub_inputs@)[1],
        groups(buffers.sub_inputs@)[2],
    )
    &&& after.host_range_check_11@ == before.host_range_check_11@ + first_columns(
        groups(buffers.sub_inputs@)[3],
    )
}

/// The columns that the opcode commits.
#[verifier::opaque]
pub open spec fn commits_of_mul_small(
    gen: Option<mul_opcode_small_cuda::CudaClaimGenerator>,
    output: Option<TraceBuffers>,
) -> Seq<Committed> {
    match (gen, output) {
        (Some(g), Some(o)) => committed(
            padded_log(g.n_rows as nat),
            columns(o.trace@),
        ),
        _ => Seq::empty(),
    }
}

/// What becomes of the components: they are fed if the program used the opcode.
#[verifier::opaque]
pub open spec fn step_mul_small(
    gen: Option<mul_opcode_small_cuda::CudaClaimGenerator>,
    output: Option<TraceBuffers>,
    before: OpcodeFeeds,
    after: OpcodeFeeds,
) -> bool {
    match (gen, output) {
        (Some(_), Some(o)) => fed_by_mul_small(o, before, after),
        _ => after == before,
    }
}

/// The opcode has an output that can be fed on, if the program used it.
#[verifier::opaque]
pub open spec fn ready_mul_small(
    gen: Option<mul_opcode_small_cuda::CudaClaimGenerator>,
    output: Option<TraceBuffers>,
) -> bool {
    gen matches Some(g) ==> (output matches Some(o) && accepts_mul_small(g, o))
}

/// The claim, and what the interaction trace is written from, if the program used the opcode.
#[verifier::opaque]
pub open spec fn written_mul_small(
    gen: Option<mul_opcode_small_cuda::CudaClaimGenerator>,
    output: Option<TraceBuffers>,
    claim: Option<Claim>,
    interaction: Option<mul_opcode_small_cuda::CudaInteractionClaimGenerator>,
) -> bool {
    match gen {
        Some(g) => output matches Some(o) && claim matches Some(c) && interaction matches Some(i)
            && {
            &&& c.log_size == padded_log(g.n_rows as nat)
            &&& i.wf()
            &&& i.log_size == c.log_size
            &&& i.n_rows == g.n_rows
            &&& groups(i.lookup_data@) == groups(o.lookups@)
        },
        None => claim is None && interaction is None,
    }
}

fn write_mul_small(
    gen: Option<mul_opcode_small_cuda::CudaClaimGenerator>,
    output: Option<TraceBuffers>,
    tree_builder: &mut TreeBuilder,
    feeds: &mut OpcodeFeeds,
) -> (r: (Option<Claim>, Option<mul_opcode_small_cuda::CudaInteractionClaimGenerator>))
    requires
        ready_mul_small(gen, output),
        old(feeds).wf(),
    ensures
        final(feeds).wf(),
        step_mul_small(gen, output, *old(feeds), *final(feeds)),
        final(feeds).triple_xor_32 == old(feeds).triple_xor_32,
        final(tree_builder)@ == old(tree_builder)@ + commits_of_mul_small(gen, output),
        written_mul_small(gen, output, r.0, r.1),
{
    proof {
        reveal(OpcodeFeeds::wf);
        reveal(accepts_mul_small);
        reveal(fed_by_mul_small);
        reveal(commits_of_mul_small);
        reveal(step_mul_small);
        reveal(ready_mul_small);
        reveal(written_mul_small);
    }
    match gen {
        Some(g) => {
            let (claim, interaction) = g.write_trace(
                output.unwrap(),
                tree_builder,
                &mut feeds.memory_address_to_id,
                &mut feeds.memory_id_to_big,
                &mut feeds.verify_instruction,
                &mut feeds.host_memory_address_to_id,
                &mut feeds.host_memory_id_to_big,
                &mut feeds.host_verify_instruction,
                &mut feeds.host_range_check_11,
            );
            (Some(claim), Some(interaction))
        },
        None => (None, None),
    }
}

/// The columns that the opcode commits.
#[verifier::opaque]
pub open spec fn commits_of_other(
    gen: Option<StateInputs>,
    output: Option<OpcodeOutput>,
) -> Seq<Committed> {
    match (gen, output) {
        (Some(_), Some(o)) => committed(o.log_size, columns(o.trace@)),
        _ => Seq::empty(),
    }
}

/// What becomes of the components: they are fed if the program used the opcode.
#[verifier::opaque]
pub open spec fn step_other(
    opcode: OtherOpcode,
    gen: Option<StateInputs>,
    output: Option<OpcodeOutput>,
    before: OpcodeFeeds,
    after: OpcodeFeeds,
) -> bool {
    match (gen, output) {
        (Some(_), Some(o)) => fed_by_other(opcode, o, before, after),
        _ => after == before,
    }
}

/// The opcode has an output that can be fed on, if the program used it.
#[verifier::opaque]
pub open spec fn ready_other(
    opcode: OtherOpcode,
    gen: Option<StateInputs>,
    output: Option<OpcodeOutput>,
) -> bool {
    gen is Some ==> (output matches Some(o) && accepts_other(opcode, o))
}

/// The claim, and what the interaction trace is written from, if the program used the opcode.
#[verifier::opaque]
pub open spec fn written_other(
    gen: Option<StateInputs>,
    output: Option<OpcodeOutput>,
    claim: Option<Claim>,
    interaction: Option<PendingInteraction>,
) -> bool {
    match gen {
        Some(_) => output matches Some(o) && claim matches Some(c) && interaction matches Some(i)
            && {
            &&& c.log_size == o.log_size
            &&& i.log_size == o.log_size
            &&& groups(i.lookup_data@) == groups(o.lookup_data@)
        },
        None => claim is None && interaction is None,
    }
}

fn feed_other(opcode: OtherOpcode, output: &mut OpcodeOutput, feeds: &mut OpcodeFeeds)
    requires
        accepts_other(opcode, *old(output)),
        old(feeds).wf(),
    ensures
        final(feeds).wf(),
        fed_by_other(opcode, *old(output), *old(feeds), *final(feeds)),
        final(feeds).triple_xor_32 == old(feeds).triple_xor_32,
        final(output).log_size == old(output).log_size,
        final(output).trace == old(output).trace,
        final(output).lookup_data == old(output).lookup_data,
{
    proof {
        reveal(OpcodeFeeds::wf);
        reveal(accepts_other);
        reveal(fed_by_other);
    }
    feeds.verify_instruction.add_cuda_inputs(&output.verify_instruction);
    feeds.memory_address_to_id.add_cuda_inputs(&output.memory_address_to_id);
    feeds.memory_id_to_big.add_cuda_inputs(&output.memory_id_to_big);
    feeds.host_memory_address_to_id.append(&mut output.host_memory_address_to_id);
    feeds.host_verify_instruction.append(&mut output.host_verify_instruction);
    match opcode {
        OtherOpcode::AssertEq | OtherOpcode::AssertEqImm => {},
        OtherOpcode::AddAp => {
            feeds.range_checks.rc_11_trace_generator.add_each(&output.range_check_11);
            feeds.range_checks.rc_18_trace_generator.add_cuda_inputs_for_relation(
                &output.range_check_18,
                0,
            );
            feeds.host_memory_id_to_big.append(&mut output.host_memory_id_to_big);
            feeds.host_range_check_11.append(&mut output.host_range_check_11);
            feeds.host_range_check_18.append(&mut output.host_range_check_18);
        },
        OtherOpcode::Qm31 => {
            feeds.range_checks.rc_4_4_4_4_trace_generator.add_each(&output.range_check_4_4_4_4);
            feeds.host_memory_id_to_big.append(&mut output.host_memory_id_to_big);
            feeds.host_range_check_4_4_4_4.append(&mut output.host_range_check_4_4_4_4);
        },
        _ => {
            feeds.host_memory_id_to_big.append(&mut output.host_memory_id_to_big);
        },
    }
}

fn write_other(
    opcode: OtherOpcode,
    gen: Option<StateInputs>,
    output: Option<OpcodeOutput>,
    tree_builder: &mut TreeBuilder,
    feeds: &mut OpcodeFeeds,
) -> (r: (Option<Claim>, Option<PendingInteraction>))
    requires
        ready_other(opcode, gen, output),
        old(feeds).wf(),
    ensures
        final(feeds).wf(),
        step_other(opcode, gen, output, *old(feeds), *final(feeds)),
        final(feeds).triple_xor_32 == old(feeds).triple_xor_32,
        final(tree_builder)@ == old(tree_builder)@ + commits_of_other(gen, output),
        written_other(gen, output, r.0, r.1),
{
    proof {
        reveal(accepts_other);
        reveal(commits_of_other);
        reveal(step_other);
        reveal(ready_other);
        reveal(written_other);
    }
    match gen {
        Some(_) => {
            let mut o = output.unwrap();
            feed_other(opcode, &mut o, feeds);
            tree_builder.extend_evals(o.log_size, o.trace);
            (
                Some(Claim { log_size: o.log_size }),
                Some(PendingInteraction { log_size: o.log_size, lookup_data: o.lookup_data }),
            )
        },
        None => (None, None),
    }
}

/// The commits of all opcodes, in their order.
pub open spec fn all_commits(
    gens: OpcodesCudaClaimGenerator,
    outputs: OpcodeOutputs,
) -> Seq<Seq<Committed>> {
    seq![
        commits_of_other(gens.add, outputs.add),
        commits_of_other(gens.add_small, outputs.add_small),
        commits_of_other(gens.add_ap, outputs.add_ap),
        commits_of_other(gens.assert_eq, outputs.assert_eq),
        commits_of_other(gens.assert_eq_imm, outputs.assert_eq_imm),
        commits_of_other(gens.assert_eq_double_deref, outputs.assert_eq_double_deref),
        commits_of_blake(gens.blake, outputs.blake),
        commits_of_other(gens.call, outputs.call),
        commits_of_other(gens.call_rel_imm, outputs.call_rel_imm),
        commits_of_generic(gens.generic, outputs.generic),
        commits_of_other(gens.jnz, outputs.jnz),
        commits_of_other(gens.jnz_taken, outputs.jnz_taken),
        commits_of_jump(gens.jump, outputs.jump),
        commits_of_jump_double_deref(gens.jump_double_deref, outputs.jump_double_deref),
        commits_of_other(gens.jump_rel, outputs.jump_rel),
        commits_of_other(gens.jump_rel_imm, outputs.jump_rel_imm),
        commits_of_mul(gens.mul, outputs.mul),
        commits_of_mul_small(gens.mul_small, outputs.mul_small),
        commits_of_other(gens.qm31, outputs.qm31),
        commits_of_other(gens.ret, outputs.ret),
    ]
}

/// The first `n` of the lists, one after the other.
#[verifier::opaque]
pub open spec fn joined(lists: Seq<Seq<Committed>>, n: int) -> Seq<Committed>
    decreases n,
{
    if n <= 0 {
        Seq::empty()
    } else {
        joined(lists, n - 1) + lists[n - 1]
    }
}

/// The states of the fed components from opcode to opcode.
pub open spec fn are_steps(
    states: Seq<OpcodeFeeds>,
    gens: OpcodesCudaClaimGenerator,
    outputs: OpcodeOutputs,
) -> bool {
    &&& states.len() == 21
    &&& step_other(OtherOpcode::Add, gens.add, outputs.add, states[0], states[1])
    &&& step_other(OtherOpcode::AddSmall, gens.add_small, outputs.add_small, states[1], states[2])
    &&& step_other(OtherOpcode::AddAp, gens.add_ap, outputs.add_ap, states[2], states[3])
    &&& step_other(OtherOpcode::AssertEq, gens.assert_eq, outputs.assert_eq, states[3], states[4])
    &&& step_other(
        OtherOpcode::AssertEqImm,
        gens.assert_eq_imm,
        outputs.assert_eq_imm,
        states[4],
        states[5],
    )
    &&& step_other(
        OtherOpcode::AssertEqDoubleDeref,
        gens.assert_eq_double_deref,
        outputs.assert_eq_double_deref,
        states[5],
        states[6],
    )
    &&& step_blake(gens.blake, outputs.blake, states[6], states[7])
    &&& step_other(OtherOpcode::Call, gens.call, outputs.call, states[7], states[8])
    &&& step_other(
        OtherOpcode::CallRelImm,
        gens.call_rel_imm,
        outputs.call_rel_imm,
        states[8],
        states[9],
    )
    &&& step_generic(gens.generic, outputs.generic, states[9], states[10])
    &&& step_other(OtherOpcode::Jnz, gens.jnz, outputs.jnz, states[10], states[11])
    &&& step_other(
        OtherOpcode::JnzTaken,
        gens.jnz_taken,
        outputs.jnz_taken,
        states[11],
        states[12],
    )
    &&& step_jump(gens.jump, outputs.jump, states[12], states[13])
    &&& step_jump_double_deref(
        gens.jump_double_deref,
        outputs.jump_double_deref,
        states[13],
        states[14],
    )
    &&& step_other(OtherOpcode::JumpRel, gens.jump_rel, outputs.jump_rel, states[14], states[15])
    &&& step_other(
        OtherOpcode::JumpRelImm,
        gens.jump_rel_imm,
        outputs.jump_rel_imm,
        states[15],
        states[16],
    )
    &&& step_mul(gens.mul, outputs.mul, states[16], states[17])
    &&& step_mul_small(gens.mul_small, outputs.mul_small, states[17], states[18])
    &&& step_other(OtherOpcode::Qm31, gens.qm31, outputs.qm31, states[18], states[19])
    &&& step_other(OtherOpcode::Ret, gens.ret, outputs.ret, states[19], states[20])
}

/// Every opcode that the program used has an output that can be fed on.
pub open spec fn accepts_all(
    gens: OpcodesCudaClaimGenerator,
    outputs: OpcodeOutputs,
    feeds: OpcodeFeeds,
) -> bool {
    &&& ready_other(OtherOpcode::Add, gens.add, outputs.add)
    &&& ready_other(OtherOpcode::AddSmall, gens.add_small, outputs.add_small)
    &&& ready_other(OtherOpcode::AddAp, gens.add_ap, outputs.add_ap)
    &&& ready_other(OtherOpcode::AssertEq, gens.assert_eq, outputs.assert_eq)
    &&& ready_other(OtherOpcode::AssertEqImm, gens.assert_eq_imm, outputs.assert_eq_imm)
    &&& ready_other(
        OtherOpcode::AssertEqDoubleDeref,
        gens.assert_eq_double_deref,
        outputs.assert_eq_double_deref,
    )
    &&& ready_blake(gens.blake, outputs.blake, feeds.triple_xor_32.inputs.size)
    &&& ready_other(OtherOpcode::Call, gens.call, outputs.call)
    &&& ready_other(OtherOpcode::CallRelImm, gens.call_rel_imm, outputs.call_rel_imm)
    &&& ready_generic(gens.generic, outputs.generic)
    &&& ready_other(OtherOpcode::Jnz, gens.jnz, outputs.jnz)
    &&& ready_other(OtherOpcode::JnzTaken, gens.jnz_taken, outputs.jnz_taken)
    &&& ready_jump(gens.jump, outputs.jump)
    &&& ready_jump_double_deref(gens.jump_double_deref, outputs.jump_double_deref)
    &&& ready_other(OtherOpcode::JumpRel, gens.jump_rel, outputs.jump_rel)
    &&& ready_other(OtherOpcode::JumpRelImm, gens.jump_rel_imm, outputs.jump_rel_imm)
    &&& ready_mul(gens.mul, outputs.mul)
    &&& ready_mul_small(gens.mul_small, outputs.mul_small)
    &&& ready_other(OtherOpcode::Qm31, gens.qm31, outputs.qm31)
    &&& ready_other(OtherOpcode::Ret, gens.ret, outputs.ret)
}

proof fn lemma_joined_step(
    start: Seq<Committed>,
    lists: Seq<Seq<Committed>>,
    n: int,
    before: Seq<Committed>,
    after: Seq<Committed>,
)
    requires
        0 < n <= lists.len(),
        before == start + joined(lists, n - 1),
        after == before + lists[n - 1],
    ensures
        after == start + joined(lists, n),
{
    reveal(joined);
    assert(after =~= start + joined(lists, n));
}

proof fn lemma_joined_none(start: Seq<Committed>, lists: Seq<Seq<Committed>>)
    ensures
        start == start + joined(lists, 0),
{
    reveal(joined);
    assert(start =~= start + joined(lists, 0));
}

impl OpcodesCudaClaimGenerator {
    /// Keeps the states of every opcode that has any.
    pub fn new(input: CasmStatesByOpcode) -> (r: Self)
        requires
            input.wf(),
        ensures
            r.add is Some <==> input.add_opcode@.len() > 0,
            r.add matches Some(g) ==> g.wf() && g.holds(input.add_opcode@),
            r.add_small is Some <==> input.add_opcode_small@.len() > 0,
            r.add_small matches Some(g) ==> g.wf() && g.holds(input.add_opcode_small@),
            r.add_ap is Some <==> input.add_ap_opcode@.len() > 0,
            r.add_ap matches Some(g) ==> g.wf() && g.holds(input.add_ap_opcode@),
            r.assert_eq is Some <==> input.assert_eq_opcode@.len() > 0,
            r.assert_eq matches Some(g) ==> g.wf() && g.holds(input.assert_eq_opcode@),
            r.assert_eq_imm is Some <==> input.assert_eq_opcode_imm@.len() > 0,
            r.assert_eq_imm matches Some(g) ==> g.wf() && g.holds(input.assert_eq_opcode_imm@),
            r.assert_eq_double_deref is Some <==> input.assert_eq_opcode_double_deref@.len() > 0,
            r.assert_eq_double_deref matches Some(g) ==> g.wf() && g.holds(
                input.assert_eq_opcode_double_deref@,
            ),
            r.blake is Some <==> input.blake_compress_opcode@.len() > 0,
            r.blake matches Some(g) ==> g.wf() && g.holds(input.blake_compress_opcode@),
            r.call is Some <==> input.call_opcode@.len() > 0,
            r.call matches Some(g) ==> g.wf() && g.holds(input.call_opcode@),
            r.call_rel_imm is Some <==> input.call_opcode_rel_imm@.len() > 0,
            r.call_rel_imm matches Some(g) ==> g.wf() && g.holds(input.call_opcode_rel_imm@),
            r.generic is Some <==> input.generic_opcode@.len() > 0,
            r.generic matches Some(g) ==> g.wf() && g.holds(input.generic_opcode@),
            r.jnz is Some <==> input.jnz_opcode@.len() > 0,
            r.jnz matches Some(g) ==> g.wf() && g.holds(input.jnz_opcode@),
            r.jnz_taken is Some <==> input.jnz_opcode_taken@.len() > 0,
            r.jnz_taken matches Some(g) ==> g.wf() && g.holds(input.jnz_opcode_taken@),
            r.jump is Some <==> input.jump_opcode@.len() > 0,
            r.jump matches Some(g) ==> g.wf() && g.holds(input.jump_opcode@),
            r.jump_double_deref is Some <==> input.jump_opcode_double_deref@.len() > 0,
            r.jump_double_deref matches Some(g) ==> g.wf() && g.holds(
                input.jump_opcode_double_deref@,
            ),
            r.jump_rel is Some <==> input.jump_opcode_rel@.len() > 0,
            r.jump_rel matches Some(g) ==> g.wf() && g.holds(input.jump_opcode_rel@),
            r.jump_rel_imm is Some <==> input.jump_opcode_rel_imm@.len() > 0,
            r.jump_rel_imm matches Some(g) ==> g.wf() && g.holds(input.jump_opcode_rel_imm@),
            r.mul is Some <==> input.mul_opcode@.len() > 0,
            r.mul matches Some(g) ==> g.wf() && g.holds(input.mul_opcode@),
            r.mul_small is Some <==> input.mul_opcode_small@.len() > 0,
            r.mul_small matches Some(g) ==> g.wf() && g.holds(input.mul_opcode_small@),
            r.qm31 is Some <==> input.qm_31_add_mul_opcode@.len() > 0,
            r.qm31 matches Some(g) ==> g.wf() && g.holds(input.qm_31_add_mul_opcode@),
            r.ret is Some <==> input.ret_opcode@.len() > 0,
            r.ret matches Some(g) ==> g.wf() && g.holds(input.ret_opcode@),
    {
        OpcodesCudaClaimGenerator {
            add: if input.add_opcode.len() > 0 {
                Some(StateInputs::new(input.add_opcode))
            } else {
                None
            },
            add_small: if input.add_opcode_small.len() > 0 {
                Some(StateInputs::new(input.add_opcode_small))
            } else {
                None
            },
            add_ap: if input.add_ap_opcode.len() > 0 {
                Some(StateInputs::new(input.add_ap_opcode))
            } else {
                None
            },
            assert_eq: if input.assert_eq_opcode.len() > 0 {
                Some(StateInputs::new(input.assert_eq_opcode))
            } else {
                None
            },
            assert_eq_imm: if input.assert_eq_opcode_imm.len() > 0 {
                Some(StateInputs::new(input.assert_eq_opcode_imm))
            } else {
                None
            },
            assert_eq_double_deref: if input.assert_eq_opcode_double_deref.len() > 0 {
                Some(StateInputs::new(input.assert_eq_opcode_double_deref))
            } else {
                None
            },
            blake: if input.blake_compress_opcode.len() > 0 {
                Some(
                    blake_compress_opcode_cuda::CudaClaimGenerator::new(
                        input.blake_compress_opcode,
                    ),
                )
            } else {
                None
            },
            call: if input.call_opcode.len() > 0 {
                Some(StateInputs::new(input.call_opcode))
            } else {
                None
            },
            call_rel_imm: if input.call_opcode_rel_imm.len() > 0 {
                Some(StateInputs::new(input.call_opcode_rel_imm))
            } else {
                None
            },
            generic: if input.generic_opcode.len() > 0 {
                Some(generic_opcode_cuda::CudaClaimGenerator::new(input.generic_opcode))
            } else {
                None
            },
            jnz: if input.jnz_opcode.len() > 0 {
                Some(StateInputs::new(input.jnz_opcode))
            } else {
                None
            },
            jnz_taken: if input.jnz_opcode_taken.len() > 0 {
                Some(StateInputs::new(input.jnz_opcode_taken))
            } else {
                None
            },
            jump: if input.jump_opcode.len() > 0 {
                Some(jump_opcode_cuda::CudaClaimGenerator::new(input.jump_opcode))
            } else {
                None
            },
            jump_double_deref: if input.jump_opcode_double_deref.len() > 0 {
                Some(
                    jump_opcode_double_deref_cuda::CudaClaimGenerator::new(
                        input.jump_opcode_double_deref,
                    ),
                )
            } else {
                None
            },
            jump_rel: if input.jump_opcode_rel.len() > 0 {
                Some(StateInputs::new(input.jump_opcode_rel))
            } else {
                None
            },
            jump_rel_imm: if input.jump_opcode_rel_imm.len() > 0 {
                Some(StateInputs::new(input.jump_opcode_rel_imm))
            } else {
                None
            },
            mul: if input.mul_opcode.len() > 0 {
                Some(mul_opcode_cuda::CudaClaimGenerator::new(input.mul_opcode))
            } else {
                None
            },
            mul_small: if input.mul_opcode_small.len() > 0 {
                Some(mul_opcode_small_cuda::CudaClaimGenerator::new(input.mul_opcode_small))
            } else {
                None
            },
            qm31: if input.qm_31_add_mul_opcode.len() > 0 {
                Some(StateInputs::new(input.qm_31_add_mul_opcode))
            } else {
                None
            },
            ret: if input.ret_opcode.len() > 0 {
                Some(StateInputs::new(input.ret_opcode))
            } else {
                None
            },
        }
    }

    /// Commits the traces of the opcodes that the program used and feeds the other components, one
    /// opcode after the other.
    pub fn write_trace(
        self,
        outputs: OpcodeOutputs,
        tree_builder: &mut TreeBuilder,
        feeds: &mut OpcodeFeeds,
    ) -> (r: (OpcodeClaim, OpcodesCudaInteractionClaimGenerator))
        requires
            accepts_all(self, outputs, *old(feeds)),
            old(feeds).wf(),
        ensures
            final(feeds).wf(),
            exists|states: Seq<OpcodeFeeds>| #[trigger]
                are_steps(states, self, outputs) && states[0] == *old(feeds) && states[20]
                    == *final(feeds),
            final(tree_builder)@ == old(tree_builder)@ + joined(all_commits(self, outputs), 20),
            written_other(self.add, outputs.add, r.0.add, r.1.add),
            written_other(self.add_small, outputs.add_small, r.0.add_small, r.1.add_small),
            written_other(self.add_ap, outputs.add_ap, r.0.add_ap, r.1.add_ap),
            written_other(self.assert_eq, outputs.assert_eq, r.0.assert_eq, r.1.assert_eq),
            written_other(
                self.assert_eq_imm,
                outputs.assert_eq_imm,
                r.0.assert_eq_imm,
                r.1.assert_eq_imm,
            ),
            written_other(
                self.assert_eq_double_deref,
                outputs.assert_eq_double_deref,
                r.0.assert_eq_double_deref,
                r.1.assert_eq_double_deref,
            ),
            written_blake(self.blake, outputs.blake, r.0.blake, r.1.blake),
            written_other(self.call, outputs.call, r.0.call, r.1.call),
            written_other(
                self.call_rel_imm,
                outputs.call_rel_imm,
                r.0.call_rel_imm,
                r.1.call_rel_imm,
            ),
            written_generic(self.generic, outputs.generic, r.0.generic, r.1.generic),
            written_other(self.jnz, outputs.jnz, r.0.jnz, r.1.jnz),
            written_other(self.jnz_taken, outputs.jnz_taken, r.0.jnz_taken, r.1.jnz_taken),
            written_jump(self.jump, outputs.jump, r.0.jump, r.1.jump),
            written_jump_double_deref(
                self.jump_double_deref,
                outputs.jump_double_deref,
                r.0.jump_double_deref,
                r.1.jump_double_deref,
            ),
            written_other(self.jump_rel, outputs.jump_rel, r.0.jump_rel, r.1.jump_rel),
            written_other(
                self.jump_rel_imm,
                outputs.jump_rel_imm,
                r.0.jump_rel_imm,
                r.1.jump_rel_imm,
            ),
            written_mul(self.mul, outputs.mul, r.0.mul, r.1.mul),
            written_mul_small(self.mul_small, outputs.mul_small, r.0.mul_small, r.1.mul_small),
            written_other(self.qm31, outputs.qm31, r.0.qm31, r.1.qm31),
            written_other(self.ret, outputs.ret, r.0.ret, r.1.ret),
    {
        let ghost start = tree_builder@;
        let ghost lists = all_commits(self, outputs);
        let ghost mut states: Seq<OpcodeFeeds> = seq![*feeds];
        let ghost mut committed_so_far = tree_builder@;
        proof {
            lemma_joined_none(start, lists);
        }
        let add = write_other(OtherOpcode::Add, self.add, outputs.add, tree_builder, feeds);
        proof {
            lemma_joined_step(start, lists, 1, committed_so_far, tree_builder@);
            committed_so_far = tree_builder@;
            states = states.push(*feeds);
        }
        let add_small = write_other(
            OtherOpcode::AddSmall,
            self.add_small,
            outputs.add_small,
            tree_builder,
            feeds,
        );
        proof {
            lemma_joined_step(start, lists, 2, committed_so_far, tree_builder@);
            committed_so_far = tree_builder@;
            states = states.push(*feeds);
        }
        let add_ap = write_other(
            OtherOpcode::AddAp,
            self.add_ap,
            outputs.add_ap,
            tree_builder,
            feeds,
        );
        proof {
            lemma_joined_step(start, lists, 3, committed_so_far, tree_builder@);
            committed_so_far = tree_builder@;
            states = states.push(*feeds);
        }
        let assert_eq = write_other(
            OtherOpcode::AssertEq,
            self.assert_eq,
            outputs.assert_eq,
            tree_builder,
            feeds,
        );
        proof {
            lemma_joined_step(start, lists, 4, committed_so_far, tree_builder@);
            committed_so_far = tree_builder@;
            states = states.push(*feeds);
        }
        let assert_eq_imm = write_other(
            OtherOpcode::AssertEqImm,
            self.assert_eq_imm,
            outputs.assert_eq_imm,
            tree_builder,
            feeds,
        );
        proof {
            lemma_joined_step(start, lists, 5, committed_so_far, tree_builder@);
            committed_so_far = tree_builder@;
            states = states.push(*feeds);
        }
        let assert_eq_double_deref = write_other(
            OtherOpcode::AssertEqDoubleDeref,
            self.assert_eq_double_deref,
            outputs.assert_eq_double_deref,
            tree_builder,
            feeds,
        );
        proof {
            lemma_joined_step(start, lists, 6, committed_so_far, tree_builder@);
            committed_so_far = tree_builder@;
            states = states.push(*feeds);
        }
        let blake = write_blake(self.blake, outputs.blake, tree_builder, feeds);
        proof {
            lemma_joined_step(start, lists, 7, committed_so_far, tree_builder@);
            committed_so_far = tree_builder@;
            states = states.push(*feeds);
        }
        let call = write_other(OtherOpcode::Call, self.call, outputs.call, tree_builder, feeds);
        proof {
            lemma_joined_step(start, lists, 8, committed_so_far, tree_builder@);
            committed_so_far = tree_builder@;
            states = states.push(*feeds);
        }
        let call_rel_imm = write_other(
            OtherOpcode::CallRelImm,
            self.call_rel_imm,
            outputs.call_rel_imm,
            tree_builder,
            feeds,
        );
        proof {
            lemma_joined_step(start, lists, 9, committed_so_far, tree_builder@);
            committed_so_far = tree_builder@;
            states = states.push(*feeds);
        }
        let generic = write_generic(self.generic, outputs.generic, tree_builder, feeds);
        proof {
            lemma_joined_step(start, lists, 10, committed_so_far, tree_builder@);
            committed_so_far = tree_builder@;
            states = states.push(*feeds);
        }
        let jnz = write_other(OtherOpcode::Jnz, self.jnz, outputs.jnz, tree_builder, feeds);
        proof {
            lemma_joined_step(start, lists, 11, committed_so_far, tree_builder@);
            committed_so_far = tree_builder@;
            states = states.push(*feeds);
        }
        let jnz_taken = write_other(
            OtherOpcode::JnzTaken,
            self.jnz_taken,
            outputs.jnz_taken,
            tree_builder,
            feeds,
        );
        proof {
            lemma_joined_step(start, lists, 12, committed_so_far, tree_builder@);
            committed_so_far = tree_builder@;
            states = states.push(*feeds);
        }
        let jump = write_jump(self.jump, outputs.jump, tree_builder, feeds);
        proof {
            lemma_joined_step(start, lists, 13, committed_so_far, tree_builder@);
            committed_so_far = tree_builder@;
            states = states.push(*feeds);
        }
        let jump_double_deref = write_jump_double_deref(
            self.jump_double_deref,
            outputs.jump_double_deref,
            tree_builder,
            feeds,
        );
        proof {
            lemma_joined_step(start, lists, 14, committed_so_far, tree_builder@);
            committed_so_far = tree_builder@;
            states = states.push(*feeds);
        }
        let jump_rel = write_other(
            OtherOpcode::JumpRel,
            self.jump_rel,
            outputs.jump_rel,
            tree_builder,
            feeds,
        );
        proof {
            lemma_joined_step(start, lists, 15, committed_so_far, tree_builder@);
            committed_so_far = tree_builder@;
            states = states.push(*feeds);
        }
        let jump_rel_imm = write_other(
            OtherOpcode::JumpRelImm,
            self.jump_rel_imm,
            outputs.jump_rel_imm,
            tree_builder,
            feeds,
        );
        proof {
            lemma_joined_step(start, lists, 16, committed_so_far, tree_builder@);
            committed_so_far = tree_builder@;
            states = states.push(*feeds);
        }
        let mul = write_mul(self.mul, outputs.mul, tree_builder, feeds);
        proof {
            lemma_joined_step(start, lists, 17, committed_so_far, tree_builder@);
            committed_so_far = tree_builder@;
            states = states.push(*feeds);
        }
        let mul_small = write_mul_small(self.mul_small, outputs.mul_small, tree_builder, feeds);
        proof {
            lemma_joined_step(start, lists, 18, committed_so_far, tree_builder@);
            committed_so_far = tree_builder@;
            states = states.push(*feeds);
        }
        let qm31 = write_other(OtherOpcode::Qm31, self.qm31, outputs.qm31, tree_builder, feeds);
        proof {
            lemma_joined_step(start, lists, 19, committed_so_far, tree_builder@);
            committed_so_far = tree_builder@;
            states = states.push(*feeds);
        }
        let ret = write_other(OtherOpcode::Ret, self.ret, outputs.ret, tree_builder, feeds);
        proof {
            lemma_joined_step(start, lists, 20, committed_so_far, tree_builder@);
            committed_so_far = tree_builder@;
            states = states.push(*feeds);
        }
        assert(are_steps(states, self, outputs));
        (
            OpcodeClaim {
                add: add.0,
                add_small: add_small.0,
                add_ap: add_ap.0,
                assert_eq: assert_eq.0,
                assert_eq_imm: assert_eq_imm.0,
                assert_eq_double_deref: assert_eq_double_deref.0,
                blake: blake.0,
                call: call.0,
                call_rel_imm: call_rel_imm.0,
                generic: generic.0,
                jnz: jnz.0,
                jnz_taken: jnz_taken.0,
                jump: jump.0,
                jump_double_deref: jump_double_deref.0,
                jump_rel: jump_rel.0,
                jump_rel_imm: jump_rel_imm.0,
                mul: mul.0,
                mul_small: mul_small.0,
                qm31: qm31.0,
                ret: ret.0,
            },
            OpcodesCudaInteractionClaimGenerator {
                add: add.1,
                add_small: add_small.1,
                add_ap: add_ap.1,
                assert_eq: assert_eq.1,
                assert_eq_imm: assert_eq_imm.1,
                assert_eq_double_deref: assert_eq_double_deref.1,
                blake: blake.1,
                call: call.1,
                call_rel_imm: call_rel_imm.1,
                generic: generic.1,
                jnz: jnz.1,
                jnz_taken: jnz_taken.1,
                jump: jump.1,
                jump_double_deref: jump_double_deref.1,
                jump_rel: jump_rel.1,
                jump_rel_imm: jump_rel_imm.1,
                mul: mul.1,
                mul_small: mul_small.1,
                qm31: qm31.1,
                ret: ret.1,
            },
        )
    }
}

/// Writes the interaction traces of the opcodes that the program used.
pub struct OpcodesCudaInteractionClaimGenerator {
    pub add: Option<PendingInteraction>,
    pub add_small: Option<PendingInteraction>,
    pub add_ap: Option<PendingInteraction>,
    pub assert_eq: Option<PendingInteraction>,
    pub assert_eq_imm: Option<PendingInteraction>,
    pub assert_eq_double_deref: Option<PendingInteraction>,
    pub blake: Option<blake_compress_opcode_cuda::CudaInteractionClaimGenerator>,
    pub call: Option<PendingInteraction>,
    pub call_rel_imm: Option<PendingInteraction>,
    pub generic: Option<generic_opcode_cuda::CudaInteractionClaimGenerator>,
    pub jnz: Option<PendingInteraction>,
    pub jnz_taken: Option<PendingInteraction>,
    pub jump: Option<jump_opcode_cuda::CudaInteractionClaimGenerator>,
    pub jump_double_deref: Option<jump_opcode_double_deref_cuda::CudaInteractionClaimGenerator>,
    pub jump_rel: Option<PendingInteraction>,
    pub jump_rel_imm: Option<PendingInteraction>,
    pub mul: Option<mul_opcode_cuda::CudaInteractionClaimGenerator>,
    pub mul_small: Option<mul_opcode_small_cuda::CudaInteractionClaimGenerator>,
    pub qm31: Option<PendingInteraction>,
    pub ret: Option<PendingInteraction>,
}

/// What the interaction kernels of the opcodes wrote.
pub struct OpcodeInteractionOutcomes {
    pub add: Option<InteractionOutcome>,
    pub add_small: Option<InteractionOutcome>,
    pub add_ap: Option<InteractionOutcome>,
    pub assert_eq: Option<InteractionOutcome>,
    pub assert_eq_imm: Option<InteractionOutcome>,
    pub assert_eq_double_deref: Option<InteractionOutcome>,
    pub blake: Option<InteractionOutcome>,
    pub call: Option<InteractionOutcome>,
    pub call_rel_imm: Option<InteractionOutcome>,
    pub generic: Option<InteractionOutcome>,
    pub jnz: Option<InteractionOutcome>,
    pub jnz_taken: Option<InteractionOutcome>,
    pub jump: Option<InteractionOutcome>,
    pub jump_double_deref: Option<InteractionOutcome>,
    pub jump_rel: Option<InteractionOutcome>,
    pub jump_rel_imm: Option<InteractionOutcome>,
    pub mul: Option<InteractionOutcome>,
    pub mul_small: Option<InteractionOutcome>,
    pub qm31: Option<InteractionOutcome>,
    pub ret: Option<InteractionOutcome>,
}

/// The interaction claims of the opcodes that the program used.
#[derive(Clone, Copy, Debug)]
pub struct OpcodeInteractionClaim {
    pub add: Option<InteractionClaim>,
    pub add_small: Option<InteractionClaim>,
    pub add_ap: Option<InteractionClaim>,
    pub assert_eq: Option<InteractionClaim>,
    pub assert_eq_imm: Option<InteractionClaim>,
    pub assert_eq_double_deref: Option<InteractionClaim>,
    pub blake: Option<InteractionClaim>,
    pub call: Option<InteractionClaim>,
    pub call_rel_imm: Option<InteractionClaim>,
    pub generic: Option<InteractionClaim>,
    pub jnz: Option<InteractionClaim>,
    pub jnz_taken: Option<InteractionClaim>,
    pub jump: Option<InteractionClaim>,
    pub jump_double_deref: Option<InteractionClaim>,
    pub jump_rel: Option<InteractionClaim>,
    pub jump_rel_imm: Option<InteractionClaim>,
    pub mul: Option<InteractionClaim>,
    pub mul_small: Option<InteractionClaim>,
    pub qm31: Option<InteractionClaim>,
    pub ret: Option<InteractionClaim>,
}

/// The outcome is claimed if the program used the opcode.
#[verifier::opaque]
pub open spec fn is_claimed(
    claim: Option<InteractionClaim>,
    used: bool,
    outcome: Option<InteractionOutcome>,
) -> bool {
    if used {
        outcome matches Some(o) && claim matches Some(c) && c.claimed_sum == secure_of(
            o.claimed_sum@,
        )
    } else {
        claim is None
    }
}

/// The outcome fits the trace of the opcode, if the program used it.
#[verifier::opaque]
pub open spec fn outcome_fits_other(
    gen: Option<PendingInteraction>,
    outcome: Option<InteractionOutcome>,
) -> bool {
    gen matches Some(g) ==> (outcome matches Some(o) && are_evaluations(
        columns(o.columns@),
        g.log_size,
    ))
}

/// The interaction columns that the opcode commits.
#[verifier::opaque]
pub open spec fn outcome_commits_other(
    gen: Option<PendingInteraction>,
    outcome: Option<InteractionOutcome>,
) -> Seq<Committed> {
    match (gen, outcome) {
        (Some(g), Some(o)) => committed(g.log_size, columns(o.columns@)),
        _ => Seq::empty(),
    }
}

fn interact_other(
    gen: Option<PendingInteraction>,
    outcome: Option<InteractionOutcome>,
    tree_builder: &mut TreeBuilder,
) -> (r: Option<InteractionClaim>)
    requires
        outcome_fits_other(gen, outcome),
    ensures
        is_claimed(r, gen is Some, outcome),
        final(tree_builder)@ == old(tree_builder)@ + outcome_commits_other(gen, outcome),
{
    proof {
        reveal(is_claimed);
        reveal(outcome_fits_other);
        reveal(outcome_commits_other);
    }
    match gen {
        Some(g) => {
            let o = outcome.unwrap();
            Some(g.write_interaction_trace(tree_builder, o.columns, o.claimed_sum))
        },
        None => None,
    }
}

/// The outcome fits the trace of the opcode, if the program used it.
#[verifier::opaque]
pub open spec fn outcome_fits_blake(
    gen: Option<blake_compress_opcode_cuda::CudaInteractionClaimGenerator>,
    outcome: Option<InteractionOutcome>,
) -> bool {
    gen matches Some(g) ==> (outcome matches Some(o) && g.wf() && is_shape(
        columns(o.columns@),
        4 * blake_compress_opcode_cuda::N_INTERACTION_TRACE_COLUMNS as nat,
        pow2(g.log_size as nat),
    ))
}

/// The interaction columns that the opcode commits.
#[verifier::opaque]
pub open spec fn outcome_commits_blake(
    gen: Option<blake_compress_opcode_cuda::CudaInteractionClaimGenerator>,
    outcome: Option<InteractionOutcome>,
) -> Seq<Committed> {
    match (gen, outcome) {
        (Some(g), Some(o)) => committed(g.log_size, columns(o.columns@)),
        _ => Seq::empty(),
    }
}

fn interact_blake(
    gen: Option<blake_compress_opcode_cuda::CudaInteractionClaimGenerator>,
    outcome: Option<InteractionOutcome>,
    tree_builder: &mut TreeBuilder,
) -> (r: Option<InteractionClaim>)
    requires
        outcome_fits_blake(gen, outcome),
    ensures
        is_claimed(r, gen is Some, outcome),
        final(tree_builder)@ == old(tree_builder)@ + outcome_commits_blake(gen, outcome),
{
    proof {
        reveal(is_claimed);
        reveal(outcome_fits_blake);
        reveal(outcome_commits_blake);
    }
    match gen {
        Some(g) => {
            let o = outcome.unwrap();
            Some(g.write_interaction_trace(tree_builder, o.columns, o.claimed_sum))
        },
        None => None,
    }
}

/// The outcome fits the trace of the opcode, if the program used it.
#[verifier::opaque]
pub open spec fn outcome_fits_generic(
    gen: Option<generic_opcode_cuda::CudaInteractionClaimGenerator>,
    outcome: Option<InteractionOutcome>,
) -> bool {
    gen matches Some(g) ==> (outcome matches Some(o) && g.wf() && is_shape(
        columns(o.columns@),
        4 * generic_opcode_cuda::N_INTERACTION_TRACE_COLUMNS as nat,
        pow2(g.log_size as nat),
    ))
}

/// The interaction columns that the opcode commits.
#[verifier::opaque]
pub open spec fn outcome_commits_generic(
    gen: Option<generic_opcode_cuda::CudaInteractionClaimGenerator>,
    outcome: Option<InteractionOutcome>,
) -> Seq<Committed> {
    match (gen, outcome) {
        (Some(g), Some(o)) => committed(g.log_size, columns(o.columns@)),
        _ => Seq::empty(),
    }
}

fn interact_generic(
    gen: Option<generic_opcode_cuda::CudaInteractionClaimGenerator>,
    outcome: Option<InteractionOutcome>,
    tree_builder: &mut TreeBuilder,
) -> (r: Option<InteractionClaim>)
    requires
        outcome_fits_generic(gen, outcome),
    ensures
        is_claimed(r, gen is Some, outcome),
        final(tree_builder)@ == old(tree_builder)@ + outcome_commits_generic(gen, outcome),
{
    proof {
        reveal(is_claimed);
        reveal(outcome_fits_generic);
        reveal(outcome_commits_generic);
    }
    match gen {
        Some(g) => {
            let o = outcome.unwrap();
            Some(g.write_interaction_trace(tree_builder, o.columns, o.claimed_sum))
        },
        None => None,
    }
}

/// The outcome fits the trace of the opcode, if the program used it.
#[verifier::opaque]
pub open spec fn outcome_fits_jump(
    gen: Option<jump_opcode_cuda::CudaInteractionClaimGenerator>,
    outcome: Option<InteractionOutcome>,
) -> bool {
    gen matches Some(g) ==> (outcome matches Some(o) && g.wf() && is_shape(
        columns(o.columns@),
        4 * jump_opcode_cuda::N_INTERACTION_TRACE_COLUMNS as nat,
        pow2(g.log_size as nat),
    ))
}

/// The interaction columns that the opcode commits.
#[verifier::opaque]
pub open spec fn outcome_commits_jump(
    gen: Option<jump_opcode_cuda::CudaInteractionClaimGenerator>,
    outcome: Option<InteractionOutcome>,
) -> Seq<Committed> {
    match (gen, outcome) {
        (Some(g), Some(o)) => committed(g.log_size, columns(o.columns@)),
        _ => Seq::empty(),
    }
}

fn interact_jump(
    gen: Option<jump_opcode_cuda::CudaInteractionClaimGenerator>,
    outcome: Option<InteractionOutcome>,
    tree_builder: &mut TreeBuilder,
) -> (r: Option<InteractionClaim>)
    requires
        outcome_fits_jump(gen, outcome),
    ensures
        is_claimed(r, gen is Some, outcome),
        final(tree_builder)@ == old(tree_builder)@ + outcome_commits_jump(gen, outcome),
{
    proof {
        reveal(is_claimed);
        reveal(outcome_fits_jump);
        reveal(outcome_commits_jump);
    }
    match gen {
        Some(g) => {
            let o = outcome.unwrap();
            Some(g.write_interaction_trace(tree_builder, o.columns, o.claimed_sum))
        },
        None => None,
    }
}

/// The outcome fits the trace of the opcode, if the program used it.
#[verifier::opaque]
pub open spec fn outcome_fits_jump_double_deref(
    gen: Option<jump_opcode_double_deref_cuda::CudaInteractionClaimGenerator>,
    outcome: Option<InteractionOutcome>,
) -> bool {
    gen matches Some(g) ==> (outcome matches Some(o) && g.wf() && is_shape(
        columns(o.columns@),
        4 * jump_opcode_double_deref_cuda::N_INTERACTION_TRACE_COLUMNS as nat,
        pow2(g.log_size as nat),
    ))
}

/// The interaction columns that the opcode commits.
#[verifier::opaque]
pub open spec fn outcome_commits_jump_double_deref(
    gen: Option<jump_opcode_double_deref_cuda::CudaInteractionClaimGenerator>,
    outcome: Option<InteractionOutcome>,
) -> Seq<Committed> {
    match (gen, outcome) {
        (Some(g), Some(o)) => committed(g.log_size, columns(o.columns@)),
        _ => Seq::empty(),
    }
}

fn interact_jump_double_deref(
    gen: Option<jump_opcode_double_deref_cuda::CudaInteractionClaimGenerator>,
    outcome: Option<InteractionOutcome>,
    tree_builder: &mut TreeBuilder,
) -> (r: Option<InteractionClaim>)
    requires
        outcome_fits_jump_double_deref(gen, outcome),
    ensures
        is_claimed(r, gen is Some, outcome),
        final(tree_builder)@ == old(tree_builder)@ + outcome_commits_jump_double_deref(
            gen,
            outcome,
        ),
{
    proof {
        reveal(is_claimed);
        reveal(outcome_fits_jump_double_deref);
        reveal(outcome_commits_jump_double_deref);
    }
    match gen {
        Some(g) => {
            let o = outcome.unwrap();
            Some(g.write_interaction_trace(tree_builder, o.columns, o.claimed_sum))
        },
        None => None,
    }
}

/// The outcome fits the trace of the opcode, if the program used it.
#[verifier::opaque]
pub open spec fn outcome_fits_mul(
    gen: Option<mul_opcode_cuda::CudaInteractionClaimGenerator>,
    outcome: Option<InteractionOutcome>,
) -> bool {
    gen matches Some(g) ==> (outcome matches Some(o) && g.wf() && is_shape(
        columns(o.columns@),
        4 * mul_opcode_cuda::N_INTERACTION_TRACE_COLUMNS as nat,
        pow2(g.log_size as nat),
    ))
}

/// The interaction columns that the opcode commits.
#[verifier::opaque]
pub open spec fn outcome_commits_mul(
    gen: Option<mul_opcode_cuda::CudaInteractionClaimGenerator>,
    outcome: Option<InteractionOutcome>,
) -> Seq<Committed> {
    match (gen, outcome) {
        (Some(g), Some(o)) => committed(g.log_size, columns(o.columns@)),
        _ => Seq::empty(),
    }
}

fn interact_mul(
    gen: Option<mul_opcode_cuda::CudaInteractionClaimGenerator>,
    outcome: Option<InteractionOutcome>,
    tree_builder: &mut TreeBuilder,
) -> (r: Option<InteractionClaim>)
    requires
        outcome_fits_mul(gen, outcome),
    ensures
        is_claimed(r, gen is Some, outcome),
        final(tree_builder)@ == old(tree_builder)@ + outcome_commits_mul(gen, outcome),
{
    proof {
        reveal(is_claimed);
        reveal(outcome_fits_mul);
        reveal(outcome_commits_mul);
    }
    match gen {
        Some(g) => {
            let o = outcome.unwrap();
            Some(g.write_interaction_trace(tree_builder, o.columns, o.claimed_sum))
        },
        None => None,
    }
}

/// The outcome fits the trace of the opcode, if the program used it.
#[verifier::opaque]
pub open spec fn outcome_fits_mul_small(
    gen: Option<mul_opcode_small_cuda::CudaInteractionClaimGenerator>,
    outcome: Option<InteractionOutcome>,
) -> bool {
    gen matches Some(g) ==> (outcome matches Some(o) && g.wf() && is_shape(
        columns(o.columns@),
        4 * mul_opcode_small_cuda::N_INTERACTION_TRACE_COLUMNS as nat,
        pow2(g.log_size as nat),
    ))
}

/// The interaction columns that the opcode commits.
#[verifier::opaque]
pub open spec fn outcome_commits_mul_small(
    gen: Option<mul_opcode_small_cuda::CudaInteractionClaimGenerator>,
    outcome: Option<InteractionOutcome>,
) -> Seq<Committed> {
    match (gen, outcome) {
        (Some(g), Some(o)) => committed(g.log_size, columns(o.columns@)),
        _ => Seq::empty(),
    }
}

fn interact_mul_small(
    gen: Option<mul_opcode_small_cuda::CudaInteractionClaimGenerator>,
    outcome: Option<InteractionOutcome>,
    tree_builder: &mut TreeBuilder,
) -> (r: Option<InteractionClaim>)
    requires
        outcome_fits_mul_small(gen, outcome),
    ensures
        is_claimed(r, gen is Some, outcome),
        final(tree_builder)@ == old(tree_builder)@ + outcome_commits_mul_small(gen, outcome),
{
    proof {
        reveal(is_claimed);
        reveal(outcome_fits_mul_small);
        reveal(outcome_commits_mul_small);
    }
    match gen {
        Some(g) => {
            let o = outcome.unwrap();
            Some(g.write_interaction_trace(tree_builder, o.columns, o.claimed_sum))
        },
        None => None,
    }
}

/// The interaction columns of all opcodes, in their order.
pub open spec fn all_outcome_commits(
    gens: OpcodesCudaInteractionClaimGenerator,
    outcomes: OpcodeInteractionOutcomes,
) -> Seq<Seq<Committed>> {
    seq![
        outcome_commits_other(gens.add, outcomes.add),
        outcome_commits_other(gens.add_small, outcomes.add_small),
        outcome_commits_other(gens.add_ap, outcomes.add_ap),
        outcome_commits_other(gens.assert_eq, outcomes.assert_eq),
        outcome_commits_other(gens.assert_eq_imm, outcomes.assert_eq_imm),
        outcome_commits_other(gens.assert_eq_double_deref, outcomes.assert_eq_double_deref),
        outcome_commits_blake(gens.blake, outcomes.blake),
        outcome_commits_other(gens.call, outcomes.call),
        outcome_commits_other(gens.call_rel_imm, outcomes.call_rel_imm),
        outcome_commits_generic(gens.generic, outcomes.generic),
        outcome_commits_other(gens.jnz, outcomes.jnz),
        outcome_commits_other(gens.jnz_taken, outcomes.jnz_taken),
        outcome_commits_jump(gens.jump, outcomes.jump),
        outcome_commits_jump_double_deref(gens.jump_double_deref, outcomes.jump_double_deref),
        outcome_commits_other(gens.jump_rel, outcomes.jump_rel),
        outcome_commits_other(gens.jump_rel_imm, outcomes.jump_rel_imm),
        outcome_commits_mul(gens.mul, outcomes.mul),
        outcome_commits_mul_small(gens.mul_small, outcomes.mul_small),
        outcome_commits_other(gens.qm31, outcomes.qm31),
        outcome_commits_other(gens.ret, outcomes.ret),
    ]
}

impl OpcodesCudaInteractionClaimGenerator {
    /// Every opcode that the program used has an outcome that fits its trace.
    pub open spec fn accepts(self, outcomes: OpcodeInteractionOutcomes) -> bool {
        &&& outcome_fits_other(self.add, outcomes.add)
        &&& outcome_fits_other(self.add_small, outcomes.add_small)
        &&& outcome_fits_other(self.add_ap, outcomes.add_ap)
        &&& outcome_fits_other(self.assert_eq, outcomes.assert_eq)
        &&& outcome_fits_other(self.assert_eq_imm, outcomes.assert_eq_imm)
        &&& outcome_fits_other(self.assert_eq_double_deref, outcomes.assert_eq_double_deref)
        &&& outcome_fits_blake(self.blake, outcomes.blake)
        &&& outcome_fits_other(self.call, outcomes.call)
        &&& outcome_fits_other(self.call_rel_imm, outcomes.call_rel_imm)
        &&& outcome_fits_generic(self.generic, outcomes.generic)
        &&& outcome_fits_other(self.jnz, outcomes.jnz)
        &&& outcome_fits_other(self.jnz_taken, outcomes.jnz_taken)
        &&& outcome_fits_jump(self.jump, outcomes.jump)
        &&& outcome_fits_jump_double_deref(self.jump_double_deref, outcomes.jump_double_deref)
        &&& outcome_fits_other(self.jump_rel, outcomes.jump_rel)
        &&& outcome_fits_other(self.jump_rel_imm, outcomes.jump_rel_imm)
        &&& outcome_fits_mul(self.mul, outcomes.mul)
        &&& outcome_fits_mul_small(self.mul_small, outcomes.mul_small)
        &&& outcome_fits_other(self.qm31, outcomes.qm31)
        &&& outcome_fits_other(self.ret, outcomes.ret)
    }

    /// Commits the interaction traces of the opcodes that the program used, in the order of the
    /// opcodes.
    pub fn write_interaction_trace(
        self,
        tree_builder: &mut TreeBuilder,
        outcomes: OpcodeInteractionOutcomes,
    ) -> (r: OpcodeInteractionClaim)
        requires
            self.accepts(outcomes),
        ensures
            is_claimed(r.add, self.add is Some, outcomes.add),
            is_claimed(r.add_small, self.add_small is Some, outcomes.add_small),
            is_claimed(r.add_ap, self.add_ap is Some, outcomes.add_ap),
            is_claimed(r.assert_eq, self.assert_eq is Some, outcomes.assert_eq),
            is_claimed(r.assert_eq_imm, self.assert_eq_imm is Some, outcomes.assert_eq_imm),
            is_claimed(
                r.assert_eq_double_deref,
                self.assert_eq_double_deref is Some,
                outcomes.assert_eq_double_deref,
            ),
            is_claimed(r.blake, self.blake is Some, outcomes.blake),
            is_claimed(r.call, self.call is Some, outcomes.call),
            is_claimed(r.call_rel_imm, self.call_rel_imm is Some, outcomes.call_rel_imm),
            is_claimed(r.generic, self.generic is Some, outcomes.generic),
            is_claimed(r.jnz, self.jnz is Some, outcomes.jnz),
            is_claimed(r.jnz_taken, self.jnz_taken is Some, outcomes.jnz_taken),
            is_claimed(r.jump, self.jump is Some, outcomes.jump),
            is_claimed(
                r.jump_double_deref,
                self.jump_double_deref is Some,
                outcomes.jump_double_deref,
            ),
            is_claimed(r.jump_rel, self.jump_rel is Some, outcomes.jump_rel),
            is_claimed(r.jump_rel_imm, self.jump_rel_imm is Some, outcomes.jump_rel_imm),
            is_claimed(r.mul, self.mul is Some, outcomes.mul),
            is_claimed(r.mul_small, self.mul_small is Some, outcomes.mul_small),
            is_claimed(r.qm31, self.qm31 is Some, outcomes.qm31),
            is_claimed(r.ret, self.ret is Some, outcomes.ret),
            final(tree_builder)@ == old(tree_builder)@ + joined(
                all_outcome_commits(self, outcomes),
                20,
            ),
    {
        let ghost start = tree_builder@;
        let ghost lists = all_outcome_commits(self, outcomes);
        let ghost mut committed_so_far = tree_builder@;
        proof {
            lemma_joined_none(start, lists);
        }
        let add = interact_other(self.add, outcomes.add, tree_builder);
        proof {
            lemma_joined_step(start, lists, 1, committed_so_far, tree_builder@);
            committed_so_far = tree_builder@;
        }
        let add_small = interact_other(self.add_small, outcomes.add_small, tree_builder);
        proof {
            lemma_joined_step(start, lists, 2, committed_so_far, tree_builder@);
            committed_so_far = tree_builder@;
        }
        let add_ap = interact_other(self.add_ap, outcomes.add_ap, tree_builder);
        proof {
            lemma_joined_step(start, lists, 3, committed_so_far, tree_builder@);
            committed_so_far = tree_builder@;
        }
        let assert_eq = interact_other(self.assert_eq, outcomes.assert_eq, tree_builder);
        proof {
            lemma_joined_step(start, lists, 4, committed_so_far, tree_builder@);
            committed_so_far = tree_builder@;
        }
        let assert_eq_imm = interact_other(
            self.assert_eq_imm,
            outcomes.assert_eq_imm,
            tree_builder,
        );
        proof {
            lemma_joined_step(start, lists, 5, committed_so_far, tree_builder@);
            committed_so_far = tree_builder@;
        }
        let assert_eq_double_deref = interact_other(
            self.assert_eq_double_deref,
            outcomes.assert_eq_double_deref,
            tree_builder,
        );
        proof {
            lemma_joined_step(start, lists, 6, committed_so_far, tree_builder@);
            committed_so_far = tree_builder@;
        }
        let blake = interact_blake(self.blake, outcomes.blake, tree_builder);
        proof {
            lemma_joined_step(start, lists, 7, committed_so_far, tree_builder@);
            committed_so_far = tree_builder@;
        }
        let call = interact_other(self.call, outcomes.call, tree_builder);
        proof {
            lemma_joined_step(start, lists, 8, committed_so_far, tree_builder@);
            committed_so_far = tree_builder@;
        }
        let call_rel_imm = interact_other(self.call_rel_imm, outcomes.call_rel_imm, tree_builder);
        proof {
            lemma_joined_step(start, lists, 9, committed_so_far, tree_builder@);
            committed_so_far = tree_builder@;
        }
        let generic = interact_generic(self.generic, outcomes.generic, tree_builder);
        proof {
            lemma_joined_step(start, lists, 10, committed_so_far, tree_builder@);
            committed_so_far = tree_builder@;
        }
        let jnz = interact_other(self.jnz, outcomes.jnz, tree_builder);
        proof {
            lemma_joined_step(start, lists, 11, committed_so_far, tree_builder@);
            committed_so_far = tree_builder@;
        }
        let jnz_taken = interact_other(self.jnz_taken, outcomes.jnz_taken, tree_builder);
        proof {
            lemma_joined_step(start, lists, 12, committed_so_far, tree_builder@);
            committed_so_far = tree_builder@;
        }
        let jump = interact_jump(self.jump, outcomes.jump, tree_builder);
        proof {
            lemma_joined_step(start, lists, 13, committed_so_far, tree_builder@);
            committed_so_far = tree_builder@;
        }
        let jump_double_deref = interact_jump_double_deref(
            self.jump_double_deref,
            outcomes.jump_double_deref,
            tree_builder,
        );
        proof {
            lemma_joined_step(start, lists, 14, committed_so_far, tree_builder@);
            committed_so_far = tree_builder@;
        }
        let jump_rel = interact_other(self.jump_rel, outcomes.jump_rel, tree_builder);
        proof {
            lemma_joined_step(start, lists, 15, committed_so_far, tree_builder@);
            committed_so_far = tree_builder@;
        }
        let jump_rel_imm = interact_other(self.jump_rel_imm, outcomes.jump_rel_imm, tree_builder);
        proof {
            lemma_joined_step(start, lists, 16, committed_so_far, tree_builder@);
            committed_so_far = tree_builder@;
        }
        let mul = interact_mul(self.mul, outcomes.mul, tree_builder);
        proof {
            lemma_joined_step(start, lists, 17, committed_so_far, tree_builder@);
            committed_so_far = tree_builder@;
        }
        let mul_small = interact_mul_small(self.mul_small, outcomes.mul_small, tree_builder);
        proof {
            lemma_joined_step(start, lists, 18, committed_so_far, tree_builder@);
            committed_so_far = tree_builder@;
        }
        let qm31 = interact_other(self.qm31, outcomes.qm31, tree_builder);
        proof {
            lemma_joined_step(start, lists, 19, committed_so_far, tree_builder@);
            committed_so_far = tree_builder@;
        }
        let ret = interact_other(self.ret, outcomes.ret, tree_builder);
        proof {
            lemma_joined_step(start, lists, 20, committed_so_far, tree_builder@);
            committed_so_far = tree_builder@;
        }
        OpcodeInteractionClaim {
            add,
            add_small,
            add_ap,
            assert_eq,
            assert_eq_imm,
            assert_eq_double_deref,
            blake,
            call,
            call_rel_imm,
            generic,
            jnz,
            jnz_taken,
            jump,
            jump_double_deref,
            jump_rel,
            jump_rel_imm,
            mul,
            mul_small,
            qm31,
            ret,
        }
    }
}

/// An opcode, whose buffers are laid out elsewhere, is handed the values of the host's memory where
/// its interaction kernel is handed the relation of the values, and it feeds a table where its
/// kernel is handed the table's relation. All look up instructions, addresses and states, and none
/// is handed a relation twice.
pub proof fn law_other_opcodes_feed_what_they_look_up(opcode: OtherOpcode)
    ensures
        opcode.relations().contains(Relation::VerifyInstruction),
        opcode.relations().contains(Relation::MemoryAddressToId),
        opcode.relations().contains(Relation::Opcodes),
        opcode.is_handed_host_values() <==> opcode.relations().contains(
            Relation::MemoryIdToValue,
        ),
        opcode == OtherOpcode::AddAp <==> opcode.relations().contains(Relation::RangeCheck11),
        opcode == OtherOpcode::AddAp <==> opcode.relations().contains(Relation::RangeCheck18),
        opcode == OtherOpcode::Qm31 <==> opcode.relations().contains(Relation::RangeCheck4444),
        opcode.relations().no_duplicates(),
{
    let relations = opcode.relations();
    assert(relations[0] == Relation::VerifyInstruction || relations[0]
        == Relation::MemoryAddressToId);
    assert(relations[1] == relations[1] && relations[2] == relations[2]);
    assert(relations.len() > 3 ==> relations[3] == relations[3]);
    assert(relations.len() > 4 ==> relations[4] == relations[4]);
    assert(relations.len() > 5 ==> relations[5] == relations[5]);
}

/// What an opcode feeds the memory and the instructions with.
pub struct MemoryFeed {
    pub instructions: Seq<Seq<Seq<u32>>>,
    pub addresses: Seq<Seq<Seq<u32>>>,
    pub ids: Seq<Seq<Seq<u32>>>,
}

/// Nothing is fed.
pub open spec fn no_feed() -> MemoryFeed {
    MemoryFeed { instructions: Seq::empty(), addresses: Seq::empty(), ids: Seq::empty() }
}

/// What the kernel of an opcode that the program used wrote into the first three of its groups:
/// instructions, addresses, and identifiers.
pub open spec fn feed_of_buffers(used: bool, buffers: Option<TraceBuffers>) -> MemoryFeed {
    match buffers {
        Some(b) if used => MemoryFeed {
            instructions: groups(b.sub_inputs@)[0],
            addresses: groups(b.sub_inputs@)[1],
            ids: groups(b.sub_inputs@)[2],
        },
        _ => no_feed(),
    }
}

/// What the output of an opcode that the program used holds for the memory and the instructions.
pub open spec fn feed_of_output(used: bool, output: Option<OpcodeOutput>) -> MemoryFeed {
    match output {
        Some(o) if used => MemoryFeed {
            instructions: batches(o.verify_instruction@),
            addresses: batches(o.memory_address_to_id@),
            ids: batches(o.memory_id_to_big@),
        },
        _ => no_feed(),
    }
}

/// What all opcodes feed, in their order.
pub open spec fn all_feeds(
    gens: OpcodesCudaClaimGenerator,
    outputs: OpcodeOutputs,
) -> Seq<MemoryFeed> {
    seq![
        feed_of_output(gens.add is Some, outputs.add),
        feed_of_output(gens.add_small is Some, outputs.add_small),
        feed_of_output(gens.add_ap is Some, outputs.add_ap),
        feed_of_output(gens.assert_eq is Some, outputs.assert_eq),
        feed_of_output(gens.assert_eq_imm is Some, outputs.assert_eq_imm),
        feed_of_output(gens.assert_eq_double_deref is Some, outputs.assert_eq_double_deref),
        feed_of_buffers(gens.blake is Some, outputs.blake),
        feed_of_output(gens.call is Some, outputs.call),
        feed_of_output(gens.call_rel_imm is Some, outputs.call_rel_imm),
        feed_of_buffers(gens.generic is Some, outputs.generic),
        feed_of_output(gens.jnz is Some, outputs.jnz),
        feed_of_output(gens.jnz_taken is Some, outputs.jnz_taken),
        feed_of_buffers(gens.jump is Some, outputs.jump),
        feed_of_buffers(gens.jump_double_deref is Some, outputs.jump_double_deref),
        feed_of_output(gens.jump_rel is Some, outputs.jump_rel),
        feed_of_output(gens.jump_rel_imm is Some, outputs.jump_rel_imm),
        feed_of_buffers(gens.mul is Some, outputs.mul),
        feed_of_buffers(gens.mul_small is Some, outputs.mul_small),
        feed_of_output(gens.qm31 is Some, outputs.qm31),
        feed_of_output(gens.ret is Some, outputs.ret),
    ]
}

/// The first `n` feeds, one after the other.
#[verifier::opaque]
pub open spec fn joined_feeds(feeds: Seq<MemoryFeed>, n: int) -> MemoryFeed
    decreases n,
{
    if n <= 0 {
        no_feed()
    } else {
        let before = joined_feeds(feeds, n - 1);
        MemoryFeed {
            instructions: before.instructions + feeds[n - 1].instructions,
            addresses: before.addresses + feeds[n - 1].addresses,
            ids: before.ids + feeds[n - 1].ids,
        }
    }
}

/// The memory and the instructions were fed.
#[verifier::opaque]
pub open spec fn is_fed(before: OpcodeFeeds, after: OpcodeFeeds, feed: MemoryFeed) -> bool {
    fed_memory(before, after, feed.instructions, feed.addresses, feed.ids)
}

proof fn lemma_nothing_is_fed(feeds: OpcodeFeeds, more: Seq<MemoryFeed>)
    ensures
        is_fed(feeds, feeds, no_feed()),
        joined_feeds(more, 0) == no_feed(),
{
    reveal(is_fed);
    reveal(joined_feeds);
    let m = feeds.verify_instruction@;
    let again = counted_lookups(m, |pc: u32| lookups_of(no_feed().instructions, pc) as int);
    assert forall|pc: u32| #[trigger] m.contains_key(pc) implies again[pc] == m[pc] by {
        vstd::arithmetic::div_mod::lemma_small_mod(m[pc].1 as nat, 0x1_0000_0000);
    }
    assert(again =~= m);
    assert(feeds.memory_address_to_id@ + no_feed().addresses =~= feeds.memory_address_to_id@);
    assert(feeds.memory_id_to_big@ + no_feed().ids =~= feeds.memory_id_to_big@);
}

proof fn lemma_feeds_follow(
    start: OpcodeFeeds,
    before: OpcodeFeeds,
    after: OpcodeFeeds,
    feeds: Seq<MemoryFeed>,
    n: int,
)
    requires
        0 < n,
        is_fed(start, before, joined_feeds(feeds, n - 1)),
        is_fed(before, after, feeds[n - 1]),
    ensures
        is_fed(start, after, joined_feeds(feeds, n)),
{
    reveal(is_fed);
    reveal(joined_feeds);
    let first = joined_feeds(feeds, n - 1);
    let next = feeds[n - 1];
    let both = joined_feeds(feeds, n);
    let m = start.verify_instruction@;
    let counted_first = counted_lookups(m, |pc: u32| lookups_of(first.instructions, pc) as int);
    let counted_next = counted_lookups(
        counted_first,
        |pc: u32| lookups_of(next.instructions, pc) as int,
    );
    let counted_both = counted_lookups(m, |pc: u32| lookups_of(both.instructions, pc) as int);
    assert forall|pc: u32| #[trigger] m.contains_key(pc) implies counted_next[pc]
        == counted_both[pc] by {
        law_lookups_are_counted_by_place(
            first.instructions,
            next.instructions,
            Seq::empty(),
            pc,
            pc,
        );
        lemma_wrapped_twice(
            m[pc].1 as int,
            lookups_of(first.instructions, pc) as int,
            lookups_of(next.instructions, pc) as int,
        );
    }
    assert(counted_next =~= counted_both);
    assert(start.memory_address_to_id@ + both.addresses =~= start.memory_address_to_id@
        + first.addresses + next.addresses);
    assert(start.memory_id_to_big@ + both.ids =~= start.memory_id_to_big@ + first.ids + next.ids);
}

proof fn lemma_step_other_feeds(
    opcode: OtherOpcode,
    gen: Option<StateInputs>,
    output: Option<OpcodeOutput>,
    before: OpcodeFeeds,
    after: OpcodeFeeds,
)
    requires
        step_other(opcode, gen, output, before, after),
    ensures
        is_fed(before, after, feed_of_output(gen is Some, output)),
{
    reveal(step_other);
    reveal(fed_by_other);
    lemma_nothing_is_fed(before, Seq::empty());
    reveal(is_fed);
}

proof fn lemma_step_blake_feeds(
    gen: Option<blake_compress_opcode_cuda::CudaClaimGenerator>,
    buffers: Option<TraceBuffers>,
    before: OpcodeFeeds,
    after: OpcodeFeeds,
)
    requires
        step_blake(gen, buffers, before, after),
    ensures
        is_fed(before, after, feed_of_buffers(gen is Some, buffers)),
{
    reveal(step_blake);
    reveal(fed_by_blake);
    lemma_nothing_is_fed(before, Seq::empty());
    reveal(is_fed);
}

proof fn lemma_step_generic_feeds(
    gen: Option<generic_opcode_cuda::CudaClaimGenerator>,
    buffers: Option<TraceBuffers>,
    before: OpcodeFeeds,
    after: OpcodeFeeds,
)
    requires
        step_generic(gen, buffers, before, after),
    ensures
        is_fed(before, after, feed_of_buffers(gen is Some, buffers)),
{
    reveal(step_generic);
    reveal(fed_by_generic);
    lemma_nothing_is_fed(before, Seq::empty());
    reveal(is_fed);
}

proof fn lemma_step_jump_feeds(
    gen: Option<jump_opcode_cuda::CudaClaimGenerator>,
    buffers: Option<TraceBuffers>,
    before: OpcodeFeeds,
    after: OpcodeFeeds,
)
    requires
        step_jump(gen, buffers, before, after),
    ensures
        is_fed(before, after, feed_of_buffers(gen is Some, buffers)),
{
    reveal(step_jump);
    reveal(fed_by_jump);
    lemma_nothing_is_fed(before, Seq::empty());
    reveal(is_fed);
}

proof fn lemma_step_jump_double_deref_feeds(
    gen: Option<jump_opcode_double_deref_cuda::CudaClaimGenerator>,
    buffers: Option<TraceBuffers>,
    before: OpcodeFeeds,
    after: OpcodeFeeds,
)
    requires
        step_jump_double_deref(gen, buffers, before, after),
    ensures
        is_fed(before, after, feed_of_buffers(gen is Some, buffers)),
{
    reveal(step_jump_double_deref);
    reveal(fed_by_jump_double_deref);
    lemma_nothing_is_fed(before, Seq::empty());
    reveal(is_fed);
}

proof fn lemma_step_mul_feeds(
    gen: Option<mul_opcode_cuda::CudaClaimGenerator>,
    buffers: Option<TraceBuffers>,
    before: OpcodeFeeds,
    after: OpcodeFeeds,
)
    requires
        step_mul(gen, buffers, before, after),
    ensures
        is_fed(before, after, feed_of_buffers(gen is Some, buffers)),
{
    reveal(step_mul);
    reveal(fed_by_mul);
    lemma_nothing_is_fed(before, Seq::empty());
    reveal(is_fed);
}

proof fn lemma_step_mul_small_feeds(
    gen: Option<mul_opcode_small_cuda::CudaClaimGenerator>,
    buffers: Option<TraceBuffers>,
    before: OpcodeFeeds,
    after: OpcodeFeeds,
)
    requires
        step_mul_small(gen, buffers, before, after),
    ensures
        is_fed(before, after, feed_of_buffers(gen is Some, buffers)),
{
    reveal(step_mul_small);
    reveal(fed_by_mul_small);
    lemma_nothing_is_fed(before, Seq::empty());
    reveal(is_fed);
}

/// The opcodes that the program used, and no others, feed the memory and the instructions, one
/// opcode after the other: every address and every identifier goes to the memory once and in order,
/// and every instruction is counted once for each lookup.
pub proof fn law_opcodes_feed_memory_in_order(
    states: Seq<OpcodeFeeds>,
    gens: OpcodesCudaClaimGenerator,
    outputs: OpcodeOutputs,
)
    requires
        are_steps(states, gens, outputs),
    ensures
        is_fed(states[0], states[20], joined_feeds(all_feeds(gens, outputs), 20)),
{
    let feeds = all_feeds(gens, outputs);
    let start = states[0];
    lemma_nothing_is_fed(start, feeds);
    lemma_step_other_feeds(OtherOpcode::Add, gens.add, outputs.add, states[0], states[1]);
    lemma_feeds_follow(start, states[0], states[1], feeds, 1);
    lemma_step_other_feeds(
        OtherOpcode::AddSmall,
        gens.add_small,
        outputs.add_small,
        states[1],
        states[2],
    );
    lemma_feeds_follow(start, states[1], states[2], feeds, 2);
    lemma_step_other_feeds(OtherOpcode::AddAp, gens.add_ap, outputs.add_ap, states[2], states[3]);
    lemma_feeds_follow(start, states[2], states[3], feeds, 3);
    lemma_step_other_feeds(
        OtherOpcode::AssertEq,
        gens.assert_eq,
        outputs.assert_eq,
        states[3],
        states[4],
    );
    lemma_feeds_follow(start, states[3], states[4], feeds, 4);
    lemma_step_other_feeds(
        OtherOpcode::AssertEqImm,
        gens.assert_eq_imm,
        outputs.assert_eq_imm,
        states[4],
        states[5],
    );
    lemma_feeds_follow(start, states[4], states[5], feeds, 5);
    lemma_step_other_feeds(
        OtherOpcode::AssertEqDoubleDeref,
        gens.assert_eq_double_deref,
        outputs.assert_eq_double_deref,
        states[5],
        states[6],
    );
    lemma_feeds_follow(start, states[5], states[6], feeds, 6);
    lemma_step_blake_feeds(gens.blake, outputs.blake, states[6], states[7]);
    lemma_feeds_follow(start, states[6], states[7], feeds, 7);
    lemma_step_other_feeds(OtherOpcode::Call, gens.call, outputs.call, states[7], states[8]);
    lemma_feeds_follow(start, states[7], states[8], feeds, 8);
    lemma_step_other_feeds(
        OtherOpcode::CallRelImm,
        gens.call_rel_imm,
        outputs.call_rel_imm,
        states[8],
        states[9],
    );
    lemma_feeds_follow(start, states[8], states[9], feeds, 9);
    lemma_step_generic_feeds(gens.generic, outputs.generic, states[9], states[10]);
    lemma_feeds_follow(start, states[9], states[10], feeds, 10);
    lemma_step_other_feeds(OtherOpcode::Jnz, gens.jnz, outputs.jnz, states[10], states[11]);
    lemma_feeds_follow(start, states[10], states[11], feeds, 11);
    lemma_step_other_feeds(
        OtherOpcode::JnzTaken,
        gens.jnz_taken,
        outputs.jnz_taken,
        states[11],
        states[12],
    );
    lemma_feeds_follow(start, states[11], states[12], feeds, 12);
    lemma_step_jump_feeds(gens.jump, outputs.jump, states[12], states[13]);
    lemma_feeds_follow(start, states[12], states[13], feeds, 13);
    lemma_step_jump_double_deref_feeds(
        gens.jump_double_deref,
        outputs.jump_double_deref,
        states[13],
        states[14],
    );
    lemma_feeds_follow(start, states[13], states[14], feeds, 14);
    lemma_step_other_feeds(
        OtherOpcode::JumpRel,
        gens.jump_rel,
        outputs.jump_rel,
        states[14],
        states[15],
    );
    lemma_feeds_follow(start, states[14], states[15], feeds, 15);
    lemma_step_other_feeds(
        OtherOpcode::JumpRelImm,
        gens.jump_rel_imm,
        outputs.jump_rel_imm,
        states[15],
        states[16],
    );
    lemma_feeds_follow(start, states[15], states[16], feeds, 16);
    lemma_step_mul_feeds(gens.mul, outputs.mul, states[16], states[17]);
    lemma_feeds_follow(start, states[16], states[17], feeds, 17);
    lemma_step_mul_small_feeds(gens.mul_small, outputs.mul_small, states[17], states[18]);
    lemma_feeds_follow(start, states[17], states[18], feeds, 18);
    lemma_step_other_feeds(OtherOpcode::Qm31, gens.qm31, outputs.qm31, states[18], states[19]);
    lemma_feeds_follow(start, states[18], states[19], feeds, 19);
    lemma_step_other_feeds(OtherOpcode::Ret, gens.ret, outputs.ret, states[19], states[20]);
    lemma_feeds_follow(start, states[19], states[20], feeds, 20);
}

/// The traces of the opcodes stand one behind the other, each opcode's behind those of all opcodes
/// named before it.
pub proof fn law_traces_are_committed_in_order(
    gens: OpcodesCudaClaimGenerator,
    outputs: OpcodeOutputs,
    n: int,
)
    requires
        0 <= n < 20,
    ensures
        all_commits(gens, outputs).len() == 20,
        joined(all_commits(gens, outputs), 0) == Seq::<Committed>::empty(),
        joined(all_commits(gens, outputs), n + 1) == joined(all_commits(gens, outputs), n)
            + all_commits(gens, outputs)[n],
        all_commits(gens, outputs)[0] == commits_of_other(gens.add, outputs.add),
        all_commits(gens, outputs)[1] == commits_of_other(gens.add_small, outputs.add_small),
        all_commits(gens, outputs)[2] == commits_of_other(gens.add_ap, outputs.add_ap),
        all_commits(gens, outputs)[3] == commits_of_other(gens.assert_eq, outputs.assert_eq),
        all_commits(gens, outputs)[4] == commits_of_other(
            gens.assert_eq_imm,
            outputs.assert_eq_imm,
        ),
        all_commits(gens, outputs)[5] == commits_of_other(
            gens.assert_eq_double_deref,
            outputs.assert_eq_double_deref,
        ),
        all_commits(gens, outputs)[6] == commits_of_blake(gens.blake, outputs.blake),
        all_commits(gens, outputs)[7] == commits_of_other(gens.call, outputs.call),
        all_commits(gens, outputs)[8] == commits_of_other(gens.call_rel_imm, outputs.call_rel_imm),
        all_commits(gens, outputs)[9] == commits_of_generic(gens.generic, outputs.generic),
        all_commits(gens, outputs)[10] == commits_of_other(gens.jnz, outputs.jnz),
        all_commits(gens, outputs)[11] == commits_of_other(gens.jnz_taken, outputs.jnz_taken),
        all_commits(gens, outputs)[12] == commits_of_jump(gens.jump, outputs.jump),
        all_commits(gens, outputs)[13] == commits_of_jump_double_deref(
            gens.jump_double_deref,
            outputs.jump_double_deref,
        ),
        all_commits(gens, outputs)[14] == commits_of_other(gens.jump_rel, outputs.jump_rel),
        all_commits(gens, outputs)[15] == commits_of_other(gens.jump_rel_imm, outputs.jump_rel_imm),
        all_commits(gens, outputs)[16] == commits_of_mul(gens.mul, outputs.mul),
        all_commits(gens, outputs)[17] == commits_of_mul_small(gens.mul_small, outputs.mul_small),
        all_commits(gens, outputs)[18] == commits_of_other(gens.qm31, outputs.qm31),
        all_commits(gens, outputs)[19] == commits_of_other(gens.ret, outputs.ret),
{
    reveal(joined);
}

/// The interaction traces of the opcodes stand in the order of their traces.
pub proof fn law_interaction_traces_are_committed_in_order(
    gens: OpcodesCudaInteractionClaimGenerator,
    outcomes: OpcodeInteractionOutcomes,
    n: int,
)
    requires
        0 <= n < 20,
    ensures
        all_outcome_commits(gens, outcomes).len() == 20,
        joined(all_outcome_commits(gens, outcomes), n + 1) == joined(
            all_outcome_commits(gens, outcomes),
            n,
        ) + all_outcome_commits(gens, outcomes)[n],
        all_outcome_commits(gens, outcomes)[0] == outcome_commits_other(gens.add, outcomes.add),
        all_outcome_commits(gens, outcomes)[1] == outcome_commits_other(
            gens.add_small,
            outcomes.add_small,
        ),
        all_outcome_commits(gens, outcomes)[2] == outcome_commits_other(
            gens.add_ap,
            outcomes.add_ap,
        ),
        all_outcome_commits(gens, outcomes)[3] == outcome_commits_other(
            gens.assert_eq,
            outcomes.assert_eq,
        ),
        all_outcome_commits(gens, outcomes)[4] == outcome_commits_other(
            gens.assert_eq_imm,
            outcomes.assert_eq_imm,
        ),
        all_outcome_commits(gens, outcomes)[5] == outcome_commits_other(
            gens.assert_eq_double_deref,
            outcomes.assert_eq_double_deref,
        ),
        all_outcome_commits(gens, outcomes)[6] == outcome_commits_blake(gens.blake, outcomes.blake),
        all_outcome_commits(gens, outcomes)[7] == outcome_commits_other(gens.call, outcomes.call),
        all_outcome_commits(gens, outcomes)[8] == outcome_commits_other(
            gens.call_rel_imm,
            outcomes.call_rel_imm,
        ),
        all_outcome_commits(gens, outcomes)[9] == outcome_commits_generic(
            gens.generic,
            outcomes.generic,
        ),
        all_outcome_commits(gens, outcomes)[10] == outcome_commits_other(gens.jnz, outcomes.jnz),
        all_outcome_commits(gens, outcomes)[11] == outcome_commits_other(
            gens.jnz_taken,
            outcomes.jnz_taken,
        ),
        all_outcome_commits(gens, outcomes)[12] == outcome_commits_jump(gens.jump, outcomes.jump),
        all_outcome_commits(gens, outcomes)[13] == outcome_commits_jump_double_deref(
            gens.jump_double_deref,
            outcomes.jump_double_deref,
        ),
        all_outcome_commits(gens, outcomes)[14] == outcome_commits_other(
            gens.jump_rel,
            outcomes.jump_rel,
        ),
        all_outcome_commits(gens, outcomes)[15] == outcome_commits_other(
            gens.jump_rel_imm,
            outcomes.jump_rel_imm,
        ),
        all_outcome_commits(gens, outcomes)[16] == outcome_commits_mul(gens.mul, outcomes.mul),
        all_outcome_commits(gens, outcomes)[17] == outcome_commits_mul_small(
            gens.mul_small,
            outcomes.mul_small,
        ),
        all_outcome_commits(gens, outcomes)[18] == outcome_commits_other(gens.qm31, outcomes.qm31),
        all_outcome_commits(gens, outcomes)[19] == outcome_commits_other(gens.ret, outcomes.ret),
{
    reveal(joined);
}

/// The trace of an opcode that the program used is committed column by column over the domain that
/// its states are padded to; the generic opcode leaves the one column out that its trace does not
/// have. An opcode that the program did not use commits nothing.
pub proof fn law_traces_are_committed_whole(
    blake: blake_compress_opcode_cuda::CudaClaimGenerator,
    generic: generic_opcode_cuda::CudaClaimGenerator,
    jump: jump_opcode_cuda::CudaClaimGenerator,
    jump_double_deref: jump_opcode_double_deref_cuda::CudaClaimGenerator,
    mul: mul_opcode_cuda::CudaClaimGenerator,
    mul_small: mul_opcode_small_cuda::CudaClaimGenerator,
    other: StateInputs,
    buffers: TraceBuffers,
    output: OpcodeOutput,
    c: int,
)
    requires
        0 <= c < buffers.trace@.len(),
        0 <= c < output.trace@.len(),
        buffers.trace@.len() == generic_opcode_cuda::CUDA_N_TRACE_COLUMNS,
    ensures
        commits_of_blake(Some(blake), Some(buffers)).len() == buffers.trace@.len(),
        commits_of_blake(Some(blake), Some(buffers))[c] == (
            padded_log(blake.n_rows as nat),
            columns(buffers.trace@)[c],
        ),
        commits_of_blake(None, Some(buffers)).len() == 0,
        commits_of_jump(Some(jump), Some(buffers)).len() == buffers.trace@.len(),
        commits_of_jump(Some(jump), Some(buffers))[c] == (
            padded_log(jump.n_rows as nat),
            columns(buffers.trace@)[c],
        ),
        commits_of_jump(None, Some(buffers)).len() == 0,
        commits_of_jump_double_deref(Some(jump_double_deref), Some(buffers)).len()
            == buffers.trace@.len(),
        commits_of_jump_double_deref(Some(jump_double_deref), Some(buffers))[c] == (
            padded_log(jump_double_deref.n_rows as nat),
            columns(buffers.trace@)[c],
        ),
        commits_of_jump_double_deref(None, Some(buffers)).len() == 0,
        commits_of_mul(Some(mul), Some(buffers)).len() == buffers.trace@.len(),
        commits_of_mul(Some(mul), Some(buffers))[c] == (
            padded_log(mul.n_rows as nat),
            columns(buffers.trace@)[c],
        ),
        commits_of_mul(None, Some(buffers)).len() == 0,
        commits_of_mul_small(Some(mul_small), Some(buffers)).len() == buffers.trace@.len(),
        commits_of_mul_small(Some(mul_small), Some(buffers))[c] == (
            padded_log(mul_small.n_rows as nat),
            columns(buffers.trace@)[c],
        ),
        commits_of_mul_small(None, Some(buffers)).len() == 0,
        commits_of_generic(Some(generic), Some(buffers)).len()
            == generic_opcode_cuda::N_TRACE_COLUMNS,
        c < 227 ==> commits_of_generic(Some(generic), Some(buffers))[c] == (
            padded_log(generic.n_rows as nat),
            columns(buffers.trace@)[c],
        ),
        c > 227 ==> commits_of_generic(Some(generic), Some(buffers))[c - 1] == (
            padded_log(generic.n_rows as nat),
            columns(buffers.trace@)[c],
        ),
        commits_of_generic(None, Some(buffers)).len() == 0,
        commits_of_other(Some(other), Some(output)).len() == output.trace@.len(),
        commits_of_other(Some(other), Some(output))[c] == (
            output.log_size,
            columns(output.trace@)[c],
        ),
        commits_of_other(None, Some(output)).len() == 0,
{
    reveal(commits_of_blake);
    reveal(commits_of_generic);
    reveal(commits_of_jump);
    reveal(commits_of_jump_double_deref);
    reveal(commits_of_mul);
    reveal(commits_of_mul_small);
    reveal(commits_of_other);
}

/// The carries that are handed to the interaction kernel are those that were counted: the relations
/// of the table of 20-bit numbers were fed with what the kernel will look up in them, and all other
/// lookups are those that the trace kernel wrote.
pub proof fn law_generic_looks_up_what_it_counted(
    gen: generic_opcode_cuda::CudaClaimGenerator,
    buffers: TraceBuffers,
    claim: Option<Claim>,
    interaction: generic_opcode_cuda::CudaInteractionClaimGenerator,
    before: OpcodeFeeds,
    after: OpcodeFeeds,
    g: int,
)
    requires
        written_generic(Some(gen), Some(buffers), claim, Some(interaction)),
        fed_by_generic(buffers, before, after),
        0 <= g < buffers.lookups@.len(),
        g != generic_opcode_cuda::LAST_CARRY_GROUP,
        generic_opcode_cuda::LAST_CARRY_GROUP < buffers.lookups@.len(),
    ensures
        after.range_checks.rc_20_trace_generator.counters() == fed_relations(
            before.range_checks.rc_20_trace_generator.counters(),
            rc_20::ranges(),
            table_inputs(
                groups(interaction.lookup_data@),
                generic_opcode_cuda::FIRST_CARRY_GROUP as int,
            ),
        ),
        groups(interaction.lookup_data@)[g] == groups(buffers.lookups@)[g],
        claim matches Some(c) && c.log_size == padded_log(gen.n_rows as nat) && c.log_size
            == interaction.log_size,
{
    reveal(written_generic);
    reveal(fed_by_generic);
}

/// The carries that are handed to the interaction kernel are those that were counted: the relations
/// of the table of 20-bit numbers were fed with what the kernel will look up in them, and all other
/// lookups are those that the trace kernel wrote.
pub proof fn law_mul_looks_up_what_it_counted(
    gen: mul_opcode_cuda::CudaClaimGenerator,
    buffers: TraceBuffers,
    claim: Option<Claim>,
    interaction: mul_opcode_cuda::CudaInteractionClaimGenerator,
    before: OpcodeFeeds,
    after: OpcodeFeeds,
    g: int,
)
    requires
        written_mul(Some(gen), Some(buffers), claim, Some(interaction)),
        fed_by_mul(buffers, before, after),
        0 <= g < buffers.lookups@.len(),
        g != mul_opcode_cuda::LAST_CARRY_GROUP,
        mul_opcode_cuda::LAST_CARRY_GROUP < buffers.lookups@.len(),
    ensures
        after.range_checks.rc_20_trace_generator.counters() == fed_relations(
            before.range_checks.rc_20_trace_generator.counters(),
            rc_20::ranges(),
            table_inputs(
                groups(interaction.lookup_data@),
                mul_opcode_cuda::FIRST_CARRY_GROUP as int,
            ),
        ),
        groups(interaction.lookup_data@)[g] == groups(buffers.lookups@)[g],
        claim matches Some(c) && c.log_size == padded_log(gen.n_rows as nat) && c.log_size
            == interaction.log_size,
{
    reveal(written_mul);
    reveal(fed_by_mul);
}

/// What is handed to the interaction kernel is what the trace kernel wrote, and the claim is over
/// the least domain that holds all states and a full pack.
pub proof fn law_blake_looks_up_what_was_written(
    gen: blake_compress_opcode_cuda::CudaClaimGenerator,
    buffers: TraceBuffers,
    claim: Option<Claim>,
    interaction: Option<blake_compress_opcode_cuda::CudaInteractionClaimGenerator>,
    log_size: nat,
)
    requires
        written_blake(Some(gen), Some(buffers), claim, interaction),
        gen.n_rows <= 0x4000_0000,
        gen.n_rows <= pow2(log_size),
        N_LANES <= pow2(log_size),
        forall|k: nat| k < log_size ==> #[trigger] pow2(k) < gen.n_rows || pow2(k) < N_LANES,
    ensures
        claim matches Some(c) && c.log_size == log_size,
        interaction matches Some(i) && i.log_size == log_size && i.n_rows == gen.n_rows && groups(
            i.lookup_data@,
        ) == groups(buffers.lookups@),
{
    reveal(written_blake);
    law_padded_size_is_the_least(gen.n_rows as nat, log_size);
}

/// What is handed to the interaction kernel is what the trace kernel wrote, and the claim is over
/// the least domain that holds all states and a full pack.
pub proof fn law_jump_looks_up_what_was_written(
    gen: jump_opcode_cuda::CudaClaimGenerator,
    buffers: TraceBuffers,
    claim: Option<Claim>,
    interaction: Option<jump_opcode_cuda::CudaInteractionClaimGenerator>,
    log_size: nat,
)
    requires
        written_jump(Some(gen), Some(buffers), claim, interaction),
        gen.n_rows <= 0x4000_0000,
        gen.n_rows <= pow2(log_size),
        N_LANES <= pow2(log_size),
        forall|k: nat| k < log_size ==> #[trigger] pow2(k) < gen.n_rows || pow2(k) < N_LANES,
    ensures
        claim matches Some(c) && c.log_size == log_size,
        interaction matches Some(i) && i.log_size == log_size && i.n_rows == gen.n_rows && groups(
            i.lookup_data@,
        ) == groups(buffers.lookups@),
{
    reveal(written_jump);
    law_padded_size_is_the_least(gen.n_rows as nat, log_size);
}

/// What is handed to the interaction kernel is what the trace kernel wrote, and the claim is over
/// the least domain that holds all states and a full pack.
pub proof fn law_jump_double_deref_looks_up_what_was_written(
    gen: jump_opcode_double_deref_cuda::CudaClaimGenerator,
    buffers: TraceBuffers,
    claim: Option<Claim>,
    interaction: Option<jump_opcode_double_deref_cuda::CudaInteractionClaimGenerator>,
    log_size: nat,
)
    requires
        written_jump_double_deref(Some(gen), Some(buffers), claim, interaction),
        gen.n_rows <= 0x4000_0000,
        gen.n_rows <= pow2(log_size),
        N_LANES <= pow2(log_size),
        forall|k: nat| k < log_size ==> #[trigger] pow2(k) < gen.n_rows || pow2(k) < N_LANES,
    ensures
        claim matches Some(c) && c.log_size == log_size,
        interaction matches Some(i) && i.log_size == log_size && i.n_rows == gen.n_rows && groups(
            i.lookup_data@,
        ) == groups(buffers.lookups@),
{
    reveal(written_jump_double_deref);
    law_padded_size_is_the_least(gen.n_rows as nat, log_size);
}

/// What is handed to the interaction kernel is what the trace kernel wrote, and the claim is over
/// the least domain that holds all states and a full pack.
pub proof fn law_mul_small_looks_up_what_was_written(
    gen: mul_opcode_small_cuda::CudaClaimGenerator,
    buffers: TraceBuffers,
    claim: Option<Claim>,
    interaction: Option<mul_opcode_small_cuda::CudaInteractionClaimGenerator>,
    log_size: nat,
)
    requires
        written_mul_small(Some(gen), Some(buffers), claim, interaction),
        gen.n_rows <= 0x4000_0000,
        gen.n_rows <= pow2(log_size),
        N_LANES <= pow2(log_size),
        forall|k: nat| k < log_size ==> #[trigger] pow2(k) < gen.n_rows || pow2(k) < N_LANES,
    ensures
        claim matches Some(c) && c.log_size == log_size,
        interaction matches Some(i) && i.log_size == log_size && i.n_rows == gen.n_rows && groups(
            i.lookup_data@,
        ) == groups(buffers.lookups@),
{
    reveal(written_mul_small);
    law_padded_size_is_the_least(gen.n_rows as nat, log_size);
}

/// What the other opcodes look up is what their trace kernels wrote, over the same domains, and an
/// opcode that the program did not use claims nothing.
pub proof fn law_other_looks_up_what_was_written(
    gen: Option<StateInputs>,
    output: OpcodeOutput,
    claim: Option<Claim>,
    interaction: Option<PendingInteraction>,
)
    requires
        written_other(gen, Some(output), claim, interaction),
    ensures
        gen is Some <==> claim is Some,
        gen is Some <==> interaction is Some,
        claim matches Some(c) ==> c.log_size == output.log_size,
        interaction matches Some(i) ==> i.log_size == output.log_size && groups(i.lookup_data@)
            == groups(output.lookup_data@),
{
    reveal(written_other);
}

/// The claim of an opcode is the sum that its interaction kernel gave, coordinate by coordinate.
pub proof fn law_claims_are_sums(claim: Option<InteractionClaim>, outcome: InteractionOutcome)
    requires
        is_claimed(claim, true, Some(outcome)),
        outcome.claimed_sum@.len() == 4,
    ensures
        claim matches Some(c) && seq![
            c.claimed_sum.a,
            c.claimed_sum.b,
            c.claimed_sum.c,
            c.claimed_sum.d,
        ] == outcome.claimed_sum@,
{
    reveal(is_claimed);
    law_words_are_coordinates(outcome.claimed_sum@);
}

/// The place of the relation in the order in which kernels are handed relations.
pub open spec fn rank(relation: Relation) -> int {
    match relation {
        Relation::MemoryAddressToId => 1,
        Relation::MemoryIdToValue => 2,
        Relation::RangeCheck18 => 3,
        Relation::RangeCheck11 => 4,
        Relation::RangeCheck4444 => 5,
        Relation::Opcodes => 6,
        Relation::VerifyInstruction => 7,
    }
}

/// The relations are handed over in one order: the addresses before the values, the tables, the
/// wider one first, and the states. The instructions come before all of them, but for the kernels
/// of small additions and of the assertions of an immediate and of a double dereference, to which
/// they come last.
pub proof fn law_relations_are_handed_in_order(opcode: OtherOpcode, i: int, j: int)
    requires
        0 <= i < j < opcode.relations().len(),
    ensures
        ({
            let relations = opcode.relations();
            let last = opcode == OtherOpcode::AddSmall || opcode == OtherOpcode::AssertEqImm
                || opcode == OtherOpcode::AssertEqDoubleDeref;
            &&& last ==> rank(relations[i]) < rank(relations[j])
            &&& !last ==> relations[j] != Relation::VerifyInstruction
            &&& !last && i > 0 ==> rank(relations[i]) < rank(relations[j])
        }),
{
}

} // verus!

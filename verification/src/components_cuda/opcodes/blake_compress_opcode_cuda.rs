//! Compressions of the Blake hash.

use crate::bits::{ilog2, lemma_padded_log, padded_log, padded_rows};
use crate::column::{columns, is_shape, zero_columns, BaseFieldVec};
use crate::components_cuda::range_check::base::{
    all_occurrences, are_all_inputs, counted, CudaRangeCheckGenerator,
};
use crate::components_cuda::range_check::tables::rc_7_2_5_ranges;
use crate::components_cuda::triple_xor_32_cuda;
use crate::components_cuda::verify_bitwise_xor::base::{are_xor_inputs, pair_ranges, pairs};
use crate::components_cuda::verify_bitwise_xor::vbx_8;
use crate::components_cuda::verify_instruction_cuda;
use crate::inputs::{pack_states, state_columns, CasmState, ComponentInputs};
use crate::launch::{
    allocate, answer_all, entries_before, finish_interaction, groups, have_shapes,
    interaction_columns, law_answers_look_up, looks_up_request, modified_lookups, secure_of, shape,
    BufferShape, Claim, InteractionClaim, LookupRequest, TraceBuffers, N_INSTRUCTION_FIELDS,
    N_REGISTERS, N_VALUE_LIMBS,
};
use crate::lookup::{looks_up, LookupElements, RelationIds};
use crate::tree_builder::{committed, TreeBuilder, MAX_LOG_SIZE};
use vstd::arithmetic::power2::pow2;
use vstd::prelude::*;

verus! {

pub const N_TRACE_COLUMNS: usize = 174;

pub const N_INTERACTION_TRACE_COLUMNS: usize = 37;

/// The groups of lookups: rounds, memory addresses, memory values, opcodes, memory limbs, exclusive
/// ors of three words, exclusive ors of bytes, and instructions.
pub open spec fn lookup_shapes() -> Seq<BufferShape> {
    seq![
        shape(2, 35),
        shape(20, 2),
        shape(20, 29),
        shape(2, 3),
        shape(17, 3),
        shape(8, 8),
        shape(4, 3),
        shape(1, 7),
    ]
}

/// Returns the shapes of the groups of lookups.
pub fn lookup_layout() -> (r: Vec<BufferShape>)
    ensures
        r@ == lookup_shapes(),
{
    let r = vec![
        BufferShape { entries: 2, width: 35 },
        BufferShape { entries: 20, width: 2 },
        BufferShape { entries: 20, width: 29 },
        BufferShape { entries: 2, width: 3 },
        BufferShape { entries: 17, width: 3 },
        BufferShape { entries: 8, width: 8 },
        BufferShape { entries: 4, width: 3 },
        BufferShape { entries: 1, width: 7 },
    ];
    assert(r@ =~= lookup_shapes());
    r
}

/// The groups that other components are fed with: instructions, memory addresses, memory ids,
/// memory limbs, exclusive ors of bytes, rounds, and exclusive ors of three words. A round has its
/// index, its number, the sixteen words of its state, and the address of its message.
pub open spec fn sub_input_shapes() -> Seq<BufferShape> {
    seq![
        shape(1, 7),
        shape(20, 1),
        shape(20, 1),
        shape(17, 3),
        shape(4, 3),
        shape(10, 19),
        shape(8, 3),
    ]
}

/// Returns the shapes of the groups that other components are fed with.
pub fn sub_input_layout() -> (r: Vec<BufferShape>)
    ensures
        r@ == sub_input_shapes(),
{
    let r = vec![
        BufferShape { entries: 1, width: 7 },
        BufferShape { entries: 20, width: 1 },
        BufferShape { entries: 20, width: 1 },
        BufferShape { entries: 17, width: 3 },
        BufferShape { entries: 4, width: 3 },
        BufferShape { entries: 10, width: 19 },
        BufferShape { entries: 8, width: 3 },
    ];
    assert(r@ =~= sub_input_shapes());
    r
}

/// The registers of all steps, one column for each, padded for a trace.
pub struct CudaClaimGenerator {
    pub n_rows: usize,
    pub inputs: Vec<BaseFieldVec>,
}

impl CudaClaimGenerator {
    /// The columns hold the given states.
    pub open spec fn holds(self, states: Seq<CasmState>) -> bool {
        &&& self.n_rows == states.len()
        &&& columns(self.inputs@) == state_columns(states)
    }

    /// There are states, and the columns have the length of a trace with so many rows.
    pub open spec fn wf(self) -> bool {
        &&& 0 < self.n_rows <= 0x4000_0000
        &&& is_shape(columns(self.inputs@), 3, padded_rows(self.n_rows as nat))
    }

    /// Packs the states of all steps.
    pub fn new(inputs: Vec<CasmState>) -> (r: Self)
        requires
            0 < inputs@.len() <= 0x4000_0000,
        ensures
            r.wf(),
            r.holds(inputs@),
    {
        let n_rows = inputs.len();
        let cols = pack_states(&inputs);
        CudaClaimGenerator { n_rows, inputs: cols }
    }

    /// Returns the logarithm of the number of rows of the trace.
    pub fn log_size(&self) -> (log_size: u32)
        requires
            self.wf(),
        ensures
            log_size == padded_log(self.n_rows as nat),
            4 <= log_size <= MAX_LOG_SIZE,
    {
        proof {
            lemma_padded_log(self.n_rows as nat);
        }
        assert(columns(self.inputs@)[0].len() == padded_rows(self.n_rows as nat));
        ilog2(self.inputs[0].size())
    }

    /// Returns the buffers that the trace kernel fills.
    pub fn trace_buffers(&self) -> (b: TraceBuffers)
        requires
            self.wf(),
        ensures
            b.fit(
                N_TRACE_COLUMNS as nat,
                lookup_shapes(),
                sub_input_shapes(),
                padded_log(self.n_rows as nat),
            ),
    {
        allocate(N_TRACE_COLUMNS, &lookup_layout(), &sub_input_layout(), self.log_size())
    }

    /// Feeds the other components with what the trace kernel wrote and commits the trace.
    pub fn write_trace(
        self,
        buffers: TraceBuffers,
        tree_builder: &mut TreeBuilder,
        memory_address_to_id_state: &mut ComponentInputs,
        memory_id_to_big_state: &mut ComponentInputs,
        verify_instruction_state: &mut verify_instruction_cuda::CudaClaimGenerator,
        range_check_7_2_5_state: &mut CudaRangeCheckGenerator<3>,
        triple_xor_32_state: &mut triple_xor_32_cuda::CudaClaimGenerator,
        verify_bitwise_xor_8_state: &mut vbx_8::CudaClaimGenerator,
        blake_round_state: &mut ComponentInputs,
    ) -> (r: (Claim, CudaInteractionClaimGenerator))
        requires
            self.wf(),
            buffers.fit(
                N_TRACE_COLUMNS as nat,
                lookup_shapes(),
                sub_input_shapes(),
                padded_log(self.n_rows as nat),
            ),
            old(verify_instruction_state).wf(),
            old(range_check_7_2_5_state).wf(),
            old(range_check_7_2_5_state).ranges@ == rc_7_2_5_ranges(),
            are_all_inputs(
                rc_7_2_5_ranges(),
                groups(buffers.sub_inputs@)[3],
            ),
            old(verify_bitwise_xor_8_state).wf(),
            are_xor_inputs(vbx_8::N_BITS, groups(buffers.sub_inputs@)[4]),
            old(triple_xor_32_state).wf(),
            old(triple_xor_32_state).inputs.size + triple_xor_32_cuda::total_rows(
                groups(buffers.sub_inputs@)[6],
            ) <= u32::MAX,
        ensures
            r.0.log_size == padded_log(self.n_rows as nat),
            r.1.log_size == r.0.log_size,
            r.1.n_rows == self.n_rows,
            groups(r.1.lookup_data@) == groups(buffers.lookups@),
            r.1.wf(),
            final(tree_builder)@ == old(tree_builder)@ + committed(
                r.0.log_size,
                columns(buffers.trace@),
            ),
            final(verify_instruction_state).wf(),
            final(verify_instruction_state)@ == verify_instruction_cuda::counted_lookups(
                old(verify_instruction_state)@,
                |pc: u32|
                    verify_instruction_cuda::lookups_of(
                        groups(buffers.sub_inputs@)[0],
                        pc,
                    ) as int,
            ),
            final(memory_address_to_id_state)@ == old(memory_address_to_id_state)@ + groups(
                buffers.sub_inputs@,
            )[1],
            final(memory_id_to_big_state)@ == old(memory_id_to_big_state)@ + groups(
                buffers.sub_inputs@,
            )[2],
            final(range_check_7_2_5_state).wf(),
            final(range_check_7_2_5_state).ranges == old(range_check_7_2_5_state).ranges,
            final(range_check_7_2_5_state).multiplicities@ == counted(
                old(range_check_7_2_5_state).multiplicities@,
                |i: int|
                    all_occurrences(
                        rc_7_2_5_ranges(),
                        groups(buffers.sub_inputs@)[3],
                        i,
                    ) as int,
            ),
            final(verify_bitwise_xor_8_state).wf(),
            final(verify_bitwise_xor_8_state).0.multiplicities@ == counted(
                old(verify_bitwise_xor_8_state).0.multiplicities@,
                |i: int|
                    all_occurrences(
                        pair_ranges(vbx_8::N_BITS),
                        pairs(groups(buffers.sub_inputs@)[4]),
                        i,
                    ) as int,
            ),
            final(blake_round_state)@ == old(blake_round_state)@ + groups(buffers.sub_inputs@)[5],
            final(triple_xor_32_state).wf(),
            columns(final(triple_xor_32_state).inputs.columns@) == triple_xor_32_cuda::fed_batches(
                columns(old(triple_xor_32_state).inputs.columns@),
                groups(buffers.sub_inputs@)[6],
            ),
    {
        let log_size = self.log_size();
        proof {
            let fed = groups(buffers.sub_inputs@)[0];
            assert forall|b: int| 0 <= b < fed.len() implies (#[trigger] fed[b]).len() > 0 by {
                assert(is_shape(fed[b], 7, pow2(log_size as nat)));
            }
        }
        verify_instruction_state.add_cuda_inputs(&buffers.sub_inputs[0]);
        memory_address_to_id_state.add_cuda_inputs(&buffers.sub_inputs[1]);
        memory_id_to_big_state.add_cuda_inputs(&buffers.sub_inputs[2]);
        range_check_7_2_5_state.add_each(&buffers.sub_inputs[3]);
        verify_bitwise_xor_8_state.add_cuda_inputs(&buffers.sub_inputs[4]);
        proof {
            let words = groups(buffers.sub_inputs@)[6];
            assert forall|b: int| 0 <= b < words.len() implies is_shape(
                #[trigger] words[b],
                triple_xor_32_cuda::N_WORDS as nat,
                words[b][0].len(),
            ) by {
                assert(is_shape(words[b], 3, pow2(log_size as nat)));
            }
        }
        triple_xor_32_state.add_cuda_inputs(&buffers.sub_inputs[6]);
        blake_round_state.add_cuda_inputs(&buffers.sub_inputs[5]);
        tree_builder.extend_evals(log_size, buffers.trace);
        (
            Claim { log_size },
            CudaInteractionClaimGenerator {
                n_rows: self.n_rows,
                log_size,
                lookup_data: buffers.lookups,
            },
        )
    }
}

/// Writes the interaction trace.
pub struct CudaInteractionClaimGenerator {
    pub n_rows: usize,
    pub log_size: u32,
    pub lookup_data: Vec<Vec<Vec<BaseFieldVec>>>,
}

/// The elements that the interaction kernel is handed, in order.
pub open spec fn requests(ids: RelationIds) -> Seq<LookupRequest> {
    seq![
        LookupRequest::Plain(ids.blake_round),
        LookupRequest::Plain(ids.memory_address_to_id),
        LookupRequest::Plain(ids.memory_id_to_big),
        LookupRequest::Plain(ids.opcodes),
        LookupRequest::Plain(ids.rc_7_2_5),
        LookupRequest::Plain(ids.triple_xor_32),
        LookupRequest::Plain(ids.verify_bitwise_xor_8),
        LookupRequest::Plain(ids.verify_instruction),
    ]
}

/// Every group of lookups is handed the elements of its own relation.
pub proof fn law_groups_are_looked_up_in_their_relations(
    ms: Seq<LookupElements>,
    common: LookupElements,
    ids: RelationIds,
)
    requires
        common.is_common(),
        answer_all(ms, common, requests(ids)),
    ensures
        ms.len() == 8,
        looks_up(ms[0], common, ids.blake_round),
        looks_up(ms[1], common, ids.memory_address_to_id),
        looks_up(ms[2], common, ids.memory_id_to_big),
        looks_up(ms[3], common, ids.opcodes),
        looks_up(ms[4], common, ids.rc_7_2_5),
        looks_up(ms[5], common, ids.triple_xor_32),
        looks_up(ms[6], common, ids.verify_bitwise_xor_8),
        looks_up(ms[7], common, ids.verify_instruction),
{
    law_answers_look_up(ms, common, requests(ids));
    assert(looks_up_request(ms[0], common, requests(ids)[0]));
    assert(looks_up_request(ms[1], common, requests(ids)[1]));
    assert(looks_up_request(ms[2], common, requests(ids)[2]));
    assert(looks_up_request(ms[3], common, requests(ids)[3]));
    assert(looks_up_request(ms[4], common, requests(ids)[4]));
    assert(looks_up_request(ms[5], common, requests(ids)[5]));
    assert(looks_up_request(ms[6], common, requests(ids)[6]));
    assert(looks_up_request(ms[7], common, requests(ids)[7]));
}

/// A column of the interaction trace holds two fractions, so there is one for every two entries;
/// what is fed on has an entry for each lookup: an address is looked up with its identifier, and
/// an identifier with the limbs of its value.
pub proof fn law_lookups_match_feeds()
    ensures
        (entries_before(lookup_shapes(), 8) + 1) / 2 == N_INTERACTION_TRACE_COLUMNS,
        lookup_shapes().len() == 8,
        lookup_shapes()[1].entries == sub_input_shapes()[1].entries,
        lookup_shapes()[1].width == sub_input_shapes()[1].width + 1,
        lookup_shapes()[2].entries == sub_input_shapes()[2].entries,
        lookup_shapes()[2].width == sub_input_shapes()[2].width + N_VALUE_LIMBS,
        lookup_shapes()[2].entries == lookup_shapes()[1].entries,
        lookup_shapes()[7] == sub_input_shapes()[0],
        lookup_shapes()[7] == shape(1, N_INSTRUCTION_FIELDS),
        lookup_shapes()[3] == shape(2, N_REGISTERS),
        lookup_shapes()[4] == sub_input_shapes()[3],
        lookup_shapes()[6] == sub_input_shapes()[4],
        lookup_shapes()[5].entries == sub_input_shapes()[6].entries,
{
    reveal_with_fuel(entries_before, 9);
}

impl CudaInteractionClaimGenerator {
    /// The lookups are those of a trace of the given size.
    pub open spec fn wf(self) -> bool {
        &&& 0 < self.log_size <= MAX_LOG_SIZE
        &&& have_shapes(groups(self.lookup_data@), lookup_shapes(), pow2(self.log_size as nat))
    }

    /// Returns the elements that the interaction kernel is handed.
    pub fn relation_elements(&self, common: &LookupElements, ids: &RelationIds) -> (ms: Vec<
        LookupElements,
    >)
        requires
            common.is_common(),
            ids.wf(),
        ensures
            answer_all(ms@, *common, requests(*ids)),
    {
        let asked = vec![
            LookupRequest::Plain(ids.blake_round),
            LookupRequest::Plain(ids.memory_address_to_id),
            LookupRequest::Plain(ids.memory_id_to_big),
            LookupRequest::Plain(ids.opcodes),
            LookupRequest::Plain(ids.rc_7_2_5),
            LookupRequest::Plain(ids.triple_xor_32),
            LookupRequest::Plain(ids.verify_bitwise_xor_8),
            LookupRequest::Plain(ids.verify_instruction),
        ];
        assert(asked@ =~= requests(*ids));
        modified_lookups(common, &asked)
    }

    /// Returns the columns of zeroes that the interaction kernel fills.
    pub fn interaction_columns(&self) -> (cols: Vec<BaseFieldVec>)
        requires
            self.wf(),
        ensures
            columns(cols@) == zero_columns(
                4 * N_INTERACTION_TRACE_COLUMNS as nat,
                pow2(self.log_size as nat),
            ),
    {
        interaction_columns(N_INTERACTION_TRACE_COLUMNS, self.log_size)
    }

    /// Commits the columns that the interaction kernel filled and claims its sum.
    pub fn write_interaction_trace(
        self,
        tree_builder: &mut TreeBuilder,
        cols: Vec<BaseFieldVec>,
        claimed_sum: [u32; 4],
    ) -> (r: InteractionClaim)
        requires
            self.wf(),
            is_shape(
                columns(cols@),
                4 * N_INTERACTION_TRACE_COLUMNS as nat,
                pow2(self.log_size as nat),
            ),
        ensures
            final(tree_builder)@ == old(tree_builder)@ + committed(self.log_size, columns(cols@)),
            r.claimed_sum == secure_of(claimed_sum@),
    {
        finish_interaction(tree_builder, cols, self.log_size, claimed_sum)
    }
}

} // verus!

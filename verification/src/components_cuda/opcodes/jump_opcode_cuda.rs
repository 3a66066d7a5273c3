//! Jumps to an address in memory.

use crate::bits::{ilog2, lemma_padded_log, padded_log, padded_rows, padded_size};
use crate::column::{columns, is_shape, zero_columns, BaseFieldVec};
use crate::components_cuda::verify_instruction_cuda;
use crate::inputs::{append_first_columns, first_columns};
use crate::inputs::{pack_states, state_columns, CasmState, ComponentInputs};
use crate::launch::{
    allocate, entries_before, finish_interaction, groups, have_shapes, interaction_columns,
    secure_of, shape, BufferShape, Claim, InteractionClaim, TraceBuffers, N_INSTRUCTION_FIELDS,
    N_REGISTERS, N_VALUE_LIMBS,
};
use crate::tree_builder::{committed, TreeBuilder, MAX_LOG_SIZE};
use vstd::arithmetic::power2::pow2;
use vstd::prelude::*;

verus! {

pub const N_TRACE_COLUMNS: usize = 15;

pub const N_INTERACTION_TRACE_COLUMNS: usize = 3;

/// The groups of lookups: memory addresses, memory values, opcodes, and instructions.
pub open spec fn lookup_shapes() -> Seq<BufferShape> {
    seq![shape(1, 2), shape(1, 29), shape(2, 3), shape(1, 7)]
}

/// Returns the shapes of the groups of lookups.
pub fn lookup_layout() -> (r: Vec<BufferShape>)
    ensures
        r@ == lookup_shapes(),
{
    let r = vec![
        BufferShape { entries: 1, width: 2 },
        BufferShape { entries: 1, width: 29 },
        BufferShape { entries: 2, width: 3 },
        BufferShape { entries: 1, width: 7 },
    ];
    assert(r@ =~= lookup_shapes());
    r
}

/// The groups that other components are fed with: instructions, memory addresses, and memory ids.
pub open spec fn sub_input_shapes() -> Seq<BufferShape> {
    seq![shape(1, 7), shape(1, 1), shape(1, 1)]
}

/// Returns the shapes of the groups that other components are fed with.
pub fn sub_input_layout() -> (r: Vec<BufferShape>)
    ensures
        r@ == sub_input_shapes(),
{
    let r = vec![
        BufferShape { entries: 1, width: 7 },
        BufferShape { entries: 1, width: 1 },
        BufferShape { entries: 1, width: 1 },
    ];
    assert(r@ =~= sub_input_shapes());
    r
}

/// The registers of all steps, one column for each, padded for a trace.
pub struct CudaClaimGenerator {
    pub n_rows: usize,
    pub padded_size: usize,
    pub inputs: Vec<BaseFieldVec>,
}

impl CudaClaimGenerator {
    /// The columns hold the given states.
    pub open spec fn holds(self, states: Seq<CasmState>) -> bool {
        &&& self.n_rows == states.len()
        &&& columns(self.inputs@) == state_columns(states)
        &&& self.padded_size == padded_rows(states.len())
    }

    /// The columns have the length of a trace with so many rows.
    pub open spec fn wf(self) -> bool {
        &&& self.n_rows <= 0x4000_0000
        &&& is_shape(columns(self.inputs@), 3, padded_rows(self.n_rows as nat))
    }

    /// Packs the states of all steps; there may be none.
    pub fn new(inputs: Vec<CasmState>) -> (r: Self)
        requires
            inputs@.len() <= 0x4000_0000,
        ensures
            r.wf(),
            r.holds(inputs@),
    {
        let n_rows = inputs.len();
        let padded_size = padded_size(inputs.len());
        let cols = pack_states(&inputs);
        CudaClaimGenerator { n_rows, padded_size, inputs: cols }
    }

    /// Returns the logarithm of the number of rows of the trace.
    pub fn log_size(&self) -> (log_size: u32)
        requires
            self.wf(),
        ensures
            log_size == padded_log(self.n_rows as nat),
            4 <= log_size <= MAX_LOG_SIZE,
    {
        proof {
            lemma_padded_log(self.n_rows as nat);
        }
        assert(columns(self.inputs@)[0].len() == padded_rows(self.n_rows as nat));
        ilog2(self.inputs[0].size())
    }

    /// Returns the buffers that the trace kernel fills.
    pub fn trace_buffers(&self) -> (b: TraceBuffers)
        requires
            self.wf(),
        ensures
            b.fit(
                N_TRACE_COLUMNS as nat,
                lookup_shapes(),
                sub_input_shapes(),
                padded_log(self.n_rows as nat),
            ),
    {
        allocate(N_TRACE_COLUMNS, &lookup_layout(), &sub_input_layout(), self.log_size())
    }

    /// Feeds the other components with what the trace kernel wrote and commits the trace.
    pub fn write_trace(
        self,
        buffers: TraceBuffers,
        tree_builder: &mut TreeBuilder,
        memory_address_to_id_state: &mut ComponentInputs,
        memory_id_to_big_state: &mut ComponentInputs,
        verify_instruction_state: &mut verify_instruction_cuda::CudaClaimGenerator,
        memory_address_to_id_simd_state: &mut Vec<u32>,
        memory_id_to_big_simd_state: &mut Vec<u32>,
        verify_instruction_simd_state: &mut Vec<verify_instruction_cuda::InstructionInput>,
    ) -> (r: (Claim, CudaInteractionClaimGenerator))
        requires
            self.wf(),
            buffers.fit(
                N_TRACE_COLUMNS as nat,
                lookup_shapes(),
                sub_input_shapes(),
                padded_log(self.n_rows as nat),
            ),
            old(verify_instruction_state).wf(),
        ensures
            r.0.log_size == padded_log(self.n_rows as nat),
            r.1.log_size == r.0.log_size,
            r.1.n_rows == self.n_rows,
            groups(r.1.lookup_data@) == groups(buffers.lookups@),
            r.1.wf(),
            final(tree_builder)@ == old(tree_builder)@ + committed(
                r.0.log_size,
                columns(buffers.trace@),
            ),
            final(verify_instruction_state).wf(),
            final(verify_instruction_state)@ == verify_instruction_cuda::counted_lookups(
                old(verify_instruction_state)@,
                |pc: u32|
                    verify_instruction_cuda::lookups_of(
                        groups(buffers.sub_inputs@)[0],
                        pc,
                    ) as int,
            ),
            final(memory_address_to_id_state)@ == old(memory_address_to_id_state)@ + groups(
                buffers.sub_inputs@,
            )[1],
            final(memory_id_to_big_state)@ == old(memory_id_to_big_state)@ + groups(
                buffers.sub_inputs@,
            )[2],
            final(memory_address_to_id_simd_state)@ == old(memory_address_to_id_simd_state)@
                + first_columns(groups(buffers.sub_inputs@)[1]),
            final(memory_id_to_big_simd_state)@ == old(memory_id_to_big_simd_state)@
                + first_columns(groups(buffers.sub_inputs@)[2]),
            final(verify_instruction_simd_state)@.map_values(
                |x: verify_instruction_cuda::InstructionInput| verify_instruction_cuda::fields(x),
            ) == old(verify_instruction_simd_state)@.map_values(
                |x: verify_instruction_cuda::InstructionInput| verify_instruction_cuda::fields(x),
            ) + verify_instruction_cuda::instruction_rows(groups(buffers.sub_inputs@)[0]),
    {
        let log_size = self.log_size();
        proof {
            let fed = groups(buffers.sub_inputs@)[0];
            assert forall|b: int| 0 <= b < fed.len() implies (#[trigger] fed[b]).len() > 0 by {
                assert(is_shape(fed[b], 7, pow2(log_size as nat)));
            }
        }
        verify_instruction_state.add_cuda_inputs(&buffers.sub_inputs[0]);
        memory_address_to_id_state.add_cuda_inputs(&buffers.sub_inputs[1]);
        memory_id_to_big_state.add_cuda_inputs(&buffers.sub_inputs[2]);
        proof {
            let fed_1 = groups(buffers.sub_inputs@)[1];
            assert forall|b: int| 0 <= b < fed_1.len() implies (#[trigger] fed_1[b]).len() > 0 by {
                assert(is_shape(fed_1[b], 1, pow2(log_size as nat)));
            }
            let fed_2 = groups(buffers.sub_inputs@)[2];
            assert forall|b: int| 0 <= b < fed_2.len() implies (#[trigger] fed_2[b]).len() > 0 by {
                assert(is_shape(fed_2[b], 1, pow2(log_size as nat)));
            }
            let rows = groups(buffers.sub_inputs@)[0];
            assert forall|b: int| 0 <= b < rows.len() implies is_shape(
                #[trigger] rows[b],
                7,
                rows[b][0].len(),
            ) by {
                assert(is_shape(rows[b], 7, pow2(log_size as nat)));
            }
        }
        append_first_columns(memory_address_to_id_simd_state, &buffers.sub_inputs[1]);
        append_first_columns(memory_id_to_big_simd_state, &buffers.sub_inputs[2]);
        verify_instruction_cuda::append_instruction_rows(
            verify_instruction_simd_state,
            &buffers.sub_inputs[0],
        );
        tree_builder.extend_evals(log_size, buffers.trace);
        (
            Claim { log_size },
            CudaInteractionClaimGenerator {
                n_rows: self.n_rows,
                log_size,
                lookup_data: buffers.lookups,
            },
        )
    }
}

/// Writes the interaction trace. Its kernel is handed the elements of its relations as they are.
pub struct CudaInteractionClaimGenerator {
    pub n_rows: usize,
    pub log_size: u32,
    pub lookup_data: Vec<Vec<Vec<BaseFieldVec>>>,
}

/// A column of the interaction trace holds two fractions, so there is one for every two entries;
/// what is fed on has an entry for each lookup: an address is looked up with its identifier, and
/// an identifier with the limbs of its value.
pub proof fn law_lookups_match_feeds()
    ensures
        (entries_before(lookup_shapes(), 4) + 1) / 2 == N_INTERACTION_TRACE_COLUMNS,
        lookup_shapes().len() == 4,
        lookup_shapes()[0].entries == sub_input_shapes()[1].entries,
        lookup_shapes()[0].width == sub_input_shapes()[1].width + 1,
        lookup_shapes()[1].entries == sub_input_shapes()[2].entries,
        lookup_shapes()[1].width == sub_input_shapes()[2].width + N_VALUE_LIMBS,
        lookup_shapes()[1].entries == lookup_shapes()[0].entries,
        lookup_shapes()[3] == sub_input_shapes()[0],
        lookup_shapes()[3] == shape(1, N_INSTRUCTION_FIELDS),
        lookup_shapes()[2] == shape(2, N_REGISTERS),
{
    reveal_with_fuel(entries_before, 5);
}

impl CudaInteractionClaimGenerator {
    /// The lookups are those of a trace of the given size.
    pub open spec fn wf(self) -> bool {
        &&& 0 < self.log_size <= MAX_LOG_SIZE
        &&& have_shapes(groups(self.lookup_data@), lookup_shapes(), pow2(self.log_size as nat))
    }

    /// Returns the columns of zeroes that the interaction kernel fills.
    pub fn interaction_columns(&self) -> (cols: Vec<BaseFieldVec>)
        requires
            self.wf(),
        ensures
            columns(cols@) == zero_columns(
                4 * N_INTERACTION_TRACE_COLUMNS as nat,
                pow2(self.log_size as nat),
            ),
    {
        interaction_columns(N_INTERACTION_TRACE_COLUMNS, self.log_size)
    }

    /// Commits the columns that the interaction kernel filled and claims its sum.
    pub fn write_interaction_trace(
        self,
        tree_builder: &mut TreeBuilder,
        cols: Vec<BaseFieldVec>,
        claimed_sum: [u32; 4],
    ) -> (r: InteractionClaim)
        requires
            self.wf(),
            is_shape(
                columns(cols@),
                4 * N_INTERACTION_TRACE_COLUMNS as nat,
                pow2(self.log_size as nat),
            ),
        ensures
            final(tree_builder)@ == old(tree_builder)@ + committed(self.log_size, columns(cols@)),
            r.claimed_sum == secure_of(claimed_sum@),
    {
        finish_interaction(tree_builder, cols, self.log_size, claimed_sum)
    }
}

} // verus!

//! Steps whose instruction no other opcode takes.

use crate::bits::{ilog2, lemma_padded_log, padded_log, padded_rows};
use crate::column::is_canonical;
use crate::column::{columns, is_shape, zero_columns, BaseFieldVec};
use crate::components_cuda::opcodes::carries::{
    are_carries, feed_carries, group_of_relation, normalize_first_carry, normalized, table_inputs,
    N_CARRY_GROUPS, OFFSET_CORRECTION,
};
use crate::components_cuda::range_check::base::{
    all_occurrences, are_all_inputs, counted, fed_relation, fed_relations,
    CudaMultiRelationRangeCheckGenerator, CudaRangeCheckGenerator,
};
use crate::components_cuda::range_check::rc_18;
use crate::components_cuda::range_check::rc_20;
use crate::components_cuda::range_check::tables::{rc_11_ranges, rc_9_9_ranges};
use crate::components_cuda::verify_instruction_cuda;
use crate::inputs::{pack_states, state_columns, CasmState, ComponentInputs};
use crate::launch::{
    allocate, answer_all, entries_before, finish_interaction, groups, have_shapes,
    interaction_columns, law_answers_look_up, looks_up_request, modified_lookups, secure_of, shape,
    BufferShape, Claim, InteractionClaim, LookupRequest, TraceBuffers, N_INSTRUCTION_FIELDS,
    N_REGISTERS, N_VALUE_LIMBS,
};
use crate::lookup::{combined, looks_up, LookupElements, RelationIds};
use crate::tree_builder::{committed, TreeBuilder, MAX_LOG_SIZE};
use vstd::arithmetic::power2::pow2;
use vstd::prelude::*;

verus! {

/// The number of columns that the kernel writes.
pub const CUDA_N_TRACE_COLUMNS: usize = 244;

/// The column that the kernel writes and the trace does not have.
pub const EXTRA_COLUMN: usize = 227;

pub const N_TRACE_COLUMNS: usize = 243;

pub const N_INTERACTION_TRACE_COLUMNS: usize = 34;

/// Where the groups of pairs of 9-bit numbers begin.
pub const FIRST_PAIR_GROUP: usize = 3;

/// Where the groups of carries begin.
pub const FIRST_CARRY_GROUP: usize = 11;

/// The last group of carries, which holds the very first carry.
pub const LAST_CARRY_GROUP: usize = 18;

/// The group of 18-bit numbers.
pub const RC_18_GROUP: usize = 19;

/// The group of 11-bit numbers.
pub const RC_11_GROUP: usize = 20;

/// The groups of pairs of 9-bit numbers, one for each relation.
pub open spec fn pair_groups(lookups: Seq<Seq<Seq<Seq<u32>>>>) -> Seq<Seq<Seq<Seq<u32>>>> {
    lookups.subrange(FIRST_PAIR_GROUP as int, FIRST_PAIR_GROUP + 8)
}

/// The groups of lookups: memory addresses, memory values, opcodes, eight groups of pairs of 9-bit
/// numbers, eight groups of carries, 18-bit numbers, 11-bit numbers, and instructions.
pub open spec fn lookup_shapes() -> Seq<BufferShape> {
    seq![
        shape(3, 2),
        shape(3, 29),
        shape(2, 3),
        shape(4, 2),
        shape(4, 2),
        shape(4, 2),
        shape(4, 2),
        shape(4, 2),
        shape(4, 2),
        shape(2, 2),
        shape(2, 2),
        shape(4, 1),
        shape(4, 1),
        shape(4, 1),
        shape(3, 1),
        shape(3, 1),
        shape(3, 1),
        shape(3, 1),
        shape(4, 1),
        shape(1, 1),
        shape(1, 1),
        shape(1, 7),
    ]
}

/// Returns the shapes of the groups of lookups.
pub fn lookup_layout() -> (r: Vec<BufferShape>)
    ensures
        r@ == lookup_shapes(),
{
    let r = vec![
        BufferShape { entries: 3, width: 2 },
        BufferShape { entries: 3, width: 29 },
        BufferShape { entries: 2, width: 3 },
        BufferShape { entries: 4, width: 2 },
        BufferShape { entries: 4, width: 2 },
        BufferShape { entries: 4, width: 2 },
        BufferShape { entries: 4, width: 2 },
        BufferShape { entries: 4, width: 2 },
        BufferShape { entries: 4, width: 2 },
        BufferShape { entries: 2, width: 2 },
        BufferShape { entries: 2, width: 2 },
        BufferShape { entries: 4, width: 1 },
        BufferShape { entries: 4, width: 1 },
        BufferShape { entries: 4, width: 1 },
        BufferShape { entries: 3, width: 1 },
        BufferShape { entries: 3, width: 1 },
        BufferShape { entries: 3, width: 1 },
        BufferShape { entries: 3, width: 1 },
        BufferShape { entries: 4, width: 1 },
        BufferShape { entries: 1, width: 1 },
        BufferShape { entries: 1, width: 1 },
        BufferShape { entries: 1, width: 7 },
    ];
    assert(r@ =~= lookup_shapes());
    r
}

/// The groups that other components are fed with: instructions, memory addresses, and memory ids.
pub open spec fn sub_input_shapes() -> Seq<BufferShape> {
    seq![shape(1, 7), shape(3, 1), shape(3, 1)]
}

/// Returns the shapes of the groups that other components are fed with.
pub fn sub_input_layout() -> (r: Vec<BufferShape>)
    ensures
        r@ == sub_input_shapes(),
{
    let r = vec![
        BufferShape { entries: 1, width: 7 },
        BufferShape { entries: 3, width: 1 },
        BufferShape { entries: 3, width: 1 },
    ];
    assert(r@ =~= sub_input_shapes());
    r
}

/// The registers of all steps, one column for each, padded for a trace.
pub struct CudaClaimGenerator {
    pub n_rows: usize,
    pub inputs: Vec<BaseFieldVec>,
}

impl CudaClaimGenerator {
    /// The columns hold the given states.
    pub open spec fn holds(self, states: Seq<CasmState>) -> bool {
        &&& self.n_rows == states.len()
        &&& columns(self.inputs@) == state_columns(states)
    }

    /// There are states, and the columns have the length of a trace with so many rows.
    pub open spec fn wf(self) -> bool {
        &&& 0 < self.n_rows <= 0x4000_0000
        &&& is_shape(columns(self.inputs@), 3, padded_rows(self.n_rows as nat))
    }

    /// Packs the states of all steps.
    pub fn new(inputs: Vec<CasmState>) -> (r: Self)
        requires
            0 < inputs@.len() <= 0x4000_0000,
        ensures
            r.wf(),
            r.holds(inputs@),
    {
        let n_rows = inputs.len();
        let cols = pack_states(&inputs);
        CudaClaimGenerator { n_rows, inputs: cols }
    }

    /// Returns the logarithm of the number of rows of the trace.
    pub fn log_size(&self) -> (log_size: u32)
        requires
            self.wf(),
        ensures
            log_size == padded_log(self.n_rows as nat),
            4 <= log_size <= MAX_LOG_SIZE,
    {
        proof {
            lemma_padded_log(self.n_rows as nat);
        }
        assert(columns(self.inputs@)[0].len() == padded_rows(self.n_rows as nat));
        ilog2(self.inputs[0].size())
    }

    /// Returns the buffers that the trace kernel fills.
    pub fn trace_buffers(&self) -> (b: TraceBuffers)
        requires
            self.wf(),
        ensures
            b.fit(
                CUDA_N_TRACE_COLUMNS as nat,
                lookup_shapes(),
                sub_input_shapes(),
                padded_log(self.n_rows as nat),
            ),
    {
        allocate(CUDA_N_TRACE_COLUMNS, &lookup_layout(), &sub_input_layout(), self.log_size())
    }

    /// Feeds the other components with what the trace kernel wrote and commits the trace.
    pub fn write_trace(
        self,
        buffers: TraceBuffers,
        tree_builder: &mut TreeBuilder,
        memory_address_to_id_state: &mut ComponentInputs,
        memory_id_to_big_state: &mut ComponentInputs,
        verify_instruction_state: &mut verify_instruction_cuda::CudaClaimGenerator,
        range_check_9_9_state: &mut CudaMultiRelationRangeCheckGenerator<2, 8>,
        range_check_20_state: &mut rc_20::CudaClaimGenerator,
        range_check_18_state: &mut rc_18::CudaClaimGenerator,
        range_check_11_state: &mut CudaRangeCheckGenerator<1>,
    ) -> (r: (Claim, CudaInteractionClaimGenerator))
        requires
            self.wf(),
            buffers.fit(
                CUDA_N_TRACE_COLUMNS as nat,
                lookup_shapes(),
                sub_input_shapes(),
                padded_log(self.n_rows as nat),
            ),
            old(verify_instruction_state).wf(),
            old(range_check_9_9_state).wf(),
            old(range_check_9_9_state).ranges@ == rc_9_9_ranges(),
            forall|r: int|
                0 <= r < 8 ==> are_all_inputs(
                    rc_9_9_ranges(),
                    #[trigger] pair_groups(groups(buffers.lookups@))[r],
                ),
            old(range_check_20_state).wf(),
            is_canonical(groups(buffers.lookups@)[LAST_CARRY_GROUP as int][0][0]),
            are_carries(
                normalized(groups(buffers.lookups@), LAST_CARRY_GROUP as int),
                FIRST_CARRY_GROUP as int,
            ),
            old(range_check_18_state).wf(),
            are_all_inputs(rc_18::ranges(), groups(buffers.lookups@)[RC_18_GROUP as int]),
            old(range_check_11_state).wf(),
            old(range_check_11_state).ranges@ == rc_11_ranges(),
            are_all_inputs(rc_11_ranges(), groups(buffers.lookups@)[RC_11_GROUP as int]),
        ensures
            r.0.log_size == padded_log(self.n_rows as nat),
            r.1.log_size == r.0.log_size,
            r.1.n_rows == self.n_rows,
            groups(r.1.lookup_data@) == normalized(
                groups(buffers.lookups@),
                LAST_CARRY_GROUP as int,
            ),
            r.1.wf(),
            final(tree_builder)@ == old(tree_builder)@ + committed(
                r.0.log_size,
                columns(buffers.trace@).remove(EXTRA_COLUMN as int),
            ),
            final(verify_instruction_state).wf(),
            final(verify_instruction_state)@ == verify_instruction_cuda::counted_lookups(
                old(verify_instruction_state)@,
                |pc: u32|
                    verify_instruction_cuda::lookups_of(
                        groups(buffers.sub_inputs@)[0],
                        pc,
                    ) as int,
            ),
            final(memory_address_to_id_state)@ == old(memory_address_to_id_state)@ + groups(
                buffers.sub_inputs@,
            )[1],
            final(memory_id_to_big_state)@ == old(memory_id_to_big_state)@ + groups(
                buffers.sub_inputs@,
            )[2],
            final(range_check_9_9_state).wf(),
            final(range_check_9_9_state).ranges == old(range_check_9_9_state).ranges,
            columns(final(range_check_9_9_state).multiplicities@) == fed_relations(
                columns(old(range_check_9_9_state).multiplicities@),
                rc_9_9_ranges(),
                pair_groups(groups(buffers.lookups@)),
            ),
            final(range_check_20_state).wf(),
            final(range_check_20_state).counters() == fed_relations(
                old(range_check_20_state).counters(),
                rc_20::ranges(),
                table_inputs(
                    normalized(groups(buffers.lookups@), LAST_CARRY_GROUP as int),
                    FIRST_CARRY_GROUP as int,
                ),
            ),
            final(range_check_18_state).wf(),
            final(range_check_18_state).counters() == fed_relation(
                old(range_check_18_state).counters(),
                rc_18::ranges(),
                groups(buffers.lookups@)[RC_18_GROUP as int],
                0,
            ),
            final(range_check_11_state).wf(),
            final(range_check_11_state).ranges == old(range_check_11_state).ranges,
            final(range_check_11_state).multiplicities@ == counted(
                old(range_check_11_state).multiplicities@,
                |i: int|
                    all_occurrences(
                        rc_11_ranges(),
                        groups(buffers.lookups@)[RC_11_GROUP as int],
                        i,
                    ) as int,
            ),
    {
        let log_size = self.log_size();
        proof {
            let fed = groups(buffers.sub_inputs@)[0];
            assert forall|b: int| 0 <= b < fed.len() implies (#[trigger] fed[b]).len() > 0 by {
                assert(is_shape(fed[b], 7, pow2(log_size as nat)));
            }
        }
        let ghost written = groups(buffers.lookups@);
        let mut buffers = buffers;
        proof {
            assert(is_shape(written[LAST_CARRY_GROUP as int][0], 1, pow2(log_size as nat)));
        }
        normalize_first_carry(&mut buffers.lookups, LAST_CARRY_GROUP);
        assert(pair_groups(groups(buffers.lookups@)) =~= pair_groups(written));
        assert(groups(buffers.lookups@)[RC_18_GROUP as int] == written[RC_18_GROUP as int]);
        assert(groups(buffers.lookups@)[RC_11_GROUP as int] == written[RC_11_GROUP as int]);
        verify_instruction_state.add_cuda_inputs(&buffers.sub_inputs[0]);
        memory_address_to_id_state.add_cuda_inputs(&buffers.sub_inputs[1]);
        memory_id_to_big_state.add_cuda_inputs(&buffers.sub_inputs[2]);
        range_check_9_9_state.add_relation_groups(&buffers.lookups, FIRST_PAIR_GROUP);
        feed_carries(range_check_20_state, &buffers.lookups, FIRST_CARRY_GROUP);
        range_check_18_state.add_cuda_inputs_for_relation(&buffers.lookups[RC_18_GROUP], 0);
        range_check_11_state.add_each(&buffers.lookups[RC_11_GROUP]);
        let mut trace = buffers.trace;
        let ghost all = columns(trace@);
        let _ = trace.remove(EXTRA_COLUMN);
        assert(columns(trace@) =~= all.remove(EXTRA_COLUMN as int));
        assert forall|i: int| 0 <= i < trace@.len() implies (#[trigger] columns(trace@)[i]).len()
            == pow2(log_size as nat) by {
            assert(columns(trace@)[i] == all[if i < EXTRA_COLUMN {
                i
            } else {
                i + 1
            }]);
        }
        tree_builder.extend_evals(log_size, trace);
        (
            Claim { log_size },
            CudaInteractionClaimGenerator {
                n_rows: self.n_rows,
                log_size,
                lookup_data: buffers.lookups,
            },
        )
    }
}

/// Writes the interaction trace.
pub struct CudaInteractionClaimGenerator {
    pub n_rows: usize,
    pub log_size: u32,
    pub lookup_data: Vec<Vec<Vec<BaseFieldVec>>>,
}

/// The elements that the interaction kernel is handed, in order.
pub open spec fn requests(ids: RelationIds) -> Seq<LookupRequest> {
    seq![
        LookupRequest::Plain(ids.memory_address_to_id),
        LookupRequest::Plain(ids.memory_id_to_big),
        LookupRequest::Plain(ids.opcodes),
        LookupRequest::Plain(ids.rc_9_9@[0]),
        LookupRequest::Plain(ids.rc_9_9@[1]),
        LookupRequest::Plain(ids.rc_9_9@[2]),
        LookupRequest::Plain(ids.rc_9_9@[3]),
        LookupRequest::Plain(ids.rc_9_9@[4]),
        LookupRequest::Plain(ids.rc_9_9@[5]),
        LookupRequest::Plain(ids.rc_9_9@[6]),
        LookupRequest::Plain(ids.rc_9_9@[7]),
        LookupRequest::WithOffset(ids.rc_19@[1], OFFSET_CORRECTION),
        LookupRequest::WithOffset(ids.rc_19@[2], OFFSET_CORRECTION),
        LookupRequest::WithOffset(ids.rc_19@[3], OFFSET_CORRECTION),
        LookupRequest::WithOffset(ids.rc_19@[4], OFFSET_CORRECTION),
        LookupRequest::WithOffset(ids.rc_19@[5], OFFSET_CORRECTION),
        LookupRequest::WithOffset(ids.rc_19@[6], OFFSET_CORRECTION),
        LookupRequest::WithOffset(ids.rc_19@[7], OFFSET_CORRECTION),
        LookupRequest::WithOffset(ids.rc_19@[0], OFFSET_CORRECTION),
        LookupRequest::Plain(ids.rc_18),
        LookupRequest::Plain(ids.rc_11),
        LookupRequest::Plain(ids.verify_instruction),
    ]
}

proof fn lemma_plain_requests(ids: RelationIds)
    ensures
        requests(ids).len() == 22,
        requests(ids)[0] == LookupRequest::Plain(ids.memory_address_to_id),
        requests(ids)[1] == LookupRequest::Plain(ids.memory_id_to_big),
        requests(ids)[2] == LookupRequest::Plain(ids.opcodes),
        requests(ids)[19] == LookupRequest::Plain(ids.rc_18),
        requests(ids)[20] == LookupRequest::Plain(ids.rc_11),
        requests(ids)[21] == LookupRequest::Plain(ids.verify_instruction),
{
}

/// The groups of memory, of states, of numbers and of instructions are handed the elements of
/// their own relations.
pub proof fn law_groups_are_looked_up_in_their_relations(
    ms: Seq<LookupElements>,
    common: LookupElements,
    ids: RelationIds,
)
    requires
        common.is_common(),
        answer_all(ms, common, requests(ids)),
    ensures
        ms.len() == 22,
        looks_up(ms[0], common, ids.memory_address_to_id),
        looks_up(ms[1], common, ids.memory_id_to_big),
        looks_up(ms[2], common, ids.opcodes),
        looks_up(ms[RC_18_GROUP as int], common, ids.rc_18),
        looks_up(ms[RC_11_GROUP as int], common, ids.rc_11),
        looks_up(ms[21], common, ids.verify_instruction),
{
    let asked = requests(ids);
    lemma_plain_requests(ids);
    law_answers_look_up(ms, common, asked);
    assert(looks_up_request(ms[0], common, asked[0]));
    assert(looks_up_request(ms[1], common, asked[1]));
    assert(looks_up_request(ms[2], common, asked[2]));
    assert(looks_up_request(ms[19], common, asked[19]));
    assert(looks_up_request(ms[20], common, asked[20]));
    assert(looks_up_request(ms[21], common, asked[21]));
}

proof fn lemma_pair_request(ids: RelationIds, r: int)
    requires
        0 <= r < 8,
    ensures
        requests(ids).len() == 22,
        requests(ids)[FIRST_PAIR_GROUP + r] == LookupRequest::Plain(ids.rc_9_9@[r]),
{
}

/// The group of pairs that a relation of the table of pairs is fed with is looked up in that
/// relation.
pub proof fn law_pairs_are_looked_up_where_counted(
    ms: Seq<LookupElements>,
    common: LookupElements,
    ids: RelationIds,
    lookups: Seq<Seq<Seq<Seq<u32>>>>,
    r: int,
)
    requires
        common.is_common(),
        answer_all(ms, common, requests(ids)),
        lookups.len() == lookup_shapes().len(),
        0 <= r < 8,
    ensures
        looks_up(ms[FIRST_PAIR_GROUP + r], common, ids.rc_9_9@[r]),
        pair_groups(lookups)[r] == lookups[FIRST_PAIR_GROUP + r],
{
    let asked = requests(ids);
    lemma_pair_request(ids, r);
    law_answers_look_up(ms, common, asked);
    assert(looks_up_request(ms[FIRST_PAIR_GROUP + r], common, asked[FIRST_PAIR_GROUP + r]));
}

proof fn lemma_carry_request(ids: RelationIds, r: int)
    requires
        0 <= r < N_CARRY_GROUPS,
    ensures
        requests(ids).len() == 22,
        requests(ids)[FIRST_CARRY_GROUP + group_of_relation(r)] == LookupRequest::WithOffset(
            ids.rc_19@[r],
            OFFSET_CORRECTION,
        ),
{
}

/// The group of carries that a relation of the table of 20-bit numbers is fed with is looked up in
/// that relation: the stored carry has the denominator of the number that was counted.
pub proof fn law_carries_are_looked_up_where_counted(
    ms: Seq<LookupElements>,
    common: LookupElements,
    ids: RelationIds,
    lookups: Seq<Seq<Seq<Seq<u32>>>>,
    r: int,
    b: int,
    i: int,
)
    requires
        common.is_common(),
        answer_all(ms, common, requests(ids)),
        are_carries(lookups, FIRST_CARRY_GROUP as int),
        0 <= r < N_CARRY_GROUPS,
        0 <= b < lookups[FIRST_CARRY_GROUP + group_of_relation(r)].len(),
        0 <= i < lookups[FIRST_CARRY_GROUP + group_of_relation(r)][b][0].len(),
    ensures
        combined(
            ms[FIRST_CARRY_GROUP + group_of_relation(r)],
            seq![lookups[FIRST_CARRY_GROUP + group_of_relation(r)][b][0][i]],
        ) == combined(
            common,
            seq![ids.rc_19@[r], table_inputs(lookups, FIRST_CARRY_GROUP as int)[r][b][0][i]],
        ),
{
    reveal(crate::lookup::looks_up_shifted);
    let at = FIRST_CARRY_GROUP + group_of_relation(r);
    lemma_carry_request(ids, r);
    law_answers_look_up(ms, common, requests(ids));
    assert(looks_up_request(ms[at], common, requests(ids)[at]));
    let stored = lookups[at][b][0][i];
    let fed = table_inputs(lookups, FIRST_CARRY_GROUP as int)[r][b][0][i];
    assert(seq![stored].update(0, fed) =~= seq![fed]);
    assert(seq![ids.rc_19@[r]] + seq![fed] =~= seq![ids.rc_19@[r], fed]);
    assert(combined(ms[at], seq![stored]) == combined(
        common,
        seq![ids.rc_19@[r]] + seq![stored].update(
            0,
            ((stored + OFFSET_CORRECTION) % (crate::field::P as int)) as u32,
        ),
    ));
}

/// A column of the interaction trace holds two fractions, so there is one for every two entries;
/// what is fed on has an entry for each lookup: an address is looked up with its identifier, and
/// an identifier with the limbs of its value.
pub proof fn law_lookups_match_feeds()
    ensures
        (entries_before(lookup_shapes(), 22) + 1) / 2 == N_INTERACTION_TRACE_COLUMNS,
        lookup_shapes().len() == 22,
        lookup_shapes()[0].entries == sub_input_shapes()[1].entries,
        lookup_shapes()[0].width == sub_input_shapes()[1].width + 1,
        lookup_shapes()[1].entries == sub_input_shapes()[2].entries,
        lookup_shapes()[1].width == sub_input_shapes()[2].width + N_VALUE_LIMBS,
        lookup_shapes()[1].entries == lookup_shapes()[0].entries,
        lookup_shapes()[21] == sub_input_shapes()[0],
        lookup_shapes()[21] == shape(1, N_INSTRUCTION_FIELDS),
        lookup_shapes()[2] == shape(2, N_REGISTERS),
        N_TRACE_COLUMNS + 1 == CUDA_N_TRACE_COLUMNS,
        LAST_CARRY_GROUP == FIRST_CARRY_GROUP + group_of_relation(0),
        forall|r: int| 0 <= r < 8 ==> (#[trigger] lookup_shapes()[FIRST_PAIR_GROUP + r]).width
            == rc_9_9_ranges().len(),
        forall|g: int|
            FIRST_CARRY_GROUP <= g <= RC_11_GROUP ==> (#[trigger] lookup_shapes()[g]).width
            == 1,
{
    reveal_with_fuel(entries_before, 23);
}

impl CudaInteractionClaimGenerator {
    /// The lookups are those of a trace of the given size.
    pub open spec fn wf(self) -> bool {
        &&& 0 < self.log_size <= MAX_LOG_SIZE
        &&& have_shapes(groups(self.lookup_data@), lookup_shapes(), pow2(self.log_size as nat))
    }

    /// Returns the elements that the interaction kernel is handed.
    pub fn relation_elements(&self, common: &LookupElements, ids: &RelationIds) -> (ms: Vec<
        LookupElements,
    >)
        requires
            common.is_common(),
            ids.wf(),
        ensures
            answer_all(ms@, *common, requests(*ids)),
    {
        let asked = vec![
            LookupRequest::Plain(ids.memory_address_to_id),
            LookupRequest::Plain(ids.memory_id_to_big),
            LookupRequest::Plain(ids.opcodes),
            LookupRequest::Plain(ids.rc_9_9[0]),
            LookupRequest::Plain(ids.rc_9_9[1]),
            LookupRequest::Plain(ids.rc_9_9[2]),
            LookupRequest::Plain(ids.rc_9_9[3]),
            LookupRequest::Plain(ids.rc_9_9[4]),
            LookupRequest::Plain(ids.rc_9_9[5]),
            LookupRequest::Plain(ids.rc_9_9[6]),
            LookupRequest::Plain(ids.rc_9_9[7]),
            LookupRequest::WithOffset(ids.rc_19[1], OFFSET_CORRECTION),
            LookupRequest::WithOffset(ids.rc_19[2], OFFSET_CORRECTION),
            LookupRequest::WithOffset(ids.rc_19[3], OFFSET_CORRECTION),
            LookupRequest::WithOffset(ids.rc_19[4], OFFSET_CORRECTION),
            LookupRequest::WithOffset(ids.rc_19[5], OFFSET_CORRECTION),
            LookupRequest::WithOffset(ids.rc_19[6], OFFSET_CORRECTION),
            LookupRequest::WithOffset(ids.rc_19[7], OFFSET_CORRECTION),
            LookupRequest::WithOffset(ids.rc_19[0], OFFSET_CORRECTION),
            LookupRequest::Plain(ids.rc_18),
            LookupRequest::Plain(ids.rc_11),
            LookupRequest::Plain(ids.verify_instruction),
        ];
        assert(asked@ =~= requests(*ids));
        modified_lookups(common, &asked)
    }

    /// Returns the columns of zeroes that the interaction kernel fills.
    pub fn interaction_columns(&self) -> (cols: Vec<BaseFieldVec>)
        requires
            self.wf(),
        ensures
            columns(cols@) == zero_columns(
                4 * N_INTERACTION_TRACE_COLUMNS as nat,
                pow2(self.log_size as nat),
            ),
    {
        interaction_columns(N_INTERACTION_TRACE_COLUMNS, self.log_size)
    }

    /// Commits the columns that the interaction kernel filled and claims its sum.
    pub fn write_interaction_trace(
        self,
        tree_builder: &mut TreeBuilder,
        cols: Vec<BaseFieldVec>,
        claimed_sum: [u32; 4],
    ) -> (r: InteractionClaim)
        requires
            self.wf(),
            is_shape(
                columns(cols@),
                4 * N_INTERACTION_TRACE_COLUMNS as nat,
                pow2(self.log_size as nat),
            ),
        ensures
            final(tree_builder)@ == old(tree_builder)@ + committed(self.log_size, columns(cols@)),
            r.claimed_sum == secure_of(claimed_sum@),
    {
        finish_interaction(tree_builder, cols, self.log_size, claimed_sum)
    }
}

} // verus!

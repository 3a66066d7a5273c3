//! Steps of multiplications of points of an elliptic curve by numbers.

use crate::bits::{
    ceil_log2, ilog2, lemma_floor_log2_of_pow2, lemma_padding_is_shorter, lemma_pow2_bound,
    next_power_of_two, N_LANES,
};
use crate::column::{columns, is_shape, new_zero_columns, zero_columns, BaseFieldVec};
use crate::components_cuda::pedersen_points_table_cuda;
use crate::components_cuda::range_check::base::{
    all_occurrences, are_all_inputs, counted, fed_relations, CudaMultiRelationRangeCheckGenerator,
};
use crate::components_cuda::range_check::rc_20;
use crate::components_cuda::range_check::tables::rc_9_9_ranges;
use crate::inputs::{
    all_cycled, appended, are_packed, extend_columns, lane_columns, pad_columns, unpack_columns,
    Pack,
};
use crate::launch::{
    allocate, answer_all, entries_before, finish_interaction, groups, have_shapes,
    interaction_columns, law_answers_look_up, looks_up_request, modified_lookups, secure_of, shape,
    BufferShape, Claim, InteractionClaim, LookupRequest, TraceBuffers,
};
use crate::lookup::{looks_up, LookupElements, RelationIds};
use crate::tree_builder::{committed, TreeBuilder, MAX_LOG_SIZE};
use vstd::arithmetic::power2::pow2;
use vstd::prelude::*;

verus! {

pub const N_TRACE_COLUMNS: usize = 297;

/// The number of secure columns of the interaction trace.
pub const N_LOGUP_COLUMNS: usize = 65;

/// The number of fields of an input: two counters, fourteen limbs of the number, and the limbs of
/// the two coordinates of the point.
pub const N_INPUT_COLUMNS: usize = 72;

/// Where the groups of pairs of 9-bit numbers begin among those that are fed.
pub const FIRST_PAIR_GROUP: usize = 1;

/// Where the groups of 20-bit numbers begin among those that are fed.
pub const FIRST_CARRY_GROUP: usize = 9;

/// The groups of lookups: the steps before and after, a row of the table of points, eight groups of
/// 20-bit numbers, and eight groups of pairs of 9-bit numbers.
pub open spec fn lookup_shapes() -> Seq<BufferShape> {
    seq![
        shape(2, 73),
        shape(1, 58),
        shape(12, 2),
        shape(12, 2),
        shape(12, 2),
        shape(12, 2),
        shape(9, 2),
        shape(9, 2),
        shape(9, 2),
        shape(9, 2),
        shape(6, 3),
        shape(6, 3),
        shape(6, 3),
        shape(6, 3),
        shape(6, 3),
        shape(6, 3),
        shape(3, 3),
        shape(3, 3),
    ]
}

/// Returns the shapes of the groups of lookups.
pub fn lookup_layout() -> (r: Vec<BufferShape>)
    ensures
        r@ == lookup_shapes(),
{
    let r = vec![
        BufferShape { entries: 2, width: 73 },
        BufferShape { entries: 1, width: 58 },
        BufferShape { entries: 12, width: 2 },
        BufferShape { entries: 12, width: 2 },
        BufferShape { entries: 12, width: 2 },
        BufferShape { entries: 12, width: 2 },
        BufferShape { entries: 9, width: 2 },
        BufferShape { entries: 9, width: 2 },
        BufferShape { entries: 9, width: 2 },
        BufferShape { entries: 9, width: 2 },
        BufferShape { entries: 6, width: 3 },
        BufferShape { entries: 6, width: 3 },
        BufferShape { entries: 6, width: 3 },
        BufferShape { entries: 6, width: 3 },
        BufferShape { entries: 6, width: 3 },
        BufferShape { entries: 6, width: 3 },
        BufferShape { entries: 3, width: 3 },
        BufferShape { entries: 3, width: 3 },
    ];
    assert(r@ =~= lookup_shapes());
    r
}

/// The groups that other components are fed with: indices of the table of points, eight groups of
/// pairs of 9-bit numbers, and eight groups of 20-bit numbers.
pub open spec fn sub_input_shapes() -> Seq<BufferShape> {
    seq![
        shape(1, 1),
        shape(6, 2),
        shape(6, 2),
        shape(6, 2),
        shape(6, 2),
        shape(6, 2),
        shape(6, 2),
        shape(3, 2),
        shape(3, 2),
        shape(12, 1),
        shape(12, 1),
        shape(12, 1),
        shape(12, 1),
        shape(9, 1),
        shape(9, 1),
        shape(9, 1),
        shape(9, 1),
    ]
}

/// Returns the shapes of the groups that other components are fed with.
pub fn sub_input_layout() -> (r: Vec<BufferShape>)
    ensures
        r@ == sub_input_shapes(),
{
    let r = vec![
        BufferShape { entries: 1, width: 1 },
        BufferShape { entries: 6, width: 2 },
        BufferShape { entries: 6, width: 2 },
        BufferShape { entries: 6, width: 2 },
        BufferShape { entries: 6, width: 2 },
        BufferShape { entries: 6, width: 2 },
        BufferShape { entries: 6, width: 2 },
        BufferShape { entries: 3, width: 2 },
        BufferShape { entries: 3, width: 2 },
        BufferShape { entries: 12, width: 1 },
        BufferShape { entries: 12, width: 1 },
        BufferShape { entries: 12, width: 1 },
        BufferShape { entries: 12, width: 1 },
        BufferShape { entries: 9, width: 1 },
        BufferShape { entries: 9, width: 1 },
        BufferShape { entries: 9, width: 1 },
        BufferShape { entries: 9, width: 1 },
    ];
    assert(r@ =~= sub_input_shapes());
    r
}

/// The fed pairs of 9-bit numbers, one group for each relation.
pub open spec fn pair_groups(sub_inputs: Seq<Seq<Seq<Seq<u32>>>>) -> Seq<Seq<Seq<Seq<u32>>>> {
    sub_inputs.subrange(FIRST_PAIR_GROUP as int, FIRST_PAIR_GROUP + 8)
}

/// The fed 20-bit numbers, one group for each relation.
pub open spec fn carry_groups(sub_inputs: Seq<Seq<Seq<Seq<u32>>>>) -> Seq<Seq<Seq<Seq<u32>>>> {
    sub_inputs.subrange(FIRST_CARRY_GROUP as int, FIRST_CARRY_GROUP + 8)
}

/// The inputs of all steps, one column for each field.
pub struct CudaClaimGenerator {
    pub input_columns: Vec<BaseFieldVec>,
    pub size: u32,
}

/// The columns, or empty ones where there are none yet.
pub open spec fn or_empty(cols: Seq<Seq<u32>>) -> Seq<Seq<u32>> {
    if cols.len() == 0 {
        zero_columns(N_INPUT_COLUMNS as nat, 0)
    } else {
        cols
    }
}

impl CudaClaimGenerator {
    /// There are no columns and no rows, or a column for each field with a value for each row.
    pub open spec fn wf(self) -> bool {
        ||| self.input_columns@.len() == 0 && self.size == 0
        ||| is_shape(columns(self.input_columns@), N_INPUT_COLUMNS as nat, self.size as nat)
    }

    /// Returns a generator without inputs.
    pub fn new() -> (r: Self)
        ensures
            r.wf(),
            r.size == 0,
            r.input_columns@.len() == 0,
    {
        CudaClaimGenerator { input_columns: Vec::new(), size: 0 }
    }

    /// Tells whether there are no inputs.
    pub fn is_empty(&self) -> (r: bool)
        ensures
            r == (self.size == 0),
    {
        self.size == 0
    }

    /// Appends packed inputs.
    pub fn add_packed_inputs(&mut self, inputs: &Vec<Vec<Pack>>)
        requires
            old(self).wf(),
            are_packed(inputs@, N_INPUT_COLUMNS as nat),
            old(self).size + 16 * inputs@.len() <= u32::MAX,
        ensures
            final(self).wf(),
            columns(final(self).input_columns@) == appended(
                or_empty(columns(old(self).input_columns@)),
                lane_columns(inputs@, N_INPUT_COLUMNS as nat),
            ),
            final(self).size == old(self).size + 16 * inputs@.len(),
    {
        if self.input_columns.len() == 0 {
            self.input_columns = new_zero_columns(N_INPUT_COLUMNS, 0);
        } else {
            assert(columns(self.input_columns@).len() == N_INPUT_COLUMNS);
        }
        let ghost before = columns(self.input_columns@);
        assert(before == or_empty(columns(old(self).input_columns@)));
        assert(is_shape(before, N_INPUT_COLUMNS as nat, self.size as nat));
        let more = unpack_columns(inputs, N_INPUT_COLUMNS);
        assert(columns(more@).len() == N_INPUT_COLUMNS);
        extend_columns(&mut self.input_columns, &more);
        proof {
            let now = columns(self.input_columns@);
            assert forall|i: int| 0 <= i < now.len() implies (#[trigger] now[i]).len() == self.size
                + 16 * inputs@.len() by {
                assert(before[i].len() == self.size);
            }
            assert(now.len() == N_INPUT_COLUMNS);
            assert(now[0].len() == self.size + 16 * inputs@.len());
        }
        self.size = self.input_columns[0].size() as u32;
    }

    /// Replaces all inputs by columns that a kernel wrote.
    pub fn set_cuda_inputs(&mut self, cuda_inputs: Vec<BaseFieldVec>, total_rows: usize)
        requires
            total_rows <= u32::MAX,
            is_shape(columns(cuda_inputs@), N_INPUT_COLUMNS as nat, total_rows as nat),
        ensures
            final(self).wf(),
            columns(final(self).input_columns@) == columns(cuda_inputs@),
            final(self).size == total_rows,
    {
        self.input_columns = cuda_inputs;
        self.size = total_rows as u32;
    }

    /// Pads the inputs for a trace, by repeating the first pack of rows, and returns the logarithm
    /// of the number of rows.
    pub fn pad_inputs(&mut self) -> (log_size: u32)
        requires
            old(self).wf(),
            0 < old(self).size <= 0x8000_0000,
        ensures
            final(self).size == old(self).size,
            log_size == ceil_log2(old(self).size as nat),
            log_size < 32,
            columns(final(self).input_columns@) == all_cycled(
                columns(old(self).input_columns@),
                pow2(log_size as nat),
                if old(self).size < N_LANES {
                    old(self).size as nat
                } else {
                    N_LANES as nat
                },
            ),
    {
        let n_rows = self.size as usize;
        let padded_size = next_power_of_two(n_rows);
        proof {
            lemma_padding_is_shorter(n_rows as nat);
            lemma_floor_log2_of_pow2(ceil_log2(n_rows as nat));
            lemma_pow2_bound(ceil_log2(n_rows as nat));
        }
        let log_size = ilog2(padded_size);
        let cycle: usize = if n_rows < N_LANES {
            n_rows
        } else {
            N_LANES
        };
        assert forall|i: int| 0 <= i < self.input_columns@.len() implies (#[trigger] columns(
            self.input_columns@,
        )[i]).len() <= padded_size <= 2 * columns(self.input_columns@)[i].len() by {}
        pad_columns(&mut self.input_columns, padded_size, cycle);
        log_size
    }

    /// Returns the buffers that the trace kernel fills.
    pub fn trace_buffers(log_size: u32) -> (b: TraceBuffers)
        requires
            log_size < 32,
        ensures
            b.fit(N_TRACE_COLUMNS as nat, lookup_shapes(), sub_input_shapes(), log_size),
    {
        allocate(N_TRACE_COLUMNS, &lookup_layout(), &sub_input_layout(), log_size)
    }

    /// Feeds the other components with what the trace kernel wrote and commits the trace.
    pub fn write_trace(
        self,
        log_size: u32,
        buffers: TraceBuffers,
        tree_builder: &mut TreeBuilder,
        pedersen_points_table_state: &mut pedersen_points_table_cuda::CudaClaimGenerator,
        range_check_9_9_state: &mut CudaMultiRelationRangeCheckGenerator<2, 8>,
        range_check_20_state: &mut rc_20::CudaClaimGenerator,
    ) -> (r: (Claim, CudaInteractionClaimGenerator))
        requires
            self.size > 0,
            log_size == ceil_log2(self.size as nat),
            0 < log_size <= MAX_LOG_SIZE,
            buffers.fit(N_TRACE_COLUMNS as nat, lookup_shapes(), sub_input_shapes(), log_size),
            old(pedersen_points_table_state).wf(),
            are_all_inputs(
                pedersen_points_table_cuda::index_ranges(),
                groups(buffers.sub_inputs@)[0],
            ),
            old(range_check_9_9_state).wf(),
            old(range_check_9_9_state).ranges@ == rc_9_9_ranges(),
            forall|r: int|
                0 <= r < 8 ==> are_all_inputs(
                    rc_9_9_ranges(),
                    #[trigger] pair_groups(groups(buffers.sub_inputs@))[r],
                ),
            old(range_check_20_state).wf(),
            forall|r: int|
                0 <= r < 8 ==> are_all_inputs(
                    rc_20::ranges(),
                    #[trigger] carry_groups(groups(buffers.sub_inputs@))[r],
                ),
        ensures
            r.0.log_size == log_size,
            r.1.n_rows == self.size,
            r.1.log_size == log_size,
            groups(r.1.lookup_data@) == groups(buffers.lookups@),
            r.1.wf(),
            final(tree_builder)@ == old(tree_builder)@ + committed(
                log_size,
                columns(buffers.trace@),
            ),
            final(pedersen_points_table_state).wf(),
            final(pedersen_points_table_state).multiplicities@ == counted(
                old(pedersen_points_table_state).multiplicities@,
                |i: int|
                    all_occurrences(
                        pedersen_points_table_cuda::index_ranges(),
                        groups(buffers.sub_inputs@)[0],
                        i,
                    ) as int,
            ),
            final(range_check_9_9_state).wf(),
            final(range_check_9_9_state).ranges == old(range_check_9_9_state).ranges,
            columns(final(range_check_9_9_state).multiplicities@) == fed_relations(
                columns(old(range_check_9_9_state).multiplicities@),
                rc_9_9_ranges(),
                pair_groups(groups(buffers.sub_inputs@)),
            ),
            final(range_check_20_state).wf(),
            final(range_check_20_state).counters() == fed_relations(
                old(range_check_20_state).counters(),
                rc_20::ranges(),
                carry_groups(groups(buffers.sub_inputs@)),
            ),
    {
        proof {
            let fed = groups(buffers.sub_inputs@);
            assert(fed.len() == sub_input_shapes().len());
            assert(pair_groups(fed) =~= fed.subrange(
                FIRST_PAIR_GROUP as int,
                FIRST_PAIR_GROUP + 8,
            ));
            assert(carry_groups(fed) =~= fed.subrange(
                FIRST_CARRY_GROUP as int,
                FIRST_CARRY_GROUP + 8,
            ));
        }
        pedersen_points_table_state.add_cuda_inputs(&buffers.sub_inputs[0]);
        range_check_9_9_state.add_relation_groups(&buffers.sub_inputs, FIRST_PAIR_GROUP);
        range_check_20_state.0.add_relation_groups(&buffers.sub_inputs, FIRST_CARRY_GROUP);
        tree_builder.extend_evals(log_size, buffers.trace);
        (
            Claim { log_size },
            CudaInteractionClaimGenerator {
                n_rows: self.size as usize,
                log_size,
                lookup_data: buffers.lookups,
            },
        )
    }
}

impl Default for CudaClaimGenerator {
    fn default() -> (r: Self)
        ensures
            r.wf(),
            r.size == 0,
            r.input_columns@.len() == 0,
    {
        CudaClaimGenerator::new()
    }
}

/// Writes the interaction trace.
pub struct CudaInteractionClaimGenerator {
    pub n_rows: usize,
    pub log_size: u32,
    pub lookup_data: Vec<Vec<Vec<BaseFieldVec>>>,
}

/// The elements that the interaction kernel is handed, in order.
pub open spec fn requests(ids: RelationIds) -> Seq<LookupRequest> {
    seq![
        LookupRequest::Plain(ids.partial_ec_mul),
        LookupRequest::Plain(ids.pedersen_points_table),
        LookupRequest::Plain(ids.rc_19@[0]),
        LookupRequest::Plain(ids.rc_19@[1]),
        LookupRequest::Plain(ids.rc_19@[2]),
        LookupRequest::Plain(ids.rc_19@[3]),
        LookupRequest::Plain(ids.rc_19@[4]),
        LookupRequest::Plain(ids.rc_19@[5]),
        LookupRequest::Plain(ids.rc_19@[6]),
        LookupRequest::Plain(ids.rc_19@[7]),
        LookupRequest::Plain(ids.rc_9_9@[0]),
        LookupRequest::Plain(ids.rc_9_9@[1]),
        LookupRequest::Plain(ids.rc_9_9@[2]),
        LookupRequest::Plain(ids.rc_9_9@[3]),
        LookupRequest::Plain(ids.rc_9_9@[4]),
        LookupRequest::Plain(ids.rc_9_9@[5]),
        LookupRequest::Plain(ids.rc_9_9@[6]),
        LookupRequest::Plain(ids.rc_9_9@[7]),
    ]
}

proof fn lemma_carry_request(ids: RelationIds, r: int)
    requires
        0 <= r < 8,
    ensures
        requests(ids).len() == 18,
        requests(ids)[2 + r] == LookupRequest::Plain(ids.rc_19@[r]),
{
}

proof fn lemma_pair_request(ids: RelationIds, r: int)
    requires
        0 <= r < 8,
    ensures
        requests(ids).len() == 18,
        requests(ids)[10 + r] == LookupRequest::Plain(ids.rc_9_9@[r]),
{
}

/// Every group of lookups is handed the elements of its own relation: first the steps and the
/// points, then the eight groups of carries in the order in which the relations of the table of
/// 20-bit numbers are fed with them, then the eight groups of pairs likewise. As many carries and
/// pairs are looked up in a relation as it is fed with, each behind the relation's constant.
pub proof fn law_groups_are_looked_up_in_their_relations(
    ms: Seq<LookupElements>,
    common: LookupElements,
    ids: RelationIds,
    sub_inputs: Seq<Seq<Seq<Seq<u32>>>>,
    r: int,
)
    requires
        common.is_common(),
        answer_all(ms, common, requests(ids)),
        sub_inputs.len() == sub_input_shapes().len(),
        0 <= r < 8,
    ensures
        ms.len() == lookup_shapes().len(),
        looks_up(ms[0], common, ids.partial_ec_mul),
        looks_up(ms[1], common, ids.pedersen_points_table),
        looks_up(ms[2 + r], common, ids.rc_19@[r]),
        looks_up(ms[10 + r], common, ids.rc_9_9@[r]),
        carry_groups(sub_inputs)[r] == sub_inputs[FIRST_CARRY_GROUP + r],
        pair_groups(sub_inputs)[r] == sub_inputs[FIRST_PAIR_GROUP + r],
        lookup_shapes()[2 + r].entries == sub_input_shapes()[FIRST_CARRY_GROUP + r].entries,
        lookup_shapes()[2 + r].width == rc_20::ranges().len() + 1,
        sub_input_shapes()[FIRST_CARRY_GROUP + r].width == rc_20::ranges().len(),
        lookup_shapes()[10 + r].entries == sub_input_shapes()[FIRST_PAIR_GROUP + r].entries,
        lookup_shapes()[10 + r].width == rc_9_9_ranges().len() + 1,
        sub_input_shapes()[FIRST_PAIR_GROUP + r].width == rc_9_9_ranges().len(),
{
    let asked = requests(ids);
    lemma_carry_request(ids, r);
    lemma_pair_request(ids, r);
    law_answers_look_up(ms, common, asked);
    assert(looks_up_request(ms[0], common, asked[0]));
    assert(looks_up_request(ms[1], common, asked[1]));
    assert(looks_up_request(ms[2 + r], common, asked[2 + r]));
    assert(looks_up_request(ms[10 + r], common, asked[10 + r]));
}

/// A column of the interaction trace holds two fractions, so there is one for every two entries. A
/// step stands behind the relation's constant.
pub proof fn law_columns_hold_two_fractions()
    ensures
        (entries_before(lookup_shapes(), 18) + 1) / 2 == N_LOGUP_COLUMNS,
        lookup_shapes()[0].width == N_INPUT_COLUMNS + 1,
        sub_input_shapes()[0] == shape(lookup_shapes()[1].entries, 1),
{
    reveal_with_fuel(entries_before, 19);
}

impl CudaInteractionClaimGenerator {
    /// The lookups are those of a trace of the given size.
    pub open spec fn wf(self) -> bool {
        &&& 0 < self.log_size <= MAX_LOG_SIZE
        &&& have_shapes(groups(self.lookup_data@), lookup_shapes(), pow2(self.log_size as nat))
    }

    /// Returns the elements that the interaction kernel is handed.
    pub fn relation_elements(&self, common: &LookupElements, ids: &RelationIds) -> (ms: Vec<
        LookupElements,
    >)
        requires
            common.is_common(),
            ids.wf(),
        ensures
            answer_all(ms@, *common, requests(*ids)),
    {
        let asked = vec![
            LookupRequest::Plain(ids.partial_ec_mul),
            LookupRequest::Plain(ids.pedersen_points_table),
            LookupRequest::Plain(ids.rc_19[0]),
            LookupRequest::Plain(ids.rc_19[1]),
            LookupRequest::Plain(ids.rc_19[2]),
            LookupRequest::Plain(ids.rc_19[3]),
            LookupRequest::Plain(ids.rc_19[4]),
            LookupRequest::Plain(ids.rc_19[5]),
            LookupRequest::Plain(ids.rc_19[6]),
            LookupRequest::Plain(ids.rc_19[7]),
            LookupRequest::Plain(ids.rc_9_9[0]),
            LookupRequest::Plain(ids.rc_9_9[1]),
            LookupRequest::Plain(ids.rc_9_9[2]),
            LookupRequest::Plain(ids.rc_9_9[3]),
            LookupRequest::Plain(ids.rc_9_9[4]),
            LookupRequest::Plain(ids.rc_9_9[5]),
            LookupRequest::Plain(ids.rc_9_9[6]),
            LookupRequest::Plain(ids.rc_9_9[7]),
        ];
        assert(asked@ =~= requests(*ids));
        modified_lookups(common, &asked)
    }

    /// Returns the columns of zeroes that the interaction kernel fills.
    pub fn interaction_columns(&self) -> (cols: Vec<BaseFieldVec>)
        requires
            self.wf(),
        ensures
            columns(cols@) == zero_columns(
                4 * N_LOGUP_COLUMNS as nat,
                pow2(self.log_size as nat),
            ),
    {
        interaction_columns(N_LOGUP_COLUMNS, self.log_size)
    }

    /// Commits the columns that the interaction kernel filled and claims its sum.
    pub fn write_interaction_trace(
        self,
        tree_builder: &mut TreeBuilder,
        cols: Vec<BaseFieldVec>,
        claimed_sum: [u32; 4],
    ) -> (r: InteractionClaim)
        requires
            self.wf(),
            is_shape(
                columns(cols@),
                4 * N_LOGUP_COLUMNS as nat,
                pow2(self.log_size as nat),
            ),
        ensures
            final(tree_builder)@ == old(tree_builder)@ + committed(self.log_size, columns(cols@)),
            r.claimed_sum == secure_of(claimed_sum@),
    {
        finish_interaction(tree_builder, cols, self.log_size, claimed_sum)
    }
}

/// What a component was fed with first is all it has, and what it is fed with later follows behind.
pub proof fn law_first_rows_are_all_rows(cols: Seq<Seq<u32>>, more: Seq<Seq<u32>>, f: int)
    requires
        more.len() == N_INPUT_COLUMNS,
        cols.len() == 0 || cols.len() == N_INPUT_COLUMNS,
        0 <= f < N_INPUT_COLUMNS,
    ensures
        appended(or_empty(cols), more).len() == N_INPUT_COLUMNS,
        cols.len() == 0 ==> appended(or_empty(cols), more)[f] == more[f],
        cols.len() > 0 ==> appended(or_empty(cols), more)[f] == cols[f] + more[f],
{
    if cols.len() == 0 {
        assert(or_empty(cols)[f] + more[f] =~= more[f]);
    }
}

} // verus!

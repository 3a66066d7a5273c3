//! Chains of partial rounds of the hash, three in a row: a row holds the number of its chain, its
//! round, and four numbers in ten limbs of 27 bits.

use crate::bits::{ceil_log2, lemma_small_ceil_log2};
use crate::column::{columns, duplicate_columns, is_shape, zero_columns, BaseFieldVec};
use crate::components_cuda::range_check::base::{counted, CudaRangeCheckGenerator};
use crate::components_cuda::range_check_252_width_27_cuda;
use crate::inputs::{
    all_cycled, are_packed, fed_rows, lane_columns, select_columns, ComponentInputs, Pack,
    RowInputs,
};
use crate::launch::{
    answer_all, finish_interaction, interaction_columns, law_answers_look_up, looks_up_request,
    modified_lookups, secure_of, Claim, InteractionClaim, LookupRequest,
};
use crate::lookup::{looks_up, LookupElements, RelationIds};
use crate::tree_builder::{committed, TreeBuilder, MAX_LOG_SIZE};
use vstd::arithmetic::power2::pow2;
use vstd::prelude::*;

verus! {

/// The number of secure columns of the interaction trace.
pub const N_INTERACTION_TRACE_COLUMNS: usize = 9;

/// The number of fields of a row.
pub const N_INPUT_COLUMNS: usize = 42;

/// Where the limbs of the fourth number stand among the fields of a row.
pub const STATE_3: usize = 32;

/// Where the limbs of the other numbers to cube stand in the trace.
pub const CUBED: [usize; 2] = [93, 125];

/// Where the limbs of the numbers to check stand in the trace.
pub const CHECKED: [usize; 3] = [82, 114, 146];

/// The fourth number of a state is the last of its numbers: behind the chain, the round and three
/// numbers of ten limbs each.
pub proof fn law_fourth_state_is_the_last(cols: Seq<Seq<u32>>)
    requires
        cols.len() == N_INPUT_COLUMNS,
    ensures
        limbs(cols, STATE_3 as int) == cols.skip(N_INPUT_COLUMNS - 10),
        limbs(cols, STATE_3 as int) == cols.skip(2).skip(10).skip(10).skip(10),
{
    assert(limbs(cols, STATE_3 as int) =~= cols.skip(N_INPUT_COLUMNS - 10));
    assert(limbs(cols, STATE_3 as int) =~= cols.skip(2).skip(10).skip(10).skip(10));
}

/// A round takes as many columns of the trace as any other, its checked number stands before its
/// cubed one with one column between them, and no column belongs to two numbers.
pub proof fn law_numbers_of_rounds_stand_apart(k: int)
    requires
        0 <= k < 2,
    ensures
        CHECKED@[k + 1] - CHECKED@[k] == 32,
        CUBED@[k] == CHECKED@[k] + 11,
        CUBED@[k] + 10 <= CHECKED@[k + 1],
        CHECKED@[2] + 10 == 156,
{
}

/// The fields of all rows, one column for each: the number of the chain, the round, and the limbs
/// of the four numbers.
pub struct CudaClaimGenerator {
    pub inputs: RowInputs,
}

/// Ten columns from the given position on.
pub open spec fn limbs(cols: Seq<Seq<u32>>, from: int) -> Seq<Seq<u32>> {
    cols.subrange(from, from + 10)
}

impl CudaClaimGenerator {
    /// There is a column for each field, and the columns have the same length.
    pub open spec fn wf(self) -> bool {
        self.inputs.wf(N_INPUT_COLUMNS as nat)
    }

    /// The inputs padded for a trace: the first pack of rows is repeated.
    pub open spec fn padded(self) -> Seq<Seq<u32>> {
        all_cycled(
            columns(self.inputs.columns@),
            pow2(ceil_log2(self.inputs.size as nat)),
            16,
        )
    }

    /// There are inputs, and not too many for a trace.
    pub open spec fn fits(self) -> bool {
        &&& self.wf()
        &&& 2 <= self.inputs.size <= 0x4000_0000
    }

    /// Returns a generator with no more than the placeholder.
    pub fn new() -> (r: Self)
        ensures
            r.wf(),
            columns(r.inputs.columns@) == zero_columns(N_INPUT_COLUMNS as nat, 1),
    {
        CudaClaimGenerator { inputs: RowInputs::new(N_INPUT_COLUMNS) }
    }

    /// Tells whether no more than the placeholder is there.
    pub fn is_empty(&self) -> (r: bool)
        ensures
            r == (self.inputs.size <= 1),
    {
        self.inputs.is_empty()
    }

    /// Replaces all inputs by packed ones.
    pub fn add_packed_inputs(&mut self, inputs: &Vec<Vec<Pack>>)
        requires
            are_packed(inputs@, N_INPUT_COLUMNS as nat),
        ensures
            final(self).wf(),
            columns(final(self).inputs.columns@) == lane_columns(
                inputs@,
                N_INPUT_COLUMNS as nat,
            ),
    {
        self.inputs.set_packed(inputs, N_INPUT_COLUMNS);
    }

    /// Takes rows in: they replace the placeholder, or follow the rows that are there.
    pub fn add_cuda_inputs(&mut self, inputs: &Vec<BaseFieldVec>)
        requires
            old(self).wf(),
            is_shape(columns(inputs@), N_INPUT_COLUMNS as nat, columns(inputs@)[0].len()),
            old(self).inputs.size + columns(inputs@)[0].len() <= u32::MAX,
        ensures
            final(self).wf(),
            columns(final(self).inputs.columns@) == fed_rows(
                columns(old(self).inputs.columns@),
                columns(inputs@),
            ),
            final(self).inputs.size <= old(self).inputs.size + columns(inputs@)[0].len(),
    {
        assert(columns(inputs@).len() == inputs@.len());
        self.inputs.add_rows(inputs);
    }

    /// Returns the inputs as the trace kernel reads them, and the logarithm of their number of
    /// rows.
    pub fn kernel_inputs(&self) -> (r: (Vec<BaseFieldVec>, u32))
        requires
            self.fits(),
        ensures
            columns(r.0@) == self.padded(),
            r.1 == ceil_log2(self.inputs.size as nat),
            is_shape(columns(r.0@), N_INPUT_COLUMNS as nat, pow2(r.1 as nat)),
            0 < r.1 <= MAX_LOG_SIZE,
    {
        let mut copy = RowInputs {
            columns: duplicate_columns(&self.inputs.columns),
            size: self.inputs.size,
        };
        let log_size = copy.pad(N_INPUT_COLUMNS);
        proof {
            lemma_small_ceil_log2(self.inputs.size as nat);
        }
        (copy.columns, log_size)
    }

    /// Returns the rounds of all rows.
    pub fn round_numbers(&self) -> (r: Vec<u32>)
        requires
            self.wf(),
        ensures
            r@ == columns(self.inputs.columns@)[1],
    {
        assert(columns(self.inputs.columns@).len() == self.inputs.columns@.len());
        self.inputs.columns[1].to_vec()
    }

    /// Feeds the cubes and the range checks of numbers of 252 bits with the limbs of every row,
    /// adds the lookups that a second kernel counted, padding included, and commits the trace.
    pub fn write_trace(
        self,
        trace: Vec<BaseFieldVec>,
        rc_4_4_counts: &Vec<u32>,
        rc_4_4_4_4_counts: &Vec<u32>,
        tree_builder: &mut TreeBuilder,
        cube_252_state: &mut ComponentInputs,
        range_check_4_4_state: &mut CudaRangeCheckGenerator<2>,
        range_check_4_4_4_4_state: &mut CudaRangeCheckGenerator<4>,
        range_check_252_width_27_state: &mut range_check_252_width_27_cuda::CudaClaimGenerator,
    ) -> (r: (Claim, CudaInteractionClaimGenerator))
        requires
            self.fits(),
            trace@.len() >= 156,
            is_shape(
                columns(trace@),
                trace@.len(),
                pow2(ceil_log2(self.inputs.size as nat)),
            ),
            old(range_check_4_4_state).wf(),
            rc_4_4_counts@.len() == old(range_check_4_4_state).multiplicities@.len(),
            old(range_check_4_4_4_4_state).wf(),
            rc_4_4_4_4_counts@.len() == old(range_check_4_4_4_4_state).multiplicities@.len(),
            old(range_check_252_width_27_state).wf(),
            old(range_check_252_width_27_state).inputs.size + 3 * pow2(
                ceil_log2(self.inputs.size as nat),
            ) <= u32::MAX,
        ensures
            r.0.log_size == ceil_log2(self.inputs.size as nat),
            r.1.wf(),
            r.1.log_size == r.0.log_size,
            columns(r.1.trace_data@) == columns(trace@),
            final(tree_builder)@ == old(tree_builder)@ + committed(
                r.0.log_size,
                columns(trace@),
            ),
            final(cube_252_state)@ == old(cube_252_state)@ + seq![
                limbs(self.padded(), STATE_3 as int),
                limbs(columns(trace@), CUBED@[0] as int),
                limbs(columns(trace@), CUBED@[1] as int),
            ],
            final(range_check_252_width_27_state).wf(),
            columns(final(range_check_252_width_27_state).inputs.columns@) == fed_rows(
                fed_rows(
                    fed_rows(
                        columns(old(range_check_252_width_27_state).inputs.columns@),
                        limbs(columns(trace@), CHECKED@[0] as int),
                    ),
                    limbs(columns(trace@), CHECKED@[1] as int),
                ),
                limbs(columns(trace@), CHECKED@[2] as int),
            ),
            final(range_check_4_4_state).wf(),
            final(range_check_4_4_state).ranges == old(range_check_4_4_state).ranges,
            final(range_check_4_4_state).multiplicities@ == counted(
                old(range_check_4_4_state).multiplicities@,
                |i: int| rc_4_4_counts@[i] as int,
            ),
            final(range_check_4_4_4_4_state).wf(),
            final(range_check_4_4_4_4_state).ranges == old(range_check_4_4_4_4_state).ranges,
            final(range_check_4_4_4_4_state).multiplicities@ == counted(
                old(range_check_4_4_4_4_state).multiplicities@,
                |i: int| rc_4_4_4_4_counts@[i] as int,
            ),
    {
        let (padded, log_size) = self.kernel_inputs();
        let ghost fed_before = cube_252_state@;
        let ghost written = columns(trace@);
        proof {
            lemma_small_ceil_log2(self.inputs.size as nat);
            assert(columns(padded@).len() == padded@.len());
            lemma_limbs(written, CHECKED@[0] as int, pow2(log_size as nat));
            lemma_limbs(written, CHECKED@[1] as int, pow2(log_size as nat));
            lemma_limbs(written, CHECKED@[2] as int, pow2(log_size as nat));
        }
        cube_252_state.add_cuda_input(&select_columns(&padded, STATE_3, 10));
        cube_252_state.add_cuda_input(&select_columns(&trace, CUBED[0], 10));
        cube_252_state.add_cuda_input(&select_columns(&trace, CUBED[1], 10));
        assert(cube_252_state@ =~= fed_before + seq![
            limbs(self.padded(), STATE_3 as int),
            limbs(written, CUBED@[0] as int),
            limbs(written, CUBED@[1] as int),
        ]);
        range_check_252_width_27_state.add_cuda_inputs(&select_columns(&trace, CHECKED[0], 10));
        range_check_252_width_27_state.add_cuda_inputs(&select_columns(&trace, CHECKED[1], 10));
        range_check_252_width_27_state.add_cuda_inputs(&select_columns(&trace, CHECKED[2], 10));
        range_check_4_4_state.merge_simd_multiplicities(rc_4_4_counts);
        range_check_4_4_4_4_state.merge_simd_multiplicities(rc_4_4_4_4_counts);
        let trace_data = duplicate_columns(&trace);
        assert(columns(trace_data@).len() == trace_data@.len());
        tree_builder.extend_evals(log_size, trace);
        (Claim { log_size }, CudaInteractionClaimGenerator { log_size, trace_data })
    }
}

proof fn lemma_limbs(trace: Seq<Seq<u32>>, from: int, len: nat)
    requires
        is_shape(trace, trace.len(), len),
        0 <= from,
        from + 10 <= trace.len(),
    ensures
        is_shape(limbs(trace, from), 10, len),
        limbs(trace, from)[0].len() == len,
{
    assert forall|i: int| 0 <= i < 10 implies (#[trigger] limbs(trace, from)[i]).len() == len by {
        assert(trace[from + i].len() == len);
    }
}

impl Default for CudaClaimGenerator {
    fn default() -> (r: Self)
        ensures
            r.wf(),
            columns(r.inputs.columns@) == zero_columns(N_INPUT_COLUMNS as nat, 1),
    {
        CudaClaimGenerator::new()
    }
}

/// Writes the interaction trace from the columns of the trace.
pub struct CudaInteractionClaimGenerator {
    pub log_size: u32,
    pub trace_data: Vec<BaseFieldVec>,
}

/// The elements that the interaction kernel is handed, in order.
pub open spec fn requests(ids: RelationIds) -> Seq<LookupRequest> {
    seq![
        LookupRequest::Plain(ids.cube_252),
        LookupRequest::Plain(ids.poseidon_round_keys),
        LookupRequest::Plain(ids.range_check_252_width_27),
        LookupRequest::Plain(ids.rc_4_4),
        LookupRequest::Plain(ids.rc_4_4_4_4),
        LookupRequest::Plain(ids.poseidon_3_partial_rounds_chain),
    ]
}

/// Every group of lookups is handed the elements of its own relation.
pub proof fn law_groups_are_looked_up_in_their_relations(
    ms: Seq<LookupElements>,
    common: LookupElements,
    ids: RelationIds,
)
    requires
        common.is_common(),
        answer_all(ms, common, requests(ids)),
    ensures
        ms.len() == 6,
        looks_up(ms[0], common, ids.cube_252),
        looks_up(ms[1], common, ids.poseidon_round_keys),
        looks_up(ms[2], common, ids.range_check_252_width_27),
        looks_up(ms[3], common, ids.rc_4_4),
        looks_up(ms[4], common, ids.rc_4_4_4_4),
        looks_up(ms[5], common, ids.poseidon_3_partial_rounds_chain),
{
    law_answers_look_up(ms, common, requests(ids));
    assert(looks_up_request(ms[0], common, requests(ids)[0]));
    assert(looks_up_request(ms[1], common, requests(ids)[1]));
    assert(looks_up_request(ms[2], common, requests(ids)[2]));
    assert(looks_up_request(ms[3], common, requests(ids)[3]));
    assert(looks_up_request(ms[4], common, requests(ids)[4]));
    assert(looks_up_request(ms[5], common, requests(ids)[5]));
}

impl CudaInteractionClaimGenerator {
    /// The trace has the claimed size.
    pub open spec fn wf(self) -> bool {
        &&& 0 < self.log_size <= MAX_LOG_SIZE
        &&& is_shape(
            columns(self.trace_data@),
            self.trace_data@.len(),
            pow2(self.log_size as nat),
        )
    }

    /// Returns the elements that the interaction kernel is handed.
    pub fn relation_elements(&self, common: &LookupElements, ids: &RelationIds) -> (ms: Vec<
        LookupElements,
    >)
        requires
            common.is_common(),
            ids.wf(),
        ensures
            answer_all(ms@, *common, requests(*ids)),
    {
        let asked = vec![
            LookupRequest::Plain(ids.cube_252),
            LookupRequest::Plain(ids.poseidon_round_keys),
            LookupRequest::Plain(ids.range_check_252_width_27),
            LookupRequest::Plain(ids.rc_4_4),
            LookupRequest::Plain(ids.rc_4_4_4_4),
            LookupRequest::Plain(ids.poseidon_3_partial_rounds_chain),
        ];
        assert(asked@ =~= requests(*ids));
        modified_lookups(common, &asked)
    }

    /// Returns the columns of zeroes that the interaction kernel fills.
    pub fn interaction_columns(&self) -> (cols: Vec<BaseFieldVec>)
        requires
            self.wf(),
        ensures
            columns(cols@) == zero_columns(
                4 * N_INTERACTION_TRACE_COLUMNS as nat,
                pow2(self.log_size as nat),
            ),
    {
        interaction_columns(N_INTERACTION_TRACE_COLUMNS, self.log_size)
    }

    /// Commits the columns that the interaction kernel filled and claims its sum.
    pub fn write_interaction_trace(
        self,
        tree_builder: &mut TreeBuilder,
        cols: Vec<BaseFieldVec>,
        claimed_sum: [u32; 4],
    ) -> (r: InteractionClaim)
        requires
            self.wf(),
            is_shape(
                columns(cols@),
                4 * N_INTERACTION_TRACE_COLUMNS as nat,
                pow2(self.log_size as nat),
            ),
        ensures
            final(tree_builder)@ == old(tree_builder)@ + committed(self.log_size, columns(cols@)),
            r.claimed_sum == secure_of(claimed_sum@),
    {
        finish_interaction(tree_builder, cols, self.log_size, claimed_sum)
    }
}

} // verus!

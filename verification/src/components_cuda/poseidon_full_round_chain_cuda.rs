//! Chains of full rounds of the hash: a row holds the number of its chain, its round, and three
//! numbers in ten limbs of 27 bits.

use crate::bits::{ceil_log2, lemma_small_ceil_log2};
use crate::column::{columns, duplicate_columns, filled, is_shape, zero_columns, BaseFieldVec};
use crate::components_cuda::range_check::base::{
    all_occurrences, are_all_inputs, counted, CudaRangeCheckGenerator,
};
use crate::components_cuda::range_check::tables::rc_3_3_3_3_3_ranges;
use crate::inputs::{
    all_cycled, are_packed, chunk_columns, chunks, fed_rows, lane_columns, select_columns,
    ComponentInputs, Pack, RowInputs,
};
use crate::launch::{
    answer_all, finish_interaction, interaction_columns, law_answers_look_up, looks_up_request,
    modified_lookups, secure_of, Claim, InteractionClaim, LookupRequest,
};
use crate::lookup::{looks_up, LookupElements, RelationIds};
use crate::tree_builder::{committed, TreeBuilder, MAX_LOG_SIZE};
use vstd::arithmetic::power2::pow2;
use vstd::prelude::*;

verus! {

/// The number of secure columns of the interaction trace.
pub const N_INTERACTION_TRACE_COLUMNS: usize = 6;

/// The number of fields of a row.
pub const N_INPUT_COLUMNS: usize = 32;

/// Where the column that tells rows from padding stands in the trace.
pub const ENABLER_COLUMN: usize = 125;

/// The numbers of carries that a row looks up: the lookups, and the carries of each.
pub const N_CARRY_LOOKUPS: usize = 6;

pub const N_CARRIES: usize = 5;

/// The limbs of the three numbers of a state are all columns behind the chain and the round, each
/// once and in order.
pub proof fn law_states_are_all_limbs(cols: Seq<Seq<u32>>)
    requires
        cols.len() == N_INPUT_COLUMNS,
    ensures
        state(cols, 0) + state(cols, 1) + state(cols, 2) == cols.skip(2),
        forall|k: int| 0 <= k < 3 ==> (#[trigger] state(cols, k)).len() == 10,
{
    assert(state(cols, 0) + state(cols, 1) + state(cols, 2) =~= cols.skip(2));
}

/// Disabling the padding keeps every value but those of the enabler behind the last row, which
/// become zero.
pub proof fn law_only_padding_is_disabled(trace: Seq<Seq<u32>>, n_rows: nat, c: int, i: int)
    requires
        ENABLER_COLUMN < trace.len(),
        n_rows <= trace[ENABLER_COLUMN as int].len(),
        0 <= c < trace.len(),
        0 <= i < trace[c].len(),
    ensures
        with_padding_disabled(trace, n_rows).len() == trace.len(),
        with_padding_disabled(trace, n_rows)[c].len() == trace[c].len(),
        with_padding_disabled(trace, n_rows)[c][i] == (if c == ENABLER_COLUMN && i >= n_rows {
            0
        } else {
            trace[c][i]
        }),
{
}

/// The fields of all rows, one column for each: the number of the chain, the round, and the limbs
/// of the three numbers.
pub struct CudaClaimGenerator {
    pub inputs: RowInputs,
}

/// The limbs of number `k` of the rows.
pub open spec fn state(cols: Seq<Seq<u32>>, k: int) -> Seq<Seq<u32>> {
    cols.subrange(2 + 10 * k, 12 + 10 * k)
}

/// The trace without the mark of a row on padding.
pub open spec fn with_padding_disabled(trace: Seq<Seq<u32>>, n_rows: nat) -> Seq<Seq<u32>> {
    let enabler = trace[ENABLER_COLUMN as int];
    trace.update(
        ENABLER_COLUMN as int,
        enabler.take(n_rows as int) + filled(0, (enabler.len() - n_rows) as nat),
    )
}

impl CudaClaimGenerator {
    /// There is a column for each field, and the columns have the same length.
    pub open spec fn wf(self) -> bool {
        self.inputs.wf(N_INPUT_COLUMNS as nat)
    }

    /// The inputs padded for a trace: the first pack of rows is repeated.
    pub open spec fn padded(self) -> Seq<Seq<u32>> {
        all_cycled(
            columns(self.inputs.columns@),
            pow2(ceil_log2(self.inputs.size as nat)),
            16,
        )
    }

    /// There are inputs, and not too many for a trace.
    pub open spec fn fits(self) -> bool {
        &&& self.wf()
        &&& 2 <= self.inputs.size <= 0x4000_0000
    }

    /// Returns a generator with no more than the placeholder.
    pub fn new() -> (r: Self)
        ensures
            r.wf(),
            columns(r.inputs.columns@) == zero_columns(N_INPUT_COLUMNS as nat, 1),
    {
        CudaClaimGenerator { inputs: RowInputs::new(N_INPUT_COLUMNS) }
    }

    /// Tells whether no more than the placeholder is there.
    pub fn is_empty(&self) -> (r: bool)
        ensures
            r == (self.inputs.size <= 1),
    {
        self.inputs.is_empty()
    }

    /// Replaces all inputs by packed ones.
    pub fn add_packed_inputs(&mut self, inputs: &Vec<Vec<Pack>>)
        requires
            are_packed(inputs@, N_INPUT_COLUMNS as nat),
        ensures
            final(self).wf(),
            columns(final(self).inputs.columns@) == lane_columns(
                inputs@,
                N_INPUT_COLUMNS as nat,
            ),
    {
        self.inputs.set_packed(inputs, N_INPUT_COLUMNS);
    }

    /// Takes rows in: they replace the placeholder, or follow the rows that are there.
    pub fn add_cuda_inputs(&mut self, inputs: &Vec<BaseFieldVec>)
        requires
            old(self).wf(),
            is_shape(columns(inputs@), N_INPUT_COLUMNS as nat, columns(inputs@)[0].len()),
            old(self).inputs.size + columns(inputs@)[0].len() <= u32::MAX,
        ensures
            final(self).wf(),
            columns(final(self).inputs.columns@) == fed_rows(
                columns(old(self).inputs.columns@),
                columns(inputs@),
            ),
            final(self).inputs.size <= old(self).inputs.size + columns(inputs@)[0].len(),
    {
        assert(columns(inputs@).len() == inputs@.len());
        self.inputs.add_rows(inputs);
    }

    /// Returns the inputs as the trace kernel reads them, and the logarithm of their number of
    /// rows.
    pub fn kernel_inputs(&self) -> (r: (Vec<BaseFieldVec>, u32))
        requires
            self.fits(),
        ensures
            columns(r.0@) == self.padded(),
            r.1 == ceil_log2(self.inputs.size as nat),
            is_shape(columns(r.0@), N_INPUT_COLUMNS as nat, pow2(r.1 as nat)),
            0 < r.1 <= MAX_LOG_SIZE,
    {
        let mut copy = RowInputs {
            columns: duplicate_columns(&self.inputs.columns),
            size: self.inputs.size,
        };
        let log_size = copy.pad(N_INPUT_COLUMNS);
        proof {
            lemma_small_ceil_log2(self.inputs.size as nat);
        }
        (copy.columns, log_size)
    }

    /// Returns the rounds of all rows.
    pub fn round_numbers(&self) -> (r: Vec<u32>)
        requires
            self.wf(),
        ensures
            r@ == columns(self.inputs.columns@)[1],
    {
        assert(columns(self.inputs.columns@).len() == self.inputs.columns@.len());
        self.inputs.columns[1].to_vec()
    }

    /// Feeds the three numbers of every row to the cubes and the carries that a second kernel
    /// computed to their table, padding included, marks padding as such, and commits the trace.
    pub fn write_trace(
        self,
        trace: Vec<BaseFieldVec>,
        carries: &Vec<BaseFieldVec>,
        tree_builder: &mut TreeBuilder,
        cube_252_state: &mut ComponentInputs,
        range_check_3_3_3_3_3_state: &mut CudaRangeCheckGenerator<5>,
    ) -> (r: (Claim, CudaInteractionClaimGenerator))
        requires
            self.fits(),
            trace@.len() > ENABLER_COLUMN,
            is_shape(
                columns(trace@),
                trace@.len(),
                pow2(ceil_log2(self.inputs.size as nat)),
            ),
            carries@.len() == N_CARRIES * N_CARRY_LOOKUPS,
            old(range_check_3_3_3_3_3_state).wf(),
            old(range_check_3_3_3_3_3_state).ranges@ == rc_3_3_3_3_3_ranges(),
            are_all_inputs(
                rc_3_3_3_3_3_ranges(),
                chunks(columns(carries@), N_CARRIES as nat, N_CARRY_LOOKUPS as nat),
            ),
        ensures
            r.0.log_size == ceil_log2(self.inputs.size as nat),
            r.1.wf(),
            r.1.log_size == r.0.log_size,
            columns(r.1.trace_data@) == with_padding_disabled(
                columns(trace@),
                self.inputs.size as nat,
            ),
            final(tree_builder)@ == old(tree_builder)@ + committed(
                r.0.log_size,
                columns(r.1.trace_data@),
            ),
            final(cube_252_state)@ == old(cube_252_state)@ + seq![
                state(self.padded(), 0),
                state(self.padded(), 1),
                state(self.padded(), 2),
            ],
            final(range_check_3_3_3_3_3_state).wf(),
            final(range_check_3_3_3_3_3_state).ranges == old(range_check_3_3_3_3_3_state).ranges,
            final(range_check_3_3_3_3_3_state).multiplicities@ == counted(
                old(range_check_3_3_3_3_3_state).multiplicities@,
                |i: int|
                    all_occurrences(
                        rc_3_3_3_3_3_ranges(),
                        chunks(columns(carries@), N_CARRIES as nat, N_CARRY_LOOKUPS as nat),
                        i,
                    ) as int,
            ),
    {
        let (padded, log_size) = self.kernel_inputs();
        let ghost fed_before = cube_252_state@;
        let n_rows = self.inputs.size as usize;
        proof {
            lemma_small_ceil_log2(n_rows as nat);
            assert(columns(padded@).len() == padded@.len());
        }
        let mut trace = trace;
        let ghost written = columns(trace@);
        let mut enabler = BaseFieldVec { values: Vec::new() };
        trace.set_and_swap(ENABLER_COLUMN, &mut enabler);
        assert(enabler@ == written[ENABLER_COLUMN as int]);
        enabler.fill_zero_from(n_rows);
        trace.set(ENABLER_COLUMN, enabler);
        assert(columns(trace@) =~= with_padding_disabled(written, n_rows as nat));
        cube_252_state.add_cuda_input(&select_columns(&padded, 2, 10));
        cube_252_state.add_cuda_input(&select_columns(&padded, 12, 10));
        cube_252_state.add_cuda_input(&select_columns(&padded, 22, 10));
        assert(cube_252_state@ =~= fed_before + seq![
            state(self.padded(), 0),
            state(self.padded(), 1),
            state(self.padded(), 2),
        ]);
        range_check_3_3_3_3_3_state.add_each(
            &chunk_columns(carries, N_CARRIES, N_CARRY_LOOKUPS),
        );
        let trace_data = duplicate_columns(&trace);
        assert(columns(trace_data@).len() == trace_data@.len());
        tree_builder.extend_evals(log_size, trace);
        (Claim { log_size }, CudaInteractionClaimGenerator { log_size, trace_data })
    }
}

impl Default for CudaClaimGenerator {
    fn default() -> (r: Self)
        ensures
            r.wf(),
            columns(r.inputs.columns@) == zero_columns(N_INPUT_COLUMNS as nat, 1),
    {
        CudaClaimGenerator::new()
    }
}

/// Writes the interaction trace from the columns of the trace.
pub struct CudaInteractionClaimGenerator {
    pub log_size: u32,
    pub trace_data: Vec<BaseFieldVec>,
}

/// The elements that the interaction kernel is handed, in order.
pub open spec fn requests(ids: RelationIds) -> Seq<LookupRequest> {
    seq![
        LookupRequest::Plain(ids.cube_252),
        LookupRequest::Plain(ids.poseidon_round_keys),
        LookupRequest::Plain(ids.rc_3_3_3_3_3),
        LookupRequest::Plain(ids.poseidon_full_round_chain),
    ]
}

/// Every group of lookups is handed the elements of its own relation.
pub proof fn law_groups_are_looked_up_in_their_relations(
    ms: Seq<LookupElements>,
    common: LookupElements,
    ids: RelationIds,
)
    requires
        common.is_common(),
        answer_all(ms, common, requests(ids)),
    ensures
        ms.len() == 4,
        looks_up(ms[0], common, ids.cube_252),
        looks_up(ms[1], common, ids.poseidon_round_keys),
        looks_up(ms[2], common, ids.rc_3_3_3_3_3),
        looks_up(ms[3], common, ids.poseidon_full_round_chain),
{
    law_answers_look_up(ms, common, requests(ids));
    assert(looks_up_request(ms[0], common, requests(ids)[0]));
    assert(looks_up_request(ms[1], common, requests(ids)[1]));
    assert(looks_up_request(ms[2], common, requests(ids)[2]));
    assert(looks_up_request(ms[3], common, requests(ids)[3]));
}

impl CudaInteractionClaimGenerator {
    /// The trace has the claimed size.
    pub open spec fn wf(self) -> bool {
        &&& 0 < self.log_size <= MAX_LOG_SIZE
        &&& is_shape(
            columns(self.trace_data@),
            self.trace_data@.len(),
            pow2(self.log_size as nat),
        )
    }

    /// Returns the elements that the interaction kernel is handed.
    pub fn relation_elements(&self, common: &LookupElements, ids: &RelationIds) -> (ms: Vec<
        LookupElements,
    >)
        requires
            common.is_common(),
            ids.wf(),
        ensures
            answer_all(ms@, *common, requests(*ids)),
    {
        let asked = vec![
            LookupRequest::Plain(ids.cube_252),
            LookupRequest::Plain(ids.poseidon_round_keys),
            LookupRequest::Plain(ids.rc_3_3_3_3_3),
            LookupRequest::Plain(ids.poseidon_full_round_chain),
        ];
        assert(asked@ =~= requests(*ids));
        modified_lookups(common, &asked)
    }

    /// Returns the columns of zeroes that the interaction kernel fills.
    pub fn interaction_columns(&self) -> (cols: Vec<BaseFieldVec>)
        requires
            self.wf(),
        ensures
            columns(cols@) == zero_columns(
                4 * N_INTERACTION_TRACE_COLUMNS as nat,
                pow2(self.log_size as nat),
            ),
    {
        interaction_columns(N_INTERACTION_TRACE_COLUMNS, self.log_size)
    }

    /// Commits the columns that the interaction kernel filled and claims its sum.
    pub fn write_interaction_trace(
        self,
        tree_builder: &mut TreeBuilder,
        cols: Vec<BaseFieldVec>,
        claimed_sum: [u32; 4],
    ) -> (r: InteractionClaim)
        requires
            self.wf(),
            is_shape(
                columns(cols@),
                4 * N_INTERACTION_TRACE_COLUMNS as nat,
                pow2(self.log_size as nat),
            ),
        ensures
            final(tree_builder)@ == old(tree_builder)@ + committed(self.log_size, columns(cols@)),
            r.claimed_sum == secure_of(claimed_sum@),
    {
        finish_interaction(tree_builder, cols, self.log_size, claimed_sum)
    }
}

} // verus!

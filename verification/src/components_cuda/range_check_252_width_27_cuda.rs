//! Numbers of 252 bits in ten limbs of 27 bits, whose limbs are in range.

use crate::bits::{ceil_log2, ilog2, lemma_small_ceil_log2, next_power_of_two};
use crate::column::{columns, duplicate_columns, is_shape, zero_columns, BaseFieldVec};
use crate::components_cuda::range_check::base::{
    merged_relations, CudaMultiRelationRangeCheckGenerator,
};
use crate::components_cuda::range_check::rc_18;
use crate::components_cuda::range_check::tables::{lemma_table_bits, rc_9_9_ranges};
use crate::inputs::{all_cycled, are_packed, fed_rows, lane_columns, Pack, RowInputs};
use crate::launch::{
    answer_all, finish_interaction, interaction_columns, law_answers_look_up, looks_up_request,
    modified_lookups, secure_of, Claim, InteractionClaim, LookupRequest,
};
use crate::lookup::{looks_up, LookupElements, RelationIds};
use crate::tree_builder::{committed, TreeBuilder, MAX_LOG_SIZE};
use vstd::arithmetic::power2::pow2;
use vstd::prelude::*;

verus! {

/// The number of secure columns of the interaction trace.
pub const N_INTERACTION_TRACE_COLUMNS: usize = 8;

/// The number of limbs.
pub const N_INPUT_COLUMNS: usize = 10;

/// The relations of the 18-bit numbers that are looked up.
pub const N_RC_18_RELATIONS: usize = 2;

/// The relations of the pairs of 9-bit numbers that are looked up.
pub const N_RC_9_9_RELATIONS: usize = 5;

/// The limbs of all numbers, one column for each.
pub struct CudaClaimGenerator {
    pub inputs: RowInputs,
}

/// There are `n` lists of `len` counters each.
pub open spec fn are_counts(counts: Seq<Vec<u32>>, n: nat, len: nat) -> bool {
    &&& counts.len() == n
    &&& forall|i: int| 0 <= i < counts.len() ==> (#[trigger] counts[i])@.len() == len
}

impl CudaClaimGenerator {
    /// There is a column for each field, and the columns have the same length.
    pub open spec fn wf(self) -> bool {
        self.inputs.wf(N_INPUT_COLUMNS as nat)
    }

    /// The inputs padded for a trace: the first pack of rows is repeated.
    pub open spec fn padded(self) -> Seq<Seq<u32>> {
        all_cycled(
            columns(self.inputs.columns@),
            pow2(ceil_log2(self.inputs.size as nat)),
            16,
        )
    }

    /// There are inputs, and not too many for a trace.
    pub open spec fn fits(self) -> bool {
        &&& self.wf()
        &&& 2 <= self.inputs.size <= 0x4000_0000
    }

    /// Returns a generator with no more than the placeholder.
    pub fn new() -> (r: Self)
        ensures
            r.wf(),
            columns(r.inputs.columns@) == zero_columns(N_INPUT_COLUMNS as nat, 1),
    {
        CudaClaimGenerator { inputs: RowInputs::new(N_INPUT_COLUMNS) }
    }

    /// Tells whether no more than the placeholder is there.
    pub fn is_empty(&self) -> (r: bool)
        ensures
            r == (self.inputs.size <= 1),
    {
        self.inputs.is_empty()
    }

    /// Replaces all inputs by packed ones.
    pub fn add_packed_inputs(&mut self, inputs: &Vec<Vec<Pack>>)
        requires
            are_packed(inputs@, N_INPUT_COLUMNS as nat),
        ensures
            final(self).wf(),
            columns(final(self).inputs.columns@) == lane_columns(
                inputs@,
                N_INPUT_COLUMNS as nat,
            ),
    {
        self.inputs.set_packed(inputs, N_INPUT_COLUMNS);
    }

    /// Takes rows in: they replace the placeholder, or follow the rows that are there.
    pub fn add_cuda_inputs(&mut self, inputs: &Vec<BaseFieldVec>)
        requires
            old(self).wf(),
            is_shape(columns(inputs@), N_INPUT_COLUMNS as nat, columns(inputs@)[0].len()),
            old(self).inputs.size + columns(inputs@)[0].len() <= u32::MAX,
        ensures
            final(self).wf(),
            columns(final(self).inputs.columns@) == fed_rows(
                columns(old(self).inputs.columns@),
                columns(inputs@),
            ),
            final(self).inputs.size <= old(self).inputs.size + columns(inputs@)[0].len(),
    {
        assert(columns(inputs@).len() == inputs@.len());
        self.inputs.add_rows(inputs);
    }

    /// Returns the inputs as the trace kernel reads them, and the logarithm of their number of
    /// rows.
    pub fn kernel_inputs(&self) -> (r: (Vec<BaseFieldVec>, u32))
        requires
            self.fits(),
        ensures
            columns(r.0@) == self.padded(),
            r.1 == ceil_log2(self.inputs.size as nat),
            is_shape(columns(r.0@), N_INPUT_COLUMNS as nat, pow2(r.1 as nat)),
            0 < r.1 <= MAX_LOG_SIZE,
    {
        let mut copy = RowInputs {
            columns: duplicate_columns(&self.inputs.columns),
            size: self.inputs.size,
        };
        let log_size = copy.pad(N_INPUT_COLUMNS);
        proof {
            lemma_small_ceil_log2(self.inputs.size as nat);
        }
        (copy.columns, log_size)
    }

    /// Commits the trace that the kernel wrote and adds the lookups that a second kernel counted:
    /// those of every row of the trace, padding included.
    pub fn write_trace(
        self,
        trace: Vec<BaseFieldVec>,
        rc_18_counts: &Vec<Vec<u32>>,
        rc_9_9_counts: &Vec<Vec<u32>>,
        tree_builder: &mut TreeBuilder,
        range_check_18_state: &mut rc_18::CudaClaimGenerator,
        range_check_9_9_state: &mut CudaMultiRelationRangeCheckGenerator<2, 8>,
    ) -> (r: (Claim, CudaInteractionClaimGenerator))
        requires
            self.fits(),
            is_shape(
                columns(trace@),
                trace@.len(),
                pow2(ceil_log2(self.inputs.size as nat)),
            ),
            are_counts(rc_18_counts@, N_RC_18_RELATIONS as nat, pow2(18)),
            are_counts(rc_9_9_counts@, N_RC_9_9_RELATIONS as nat, pow2(18)),
            old(range_check_18_state).wf(),
            old(range_check_9_9_state).wf(),
            old(range_check_9_9_state).ranges@ == rc_9_9_ranges(),
        ensures
            r.0.log_size == ceil_log2(self.inputs.size as nat),
            r.1.wf(),
            r.1.log_size == r.0.log_size,
            columns(r.1.trace_data@) == columns(trace@),
            final(tree_builder)@ == old(tree_builder)@ + committed(
                r.0.log_size,
                columns(trace@),
            ),
            final(range_check_18_state).wf(),
            final(range_check_18_state).counters() == merged_relations(
                old(range_check_18_state).counters(),
                rc_18_counts@,
            ),
            final(range_check_9_9_state).wf(),
            final(range_check_9_9_state).ranges == old(range_check_9_9_state).ranges,
            columns(final(range_check_9_9_state).multiplicities@) == merged_relations(
                columns(old(range_check_9_9_state).multiplicities@),
                rc_9_9_counts@,
            ),
    {
        proof {
            lemma_small_ceil_log2(self.inputs.size as nat);
            lemma_table_bits();
            rc_18::lemma_total_bits();
        }
        let log_size = ilog2(next_power_of_two(self.inputs.size as usize));
        range_check_18_state.0.merge_first(rc_18_counts);
        range_check_9_9_state.merge_first(rc_9_9_counts);
        let trace_data = duplicate_columns(&trace);
        assert(columns(trace_data@).len() == trace_data@.len());
        tree_builder.extend_evals(log_size, trace);
        (Claim { log_size }, CudaInteractionClaimGenerator { log_size, trace_data })
    }
}

impl Default for CudaClaimGenerator {
    fn default() -> (r: Self)
        ensures
            r.wf(),
            columns(r.inputs.columns@) == zero_columns(N_INPUT_COLUMNS as nat, 1),
    {
        CudaClaimGenerator::new()
    }
}

/// Writes the interaction trace from the columns of the trace.
pub struct CudaInteractionClaimGenerator {
    pub log_size: u32,
    pub trace_data: Vec<BaseFieldVec>,
}

/// The elements that the interaction kernel is handed, in order.
pub open spec fn requests(ids: RelationIds) -> Seq<LookupRequest> {
    seq![
        LookupRequest::Plain(ids.rc_9_9@[0]),
        LookupRequest::Plain(ids.rc_18),
        LookupRequest::Plain(ids.rc_9_9@[1]),
        LookupRequest::Plain(ids.rc_18_b),
        LookupRequest::Plain(ids.rc_9_9@[2]),
        LookupRequest::Plain(ids.rc_9_9@[3]),
        LookupRequest::Plain(ids.rc_9_9@[4]),
        LookupRequest::Plain(ids.range_check_252_width_27),
    ]
}

/// Every group of lookups is handed the elements of its own relation.
pub proof fn law_groups_are_looked_up_in_their_relations(
    ms: Seq<LookupElements>,
    common: LookupElements,
    ids: RelationIds,
)
    requires
        common.is_common(),
        answer_all(ms, common, requests(ids)),
    ensures
        ms.len() == 8,
        looks_up(ms[0], common, ids.rc_9_9@[0]),
        looks_up(ms[1], common, ids.rc_18),
        looks_up(ms[2], common, ids.rc_9_9@[1]),
        looks_up(ms[3], common, ids.rc_18_b),
        looks_up(ms[4], common, ids.rc_9_9@[2]),
        looks_up(ms[5], common, ids.rc_9_9@[3]),
        looks_up(ms[6], common, ids.rc_9_9@[4]),
        looks_up(ms[7], common, ids.range_check_252_width_27),
{
    law_answers_look_up(ms, common, requests(ids));
    assert(looks_up_request(ms[0], common, requests(ids)[0]));
    assert(looks_up_request(ms[1], common, requests(ids)[1]));
    assert(looks_up_request(ms[2], common, requests(ids)[2]));
    assert(looks_up_request(ms[3], common, requests(ids)[3]));
    assert(looks_up_request(ms[4], common, requests(ids)[4]));
    assert(looks_up_request(ms[5], common, requests(ids)[5]));
    assert(looks_up_request(ms[6], common, requests(ids)[6]));
    assert(looks_up_request(ms[7], common, requests(ids)[7]));
}

impl CudaInteractionClaimGenerator {
    /// The trace has the claimed size.
    pub open spec fn wf(self) -> bool {
        &&& 0 < self.log_size <= MAX_LOG_SIZE
        &&& is_shape(
            columns(self.trace_data@),
            self.trace_data@.len(),
            pow2(self.log_size as nat),
        )
    }

    /// Returns the elements that the interaction kernel is handed.
    pub fn relation_elements(&self, common: &LookupElements, ids: &RelationIds) -> (ms: Vec<
        LookupElements,
    >)
        requires
            common.is_common(),
            ids.wf(),
        ensures
            answer_all(ms@, *common, requests(*ids)),
    {
        let asked = vec![
            LookupRequest::Plain(ids.rc_9_9[0]),
            LookupRequest::Plain(ids.rc_18),
            LookupRequest::Plain(ids.rc_9_9[1]),
            LookupRequest::Plain(ids.rc_18_b),
            LookupRequest::Plain(ids.rc_9_9[2]),
            LookupRequest::Plain(ids.rc_9_9[3]),
            LookupRequest::Plain(ids.rc_9_9[4]),
            LookupRequest::Plain(ids.range_check_252_width_27),
        ];
        assert(asked@ =~= requests(*ids));
        modified_lookups(common, &asked)
    }

    /// Returns the columns of zeroes that the interaction kernel fills.
    pub fn interaction_columns(&self) -> (cols: Vec<BaseFieldVec>)
        requires
            self.wf(),
        ensures
            columns(cols@) == zero_columns(
                4 * N_INTERACTION_TRACE_COLUMNS as nat,
                pow2(self.log_size as nat),
            ),
    {
        interaction_columns(N_INTERACTION_TRACE_COLUMNS, self.log_size)
    }

    /// Commits the columns that the interaction kernel filled and claims its sum.
    pub fn write_interaction_trace(
        self,
        tree_builder: &mut TreeBuilder,
        cols: Vec<BaseFieldVec>,
        claimed_sum: [u32; 4],
    ) -> (r: InteractionClaim)
        requires
            self.wf(),
            is_shape(
                columns(cols@),
                4 * N_INTERACTION_TRACE_COLUMNS as nat,
                pow2(self.log_size as nat),
            ),
        ensures
            final(tree_builder)@ == old(tree_builder)@ + committed(self.log_size, columns(cols@)),
            r.claimed_sum == secure_of(claimed_sum@),
    {
        finish_interaction(tree_builder, cols, self.log_size, claimed_sum)
    }
}

} // verus!

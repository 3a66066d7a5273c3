//! Tests of what the hashes and the range checks ask of the columns that their kernels wrote.

use crate::bits::{exp2, next_power_of_two};
use crate::checks::{are_batches_of_table, are_groups_of_table, are_table_groups};
use crate::column::{columns, is_shape, BaseFieldVec};
use crate::components_cuda::pedersen_aggregator_wb9_cuda;
use crate::components_cuda::poseidon_aggregator_cuda;
use crate::components_cuda::poseidon_aggregator_native_cuda;
use crate::components_cuda::poseidon_cuda::{
    ChainOutputs, ChainsWritten, FedOutputs, InteractionClaimGenerator, InteractionOutcomes,
    PoseidonContextCudaClaimGenerator,
};
use crate::components_cuda::poseidon_full_round_chain_cuda::{
    ENABLER_COLUMN, N_CARRIES, N_CARRY_LOOKUPS,
};
use crate::components_cuda::range_check::rc_20;
use crate::components_cuda::range_check::tables::{rc_3_3_3_3_3_ranges, rc_8_ranges, rc_9_9_ranges};
use crate::components_cuda::range_check_252_width_27_cuda::are_counts;
use crate::components_cuda::{
    partial_ec_mul_cuda, pedersen_cuda, pedersen_points_table_cuda, pedersen_points_table_wb9_cuda,
    pedersen_wb9_cuda,
};
use crate::inputs::{are_packed, chunk_columns, Pack, RowInputs};
use crate::launch::{are_evaluations_of, columns_have_shape, groups, groups_have_shapes};
use crate::range_checks_cuda::RangeChecksOutcomes;
use crate::tree_builder::MAX_LOG_SIZE;
use vstd::arithmetic::power2::pow2;
use vstd::prelude::*;

verus! {

/// Tells whether there are `n` lists of `len` counters each.
pub fn have_counts(counts: &Vec<Vec<u32>>, n: usize, len: usize) -> (r: bool)
    ensures
        r == are_counts(counts@, n as nat, len as nat),
{
    counts.len() == n && have_length(counts, len)
}

/// Tells whether the lists have `len` counters each.
pub fn have_length(lists: &Vec<Vec<u32>>, len: usize) -> (r: bool)
    ensures
        r == poseidon_aggregator_cuda::are_lists(lists@, len as nat),
{
    let mut i: usize = 0;
    while i < lists.len()
        invariant
            i <= lists.len(),
            forall|k: int| 0 <= k < i ==> (#[trigger] lists@[k])@.len() == len,
        decreases lists.len() - i,
    {
        if lists[i].len() != len {
            assert(lists@[i as int]@.len() != len);
            return false;
        }
        i = i + 1;
    }
    true
}

/// Tells whether every packed row has `width` fields, and the rows can be numbered.
pub fn are_packed_rows(inputs: &Vec<Vec<Pack>>, width: usize) -> (r: bool)
    ensures
        r == are_packed(inputs@, width as nat),
{
    if inputs.len() > 0x800_0000 {
        return false;
    }
    let mut i: usize = 0;
    while i < inputs.len()
        invariant
            i <= inputs.len() <= 0x800_0000,
            forall|k: int| 0 <= k < i ==> (#[trigger] inputs@[k])@.len() == width,
        decreases inputs.len() - i,
    {
        if inputs[i].len() != width {
            assert(inputs@[i as int]@.len() != width);
            return false;
        }
        i = i + 1;
    }
    true
}

impl RowInputs {
    /// Tells whether there are `width` columns and each holds as many values as there are rows.
    pub fn is_wf(&self, width: usize) -> (r: bool)
        ensures
            r == self.wf(width as nat),
    {
        width > 0 && columns_have_shape(&self.columns, width, self.size as usize)
    }

    /// Tells whether there are more rows than the placeholder, and not too many for a trace.
    fn is_traceable(&self, width: usize) -> (r: bool)
        ensures
            r == (self.wf(width as nat) && 2 <= self.size <= 0x4000_0000),
    {
        self.size >= 2 && self.size <= 0x4000_0000 && self.is_wf(width)
    }
}

fn lengths() -> (r: (usize, usize, usize, usize))
    ensures
        r.0 == pow2(8),
        r.1 == pow2(16),
        r.2 == pow2(18),
        r.3 == pow2(20),
{
    (exp2(8), exp2(16), exp2(18), exp2(20))
}

impl PoseidonContextCudaClaimGenerator {
    /// Tells whether both chains have rows, and the outputs of their kernels fit them.
    pub fn can_write_chains(&self, outputs: &ChainOutputs) -> (r: bool)
        ensures
            r == self.accepts(*outputs),
    {
        let full = &self.poseidon_full_round_chain_cuda.inputs;
        let partial = &self.poseidon_3_partial_rounds_chain_cuda.inputs;
        if !full.is_traceable(32) || !partial.is_traceable(42)
            || !self.range_check_252_width_27_cuda.inputs.is_wf(10) {
            return false;
        }
        let partial_len = next_power_of_two(partial.size as usize);
        let full_len = next_power_of_two(full.size as usize);
        let (len_8, len_16, _, _) = lengths();
        let checked = self.range_check_252_width_27_cuda.inputs.size;
        proof {
            crate::bits::lemma_pow2_bound(self.partial_log_size());
        }
        if checked as u64 + 3 * partial_len as u64 > u32::MAX as u64
            || outputs.partial_trace.len() < 156 || outputs.full_trace.len() <= ENABLER_COLUMN
            || outputs.carries.len() != N_CARRIES * N_CARRY_LOOKUPS {
            return false;
        }
        let carries = chunk_columns(&outputs.carries, N_CARRIES, N_CARRY_LOOKUPS);
        let rc_3_3_3_3_3: [u32; 5] = [3, 3, 3, 3, 3];
        assert(rc_3_3_3_3_3@ =~= rc_3_3_3_3_3_ranges());
        columns_have_shape(&outputs.partial_trace, outputs.partial_trace.len(), partial_len)
            && outputs.rc_4_4_counts.len() == len_8 && outputs.rc_4_4_4_4_counts.len() == len_16
            && columns_have_shape(&outputs.full_trace, outputs.full_trace.len(), full_len)
            && are_batches_of_table(&rc_3_3_3_3_3, &carries)
    }
}

impl ChainsWritten {
    /// Tells whether the outputs fit what the components were fed with.
    pub fn can_write_trace(&self, outputs: &FedOutputs) -> (r: bool)
        ensures
            r == self.accepts(*outputs),
    {
        let checked = &self.range_check_252_width_27.inputs;
        if !checked.is_traceable(10) {
            return false;
        }
        let len = next_power_of_two(checked.size as usize);
        let (_, _, len_18, len_20) = lengths();
        are_evaluations_of(&outputs.cube_252_trace, outputs.cube_252_log_size) && have_counts(
            &outputs.cube_252_rc_9_9_counts,
            8,
            len_18,
        ) && have_counts(&outputs.cube_252_rc_20_counts, 8, len_20) && are_evaluations_of(
            &outputs.round_keys_trace,
            outputs.round_keys_log_size,
        ) && columns_have_shape(&outputs.rc_252_trace, outputs.rc_252_trace.len(), len)
            && have_counts(&outputs.rc_252_rc_18_counts, 2, len_18) && have_counts(
            &outputs.rc_252_rc_9_9_counts,
            5,
            len_18,
        )
    }
}

/// Tells whether the columns of a trace, and `width` columns of its interaction trace, have the
/// same size.
fn fits_trace(
    trace: &Vec<BaseFieldVec>,
    log_size: u32,
    cols: &Vec<BaseFieldVec>,
    width: usize,
) -> (r: bool)
    ensures
        r == ({
            &&& 0 < log_size <= MAX_LOG_SIZE
            &&& is_shape(columns(trace@), trace@.len(), pow2(log_size as nat))
            &&& is_shape(columns(cols@), width as nat, pow2(log_size as nat))
        }),
{
    if log_size == 0 || log_size > MAX_LOG_SIZE {
        return false;
    }
    let len = exp2(log_size);
    columns_have_shape(trace, trace.len(), len) && columns_have_shape(cols, width, len)
}

impl InteractionClaimGenerator {
    /// Tells whether the outcomes of the kernels fit the traces.
    pub fn can_write_interaction_trace(&self, outcomes: &InteractionOutcomes) -> (r: bool)
        ensures
            r == self.accepts(*outcomes),
    {
        let partial = &self.poseidon_3_partial_rounds_chain_interaction_gen;
        let full = &self.poseidon_full_round_chain_interaction_gen;
        let checked = &self.range_check_252_width_27_interaction_gen;
        fits_trace(
            &partial.trace_data,
            partial.log_size,
            &outcomes.poseidon_3_partial_rounds_chain.columns,
            36,
        ) && fits_trace(
            &full.trace_data,
            full.log_size,
            &outcomes.poseidon_full_round_chain.columns,
            24,
        ) && are_evaluations_of(
            &outcomes.cube_252.columns,
            self.cube_252_interaction_gen.log_size,
        ) && are_evaluations_of(
            &outcomes.poseidon_round_keys.columns,
            self.poseidon_round_keys_interaction_gen.log_size,
        ) && fits_trace(
            &checked.trace_data,
            checked.log_size,
            &outcomes.range_check_252_width_27.columns,
            32,
        )
    }
}

impl PoseidonContextCudaClaimGenerator {
    /// Tells whether the chains and the checked numbers have the columns that they should have.
    pub fn is_wf(&self) -> (r: bool)
        ensures
            r == self.wf(),
    {
        self.poseidon_full_round_chain_cuda.inputs.is_wf(32)
            && self.poseidon_3_partial_rounds_chain_cuda.inputs.is_wf(42)
            && self.range_check_252_width_27_cuda.inputs.is_wf(10)
    }

    /// Tells whether there is room for the rows of an aggregator with two to the power of
    /// `log_size` rows.
    pub fn has_room_for_rows(&self, log_size: u32) -> (r: bool)
        requires
            log_size <= MAX_LOG_SIZE,
        ensures
            r == poseidon_aggregator_native_cuda::has_room(*self, pow2(log_size as nat)),
    {
        if !self.is_wf() {
            return false;
        }
        let rows = exp2(log_size) as u64;
        proof {
            crate::bits::lemma_pow2_bound(log_size as nat);
        }
        let full = self.poseidon_full_round_chain_cuda.inputs.size as u64;
        let partial = self.poseidon_3_partial_rounds_chain_cuda.inputs.size as u64;
        let checked = self.range_check_252_width_27_cuda.inputs.size as u64;
        let max = u32::MAX as u64;
        full + 8 * rows <= max && partial + 27 * rows <= max && checked + 2 * rows <= max
    }

    /// Tells whether there is room for the rows that the host's aggregator hands on.
    pub fn has_room_for_packs(&self, output: &poseidon_aggregator_cuda::HostOutput) -> (r: bool)
        requires
            poseidon_aggregator_cuda::are_handed_on(*output),
        ensures
            r == poseidon_aggregator_cuda::has_room(*self, *output),
    {
        if !self.is_wf() {
            return false;
        }
        let full = self.poseidon_full_round_chain_cuda.inputs.size as u64;
        let partial = self.poseidon_3_partial_rounds_chain_cuda.inputs.size as u64;
        let checked = self.range_check_252_width_27_cuda.inputs.size as u64;
        let max = u32::MAX as u64;
        full + 16 * output.full_rounds.len() as u64 <= max
            && partial + 16 * output.partial_rounds.len() as u64 <= max
            && checked + 16 * output.checked.len() as u64 <= max
    }
}

impl poseidon_aggregator_cuda::HostOutput {
    /// Tells whether the packs of all components have the fields of their rows.
    pub fn is_handed_on(&self) -> (r: bool)
        ensures
            r == poseidon_aggregator_cuda::are_handed_on(*self),
    {
        are_packed_rows(&self.full_rounds, 32) && are_packed_rows(&self.partial_rounds, 42)
            && are_packed_rows(&self.cubed, 10) && are_packed_rows(&self.checked, 10)
    }
}

impl pedersen_cuda::AggregatorOutput {
    /// Tells whether the columns are those of the aggregator.
    pub fn is_wf(&self) -> (r: bool)
        ensures
            r == self.wf(),
    {
        let rc_8: [u32; 1] = [8];
        assert(rc_8@ =~= rc_8_ranges());
        self.trace.len() == pedersen_cuda::N_AGGREGATOR_COLUMNS && are_evaluations_of(
            &self.trace,
            self.log_size,
        ) && are_batches_of_table(&rc_8, &self.bytes) && self.total_steps <= u32::MAX as usize
            && columns_have_shape(
            &self.steps,
            partial_ec_mul_cuda::N_INPUT_COLUMNS,
            self.total_steps,
        )
    }
}

impl pedersen_wb9_cuda::AggregatorOutput {
    /// Tells whether the columns are those of the aggregator.
    pub fn is_wf(&self) -> (r: bool)
        ensures
            r == self.wf(),
    {
        let log_size = self.packed.log_size;
        if log_size == 0 || log_size > 26 {
            return false;
        }
        let len = exp2(log_size);
        proof {
            vstd::arithmetic::power2::lemma2_to64();
            if log_size < 26 {
                vstd::arithmetic::power2::lemma_pow2_strictly_increases(log_size as nat, 26);
            }
        }
        let fits = self.buffers.check(
            pedersen_aggregator_wb9_cuda::N_TRACE_COLUMNS,
            &pedersen_aggregator_wb9_cuda::lookup_layout(),
            &pedersen_aggregator_wb9_cuda::sub_input_layout(),
            log_size,
        );
        if !fits {
            return false;
        }
        let rc_8: [u32; 1] = [8];
        assert(rc_8@ =~= rc_8_ranges());
        columns_have_shape(
            &self.steps,
            pedersen_aggregator_wb9_cuda::N_STEP_COLUMNS,
            pedersen_aggregator_wb9_cuda::N_STEPS * len,
        ) && are_batches_of_table(&rc_8, &self.buffers.sub_inputs[1])
    }
}

impl pedersen_wb9_cuda::StepOutput {
    /// Tells whether the columns are those of the multiplication steps.
    pub fn is_wf(&self) -> (r: bool)
        ensures
            r == self.wf(),
    {
        let index: [u32; 1] = [pedersen_points_table_wb9_cuda::LOG_SIZE];
        let rc_9_9: [u32; 2] = [9, 9];
        let rc_20: [u32; 1] = [20];
        assert(index@ =~= pedersen_points_table_wb9_cuda::index_ranges());
        assert(rc_9_9@ =~= rc_9_9_ranges());
        assert(rc_20@ =~= rc_20::ranges());
        if self.pairs.len() != 8 || self.carries.len() != 8 {
            return false;
        }
        let ghost pairs_all = groups(self.pairs@);
        let ghost carries_all = groups(self.carries@);
        let pairs = are_table_groups(&rc_9_9, &self.pairs, 0, 8);
        assert(pairs_all.subrange(0, 8) =~= pairs_all);
        assert(pairs == are_groups_of_table(rc_9_9_ranges(), pairs_all));
        let carries = are_table_groups(&rc_20, &self.carries, 0, 8);
        assert(carries_all.subrange(0, 8) =~= carries_all);
        assert(carries == are_groups_of_table(rc_20::ranges(), carries_all));
        self.trace.len() == pedersen_wb9_cuda::N_STEP_TRACE_COLUMNS && are_evaluations_of(
            &self.trace,
            self.log_size,
        ) && are_batches_of_table(&index, &self.point_indices) && pairs && carries
    }
}

impl pedersen_cuda::PedersenContextCudaInteractionClaimGenerator {
    /// Tells whether all three components are there, and the outcomes of their interaction kernels
    /// fit them.
    pub fn can_write_interaction_trace(&self, outcomes: &pedersen_cuda::InteractionOutcomes) -> (r:
        bool)
        ensures
            r == self.accepts(*outcomes),
    {
        let aggregator = match &self.pedersen_aggregator_interaction_gen {
            Some(agg) => are_evaluations_of(&outcomes.aggregator.columns, agg.log_size),
            None => false,
        };
        let steps = match &self.partial_ec_mul_cuda_interaction_gen {
            Some(pem) => pem.log_size > 0 && pem.log_size <= MAX_LOG_SIZE && groups_have_shapes(
                &pem.lookup_data,
                &partial_ec_mul_cuda::lookup_layout(),
                exp2(pem.log_size),
            ) && columns_have_shape(
                &outcomes.pem.columns,
                4 * partial_ec_mul_cuda::N_LOGUP_COLUMNS,
                exp2(pem.log_size),
            ),
            None => false,
        };
        let table = match &self.ppt_cuda_interaction_gen {
            Some(ppt) => ppt.log_size == pedersen_points_table_cuda::LOG_SIZE
                && ppt.multiplicities.size() == exp2(pedersen_points_table_cuda::LOG_SIZE)
                && columns_have_shape(&outcomes.ppt.columns, 4, exp2(ppt.log_size)),
            None => false,
        };
        aggregator && steps && table
    }
}

impl pedersen_wb9_cuda::PedersenContextWb9CudaInteractionClaimGenerator {
    /// Tells whether all three components are there, and the outcomes of their interaction kernels
    /// fit them.
    pub fn can_write_interaction_trace(
        &self,
        outcomes: &pedersen_wb9_cuda::InteractionOutcomes,
    ) -> (r: bool)
        ensures
            r == self.accepts(*outcomes),
    {
        let aggregator = match &self.pedersen_aggregator_interaction_gen {
            Some(agg) => agg.log_size > 0 && agg.log_size <= MAX_LOG_SIZE && groups_have_shapes(
                &agg.lookup_data,
                &pedersen_aggregator_wb9_cuda::lookup_layout(),
                exp2(agg.log_size),
            ) && columns_have_shape(
                &outcomes.aggregator.columns,
                4 * pedersen_aggregator_wb9_cuda::N_LOGUP_COLUMNS,
                exp2(agg.log_size),
            ),
            None => false,
        };
        let steps = match &self.partial_ec_mul_cuda_interaction_gen {
            Some(pem) => are_evaluations_of(&outcomes.pem.columns, pem.log_size),
            None => false,
        };
        let table = match &self.ppt_cuda_interaction_gen {
            Some(ppt) => ppt.log_size == pedersen_points_table_wb9_cuda::LOG_SIZE
                && ppt.multiplicities.size() == exp2(pedersen_points_table_wb9_cuda::LOG_SIZE)
                && columns_have_shape(&outcomes.ppt.columns, 4, exp2(ppt.log_size)),
            None => false,
        };
        aggregator && steps && table
    }
}

impl RangeChecksOutcomes {
    /// Tells whether the columns have the sizes of the tables.
    pub fn is_wf(&self) -> (r: bool)
        ensures
            r == self.wf(),
    {
        columns_have_shape(&self.rc_6.columns, 4, exp2(6)) && columns_have_shape(
            &self.rc_8.columns,
            4,
            exp2(8),
        ) && columns_have_shape(&self.rc_11.columns, 4, exp2(11)) && columns_have_shape(
            &self.rc_12.columns,
            4,
            exp2(12),
        ) && columns_have_shape(&self.rc_18.columns, 4, exp2(18)) && columns_have_shape(
            &self.rc_20.columns,
            16,
            exp2(20),
        ) && columns_have_shape(&self.rc_4_3.columns, 4, exp2(7)) && columns_have_shape(
            &self.rc_4_4.columns,
            4,
            exp2(8),
        ) && columns_have_shape(&self.rc_9_9.columns, 16, exp2(18)) && columns_have_shape(
            &self.rc_7_2_5.columns,
            4,
            exp2(14),
        ) && columns_have_shape(&self.rc_3_6_6_3.columns, 4, exp2(18)) && columns_have_shape(
            &self.rc_4_4_4_4.columns,
            4,
            exp2(16),
        ) && columns_have_shape(&self.rc_3_3_3_3_3.columns, 4, exp2(15))
    }
}

} // verus!

//! Hashes with windows of eighteen bits: the aggregator, its multiplication steps, and the table of
//! points that they look into.

use crate::bits::ceil_log2;
use crate::column::{batches, columns, filled, is_shape, BaseFieldVec};
use crate::components_cuda::partial_ec_mul_cuda;
use crate::components_cuda::pedersen_aggregator_wb9_cuda;
use crate::components_cuda::pedersen_points_table_cuda;
use crate::components_cuda::range_check::base::{
    all_occurrences, are_all_inputs, counted, fed_relations, CudaMultiRelationRangeCheckGenerator,
    CudaRangeCheckGenerator,
};
use crate::components_cuda::range_check::rc_20;
use crate::components_cuda::range_check::tables::{rc_8_ranges, rc_9_9_ranges};
use crate::inputs::ComponentInputs;
use crate::launch::TableClaim;
use crate::launch::{
    groups, secure_of, Claim, InteractionClaim as ComponentClaim, InteractionOutcome,
    PendingInteraction, TraceBuffers,
};
use crate::tree_builder::{are_evaluations, committed, TreeBuilder, MAX_LOG_SIZE};
use vstd::arithmetic::power2::pow2;
use vstd::prelude::*;

verus! {

/// The number of columns of the aggregator's trace.
pub const N_AGGREGATOR_COLUMNS: usize = 206;

/// The interaction claims of the three components.
#[derive(Clone, Copy, Debug)]
pub struct InteractionClaim {
    pub pedersen_aggregator: ComponentClaim,
    pub partial_ec_mul: ComponentClaim,
    pub pedersen_points_table: ComponentClaim,
}

/// The interaction claims, if there were hashes.
#[derive(Clone, Copy, Debug)]
pub struct PedersenContextInteractionClaim {
    pub claim: Option<InteractionClaim>,
}

/// The hashes that were looked up, their multiplication steps, and the table of points.
pub struct PedersenContextCudaClaimGenerator {
    pub pedersen_aggregator_cuda: pedersen_aggregator_wb9_cuda::CudaClaimGenerator,
    pub partial_ec_mul_cuda: partial_ec_mul_cuda::CudaClaimGenerator,
    pub pedersen_points_table_cuda: pedersen_points_table_cuda::CudaClaimGenerator,
}

/// What the aggregator's trace kernel wrote.
pub struct AggregatorOutput {
    pub log_size: u32,
    pub trace: Vec<BaseFieldVec>,
    pub lookup_data: Vec<Vec<Vec<BaseFieldVec>>>,
    pub memory_ids: Vec<Vec<BaseFieldVec>>,
    pub bytes: Vec<Vec<BaseFieldVec>>,
    pub steps: Vec<BaseFieldVec>,
    pub total_steps: usize,
}

impl AggregatorOutput {
    /// The columns are those of the aggregator.
    pub open spec fn wf(self) -> bool {
        &&& self.trace@.len() == N_AGGREGATOR_COLUMNS
        &&& are_evaluations(columns(self.trace@), self.log_size)
        &&& are_all_inputs(rc_8_ranges(), batches(self.bytes@))
        &&& self.total_steps <= u32::MAX
        &&& is_shape(
            columns(self.steps@),
            partial_ec_mul_cuda::N_INPUT_COLUMNS as nat,
            self.total_steps as nat,
        )
    }
}

/// What became of the aggregator.
pub struct AggregatorResult {
    pub pedersen_aggregator_claim: Claim,
    pub pedersen_aggregator_interaction_gen: PendingInteraction,
}

impl PedersenContextCudaClaimGenerator {
    /// Returns a generator without hashes.
    pub fn new() -> (r: Self)
        ensures
            r.pedersen_aggregator_cuda.inner@.len() == 0,
            r.partial_ec_mul_cuda.wf(),
            r.partial_ec_mul_cuda.size == 0,
            r.pedersen_points_table_cuda.wf(),
            r.pedersen_points_table_cuda.multiplicities@ == filled(
                0,
                pow2(pedersen_points_table_cuda::LOG_SIZE as nat),
            ),
    {
        PedersenContextCudaClaimGenerator {
            pedersen_aggregator_cuda: pedersen_aggregator_wb9_cuda::CudaClaimGenerator::new(),
            partial_ec_mul_cuda: partial_ec_mul_cuda::CudaClaimGenerator::new(),
            pedersen_points_table_cuda: pedersen_points_table_cuda::CudaClaimGenerator::new(),
        }
    }

    /// Tells whether there are no hashes.
    pub fn is_empty(&self) -> (r: bool)
        ensures
            r == (self.pedersen_aggregator_cuda.inner@.len() == 0),
    {
        self.pedersen_aggregator_cuda.is_empty()
    }

    /// Commits the aggregator's trace and feeds what its kernel wrote to the memory, to the table
    /// of bytes, and to the multiplication steps. Without hashes nothing is done.
    pub fn write_trace_aggregator(
        self,
        output: Option<AggregatorOutput>,
        tree_builder: &mut TreeBuilder,
        memory_id_to_big_state: &mut ComponentInputs,
        rc_8_state: &mut CudaRangeCheckGenerator<1>,
    ) -> (r: (
        Option<AggregatorResult>,
        partial_ec_mul_cuda::CudaClaimGenerator,
        pedersen_points_table_cuda::CudaClaimGenerator,
    ))
        requires
            self.pedersen_aggregator_cuda.inner@.len() > 0 ==> (output matches Some(o) && o.wf()),
            old(rc_8_state).wf(),
            old(rc_8_state).ranges@ == rc_8_ranges(),
        ensures
            r.2 == self.pedersen_points_table_cuda,
            final(rc_8_state).wf(),
            final(rc_8_state).ranges == old(rc_8_state).ranges,
            self.pedersen_aggregator_cuda.inner@.len() == 0 ==> {
                &&& r.0 is None
                &&& r.1 == self.partial_ec_mul_cuda
                &&& final(tree_builder)@ == old(tree_builder)@
                &&& final(memory_id_to_big_state)@ == old(memory_id_to_big_state)@
                &&& final(rc_8_state).multiplicities@ == old(rc_8_state).multiplicities@
            },
            self.pedersen_aggregator_cuda.inner@.len() > 0 ==> (output matches Some(o)
                && r.0 matches Some(result) && {
                &&& result.pedersen_aggregator_claim.log_size == o.log_size
                &&& result.pedersen_aggregator_interaction_gen.log_size == o.log_size
                &&& groups(result.pedersen_aggregator_interaction_gen.lookup_data@) == groups(
                    o.lookup_data@,
                )
                &&& r.1.wf()
                &&& columns(r.1.input_columns@) == columns(o.steps@)
                &&& r.1.size == o.total_steps
                &&& final(tree_builder)@ == old(tree_builder)@ + committed(
                    o.log_size,
                    columns(o.trace@),
                )
                &&& final(memory_id_to_big_state)@ == old(memory_id_to_big_state)@ + batches(
                    o.memory_ids@,
                )
                &&& final(rc_8_state).multiplicities@ == counted(
                    old(rc_8_state).multiplicities@,
                    |i: int|
                        all_occurrences(
                            rc_8_ranges(),
                            batches(o.bytes@),
                            i,
                        ) as int,
                )
            }),
    {
        if self.pedersen_aggregator_cuda.is_empty() {
            return (None, self.partial_ec_mul_cuda, self.pedersen_points_table_cuda);
        }
        let o = output.unwrap();
        let mut pem_cuda = self.partial_ec_mul_cuda;
        memory_id_to_big_state.add_cuda_inputs(&o.memory_ids);
        rc_8_state.add_each(&o.bytes);
        pem_cuda.set_cuda_inputs(o.steps, o.total_steps);
        tree_builder.extend_evals(o.log_size, o.trace);
        (
            Some(
                AggregatorResult {
                    pedersen_aggregator_claim: Claim { log_size: o.log_size },
                    pedersen_aggregator_interaction_gen: PendingInteraction {
                        log_size: o.log_size,
                        lookup_data: o.lookup_data,
                    },
                },
            ),
            pem_cuda,
            self.pedersen_points_table_cuda,
        )
    }
}

/// Commits the traces of the multiplication steps and of the table of points, in this order: the
/// steps feed the table before its counters are committed.
pub fn write_cuda_components(
    pem_cuda: partial_ec_mul_cuda::CudaClaimGenerator,
    ppt_cuda: pedersen_points_table_cuda::CudaClaimGenerator,
    pem_log_size: u32,
    pem_buffers: TraceBuffers,
    tree_builder: &mut TreeBuilder,
    rc_9_9_state: &mut CudaMultiRelationRangeCheckGenerator<2, 8>,
    rc_20_state: &mut rc_20::CudaClaimGenerator,
) -> (r: CudaComponentsResult)
    requires
        pem_cuda.size > 0,
        pem_log_size == ceil_log2(pem_cuda.size as nat),
        0 < pem_log_size <= MAX_LOG_SIZE,
        pem_buffers.fit(
            partial_ec_mul_cuda::N_TRACE_COLUMNS as nat,
            partial_ec_mul_cuda::lookup_shapes(),
            partial_ec_mul_cuda::sub_input_shapes(),
            pem_log_size,
        ),
        ppt_cuda.wf(),
        are_all_inputs(
            pedersen_points_table_cuda::index_ranges(),
            groups(pem_buffers.sub_inputs@)[0],
        ),
        old(rc_9_9_state).wf(),
        old(rc_9_9_state).ranges@ == rc_9_9_ranges(),
        forall|r: int|
            0 <= r < 8 ==> are_all_inputs(
                rc_9_9_ranges(),
                #[trigger] partial_ec_mul_cuda::pair_groups(groups(pem_buffers.sub_inputs@))[r],
            ),
        old(rc_20_state).wf(),
        forall|r: int|
            0 <= r < 8 ==> are_all_inputs(
                rc_20::ranges(),
                #[trigger] partial_ec_mul_cuda::carry_groups(groups(pem_buffers.sub_inputs@))[r],
            ),
    ensures
        r.partial_ec_mul_claim.log_size == pem_log_size,
        r.partial_ec_mul_interaction_gen.wf(),
        r.partial_ec_mul_interaction_gen.log_size == pem_log_size,
        r.partial_ec_mul_interaction_gen.n_rows == pem_cuda.size,
        groups(r.partial_ec_mul_interaction_gen.lookup_data@) == groups(pem_buffers.lookups@),
        r.ppt_interaction_gen.wf(),
        r.ppt_interaction_gen.multiplicities@ == counted(
            ppt_cuda.multiplicities@,
            |i: int|
                all_occurrences(
                    pedersen_points_table_cuda::index_ranges(),
                    groups(pem_buffers.sub_inputs@)[0],
                    i,
                ) as int,
        ),
        final(tree_builder)@ == old(tree_builder)@ + committed(
            pem_log_size,
            columns(pem_buffers.trace@),
        ) + committed(
            pedersen_points_table_cuda::LOG_SIZE,
            seq![r.ppt_interaction_gen.multiplicities@],
        ),
        final(rc_9_9_state).wf(),
        final(rc_9_9_state).ranges == old(rc_9_9_state).ranges,
        columns(final(rc_9_9_state).multiplicities@) == fed_relations(
            columns(old(rc_9_9_state).multiplicities@),
            rc_9_9_ranges(),
            partial_ec_mul_cuda::pair_groups(groups(pem_buffers.sub_inputs@)),
        ),
        final(rc_20_state).wf(),
        final(rc_20_state).counters() == fed_relations(
            old(rc_20_state).counters(),
            rc_20::ranges(),
            partial_ec_mul_cuda::carry_groups(groups(pem_buffers.sub_inputs@)),
        ),
{
    let mut ppt_cuda = ppt_cuda;
    let (partial_ec_mul_claim, partial_ec_mul_interaction_gen) = pem_cuda.write_trace(
        pem_log_size,
        pem_buffers,
        tree_builder,
        &mut ppt_cuda,
        rc_9_9_state,
        rc_20_state,
    );
    let (ppt_claim, ppt_interaction_gen) = ppt_cuda.write_trace_cuda(tree_builder);
    CudaComponentsResult {
        partial_ec_mul_claim,
        partial_ec_mul_interaction_gen,
        ppt_claim,
        ppt_interaction_gen,
    }
}

/// What became of the multiplication steps and of the table of points.
pub struct CudaComponentsResult {
    pub partial_ec_mul_claim: Claim,
    pub partial_ec_mul_interaction_gen: partial_ec_mul_cuda::CudaInteractionClaimGenerator,
    pub ppt_claim: TableClaim,
    pub ppt_interaction_gen: pedersen_points_table_cuda::CudaInteractionClaimGenerator,
}

/// Writes the interaction traces of the three components.
pub struct PedersenContextCudaInteractionClaimGenerator {
    pub pedersen_aggregator_interaction_gen: Option<PendingInteraction>,
    pub partial_ec_mul_cuda_interaction_gen:
        Option<partial_ec_mul_cuda::CudaInteractionClaimGenerator>,
    pub ppt_cuda_interaction_gen: Option<pedersen_points_table_cuda::CudaInteractionClaimGenerator>,
}

impl PedersenContextCudaInteractionClaimGenerator {
    /// Returns a generator without components.
    pub fn new_empty() -> (r: Self)
        ensures
            r.pedersen_aggregator_interaction_gen is None,
            r.partial_ec_mul_cuda_interaction_gen is None,
            r.ppt_cuda_interaction_gen is None,
    {
        PedersenContextCudaInteractionClaimGenerator {
            pedersen_aggregator_interaction_gen: None,
            partial_ec_mul_cuda_interaction_gen: None,
            ppt_cuda_interaction_gen: None,
        }
    }

    /// Returns a generator with all three components.
    pub fn new(
        pedersen_aggregator_interaction_gen: PendingInteraction,
        partial_ec_mul_cuda_interaction_gen: partial_ec_mul_cuda::CudaInteractionClaimGenerator,
        ppt_cuda_interaction_gen: pedersen_points_table_cuda::CudaInteractionClaimGenerator,
    ) -> (r: Self)
        ensures
            r.pedersen_aggregator_interaction_gen == Some(pedersen_aggregator_interaction_gen),
            r.partial_ec_mul_cuda_interaction_gen == Some(partial_ec_mul_cuda_interaction_gen),
            r.ppt_cuda_interaction_gen == Some(ppt_cuda_interaction_gen),
    {
        PedersenContextCudaInteractionClaimGenerator {
            pedersen_aggregator_interaction_gen: Some(pedersen_aggregator_interaction_gen),
            partial_ec_mul_cuda_interaction_gen: Some(partial_ec_mul_cuda_interaction_gen),
            ppt_cuda_interaction_gen: Some(ppt_cuda_interaction_gen),
        }
    }

    /// Tells whether there are no components.
    pub fn is_empty(&self) -> (r: bool)
        ensures
            r == (self.pedersen_aggregator_interaction_gen is None),
    {
        self.pedersen_aggregator_interaction_gen.is_none()
    }

    /// All three components are there, and the outcomes of their interaction kernels fit them.
    pub open spec fn accepts(self, outcomes: InteractionOutcomes) -> bool {
        &&& self.pedersen_aggregator_interaction_gen matches Some(agg) && {
            &&& are_evaluations(columns(outcomes.aggregator.columns@), agg.log_size)
        }
        &&& self.partial_ec_mul_cuda_interaction_gen matches Some(pem) && {
            &&& pem.wf()
            &&& is_shape(
                columns(outcomes.pem.columns@),
                4 * partial_ec_mul_cuda::N_LOGUP_COLUMNS as nat,
                pow2(pem.log_size as nat),
            )
        }
        &&& self.ppt_cuda_interaction_gen matches Some(ppt) && {
            &&& ppt.wf()
            &&& is_shape(columns(outcomes.ppt.columns@), 4, pow2(ppt.log_size as nat))
        }
    }
}

/// What the interaction kernels of the three components wrote.
pub struct InteractionOutcomes {
    pub aggregator: InteractionOutcome,
    pub pem: InteractionOutcome,
    pub ppt: InteractionOutcome,
}

/// How the interaction traces are written: by their components, or not at all.
pub enum PedersenInteractionMode {
    Cuda(PedersenContextCudaInteractionClaimGenerator),
    Empty,
}

impl PedersenInteractionMode {
    /// Tells whether there is nothing to write.
    pub fn is_empty(&self) -> (r: bool)
        ensures
            r == (self matches PedersenInteractionMode::Cuda(g)
                ==> g.pedersen_aggregator_interaction_gen is None),
    {
        match self {
            PedersenInteractionMode::Cuda(g) => g.is_empty(),
            PedersenInteractionMode::Empty => true,
        }
    }

    /// Commits what the interaction kernels wrote, the aggregator first, then the multiplication
    /// steps, then the table of points. Where there is nothing to write, nothing is claimed.
    pub fn write_interaction_trace(
        self,
        tree_builder: &mut TreeBuilder,
        outcomes: Option<InteractionOutcomes>,
    ) -> (r: PedersenContextInteractionClaim)
        requires
            self matches PedersenInteractionMode::Cuda(g) ==> (outcomes matches Some(o)
                && g.accepts(o)),
        ensures
            self is Empty ==> r.claim is None && final(tree_builder)@ == old(tree_builder)@,
            self matches PedersenInteractionMode::Cuda(g) ==> (outcomes matches Some(o)
                && r.claim matches Some(claim) && {
                &&& claim.pedersen_aggregator.claimed_sum == secure_of(o.aggregator.claimed_sum@)
                &&& claim.partial_ec_mul.claimed_sum == secure_of(o.pem.claimed_sum@)
                &&& claim.pedersen_points_table.claimed_sum == secure_of(o.ppt.claimed_sum@)
                &&& final(tree_builder)@ == old(tree_builder)@ + committed(
                    g.pedersen_aggregator_interaction_gen->0.log_size,
                    columns(o.aggregator.columns@),
                ) + committed(
                    g.partial_ec_mul_cuda_interaction_gen->0.log_size,
                    columns(o.pem.columns@),
                ) + committed(
                    g.ppt_cuda_interaction_gen->0.log_size,
                    columns(o.ppt.columns@),
                )
            }),
    {
        match self {
            PedersenInteractionMode::Cuda(g) => {
                let o = outcomes.unwrap();
                let pedersen_aggregator =
                    g.pedersen_aggregator_interaction_gen.unwrap().write_interaction_trace(
                    tree_builder,
                    o.aggregator.columns,
                    o.aggregator.claimed_sum,
                );
                let partial_ec_mul =
                    g.partial_ec_mul_cuda_interaction_gen.unwrap().write_interaction_trace(
                    tree_builder,
                    o.pem.columns,
                    o.pem.claimed_sum,
                );
                let pedersen_points_table =
                    g.ppt_cuda_interaction_gen.unwrap().write_interaction_trace(
                    tree_builder,
                    o.ppt.columns,
                    o.ppt.claimed_sum,
                );
                PedersenContextInteractionClaim {
                    claim: Some(
                        InteractionClaim {
                            pedersen_aggregator,
                            partial_ec_mul,
                            pedersen_points_table,
                        },
                    ),
                }
            },
            PedersenInteractionMode::Empty => PedersenContextInteractionClaim { claim: None },
        }
    }
}

} // verus!

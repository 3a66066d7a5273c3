//! Hashes with windows of nine bits: the aggregator, its multiplication steps, and the small table
//! of points that they look into.

use crate::column::{batches, columns, filled, is_shape, BaseFieldVec};
use crate::components_cuda::pedersen_aggregator_wb9_cuda;
use crate::components_cuda::pedersen_points_table_wb9_cuda;
use crate::components_cuda::range_check::base::{
    all_occurrences, are_all_inputs, counted, fed_relations, CudaMultiRelationRangeCheckGenerator,
    CudaRangeCheckGenerator,
};
use crate::components_cuda::range_check::rc_20;
use crate::components_cuda::range_check::tables::{rc_8_ranges, rc_9_9_ranges};
use crate::inputs::{ColumnInputs, ComponentInputs};
use crate::launch::TableClaim;
use crate::launch::{
    groups, secure_of, Claim, InteractionClaim as ComponentClaim, InteractionOutcome,
    PendingInteraction, TraceBuffers,
};
use crate::tree_builder::{are_evaluations, committed, TreeBuilder};
use vstd::arithmetic::power2::pow2;
use vstd::prelude::*;

verus! {

/// The number of columns of the trace of the multiplication steps.
pub const N_STEP_TRACE_COLUMNS: usize = 311;

/// The interaction claims of the three components.
#[derive(Clone, Copy, Debug)]
pub struct InteractionClaim {
    pub pedersen_aggregator: ComponentClaim,
    pub partial_ec_mul: ComponentClaim,
    pub pedersen_points_table: ComponentClaim,
}

/// The interaction claims, if there were hashes.
#[derive(Clone, Copy, Debug)]
pub struct PedersenContextWb9InteractionClaim {
    pub claim: Option<InteractionClaim>,
}

/// The hashes that were looked up, their multiplication steps, and the table of points.
pub struct PedersenContextWb9CudaClaimGenerator {
    pub pedersen_aggregator_wb9_cuda: pedersen_aggregator_wb9_cuda::CudaClaimGenerator,
    pub partial_ec_mul_wb9_cuda: ColumnInputs,
    pub pedersen_points_table_wb9_cuda: pedersen_points_table_wb9_cuda::CudaClaimGenerator,
}

/// What the aggregator's trace kernel was launched with, and what it wrote.
pub struct AggregatorOutput {
    pub packed: pedersen_aggregator_wb9_cuda::PackedInputs,
    pub buffers: TraceBuffers,
    pub steps: Vec<BaseFieldVec>,
}

impl AggregatorOutput {
    /// The columns are those of the aggregator.
    pub open spec fn wf(self) -> bool {
        &&& 0 < self.packed.log_size <= 26
        &&& self.buffers.fit(
            pedersen_aggregator_wb9_cuda::N_TRACE_COLUMNS as nat,
            pedersen_aggregator_wb9_cuda::lookup_shapes(),
            pedersen_aggregator_wb9_cuda::sub_input_shapes(),
            self.packed.log_size,
        )
        &&& is_shape(
            columns(self.steps@),
            pedersen_aggregator_wb9_cuda::N_STEP_COLUMNS as nat,
            pedersen_aggregator_wb9_cuda::N_STEPS as nat * pow2(self.packed.log_size as nat),
        )
        &&& are_all_inputs(
            rc_8_ranges(),
            groups(self.buffers.sub_inputs@)[1],
        )
    }
}

/// What became of the aggregator.
pub struct AggregatorResult {
    pub pedersen_aggregator_claim: Claim,
    pub pedersen_aggregator_interaction_gen:
        pedersen_aggregator_wb9_cuda::CudaInteractionClaimGenerator,
}

impl PedersenContextWb9CudaClaimGenerator {
    /// Returns a generator without hashes.
    pub fn new() -> (r: Self)
        ensures
            r.pedersen_aggregator_wb9_cuda.inner@.len() == 0,
            r.partial_ec_mul_wb9_cuda.size == 0,
            r.pedersen_points_table_wb9_cuda.wf(),
            r.pedersen_points_table_wb9_cuda.multiplicities@ == filled(
                0,
                pow2(pedersen_points_table_wb9_cuda::LOG_SIZE as nat),
            ),
    {
        PedersenContextWb9CudaClaimGenerator {
            pedersen_aggregator_wb9_cuda: pedersen_aggregator_wb9_cuda::CudaClaimGenerator::new(),
            partial_ec_mul_wb9_cuda: ColumnInputs::new(),
            pedersen_points_table_wb9_cuda:
                pedersen_points_table_wb9_cuda::CudaClaimGenerator::new(),
        }
    }

    /// Tells whether there are no hashes.
    pub fn is_empty(&self) -> (r: bool)
        ensures
            r == (self.pedersen_aggregator_wb9_cuda.inner@.len() == 0),
    {
        self.pedersen_aggregator_wb9_cuda.is_empty()
    }

    /// Commits the aggregator's trace and feeds what its kernel wrote to the memory, to the table
    /// of bytes, and to the multiplication steps. Without hashes nothing is done.
    pub fn write_trace_aggregator(
        self,
        output: Option<AggregatorOutput>,
        tree_builder: &mut TreeBuilder,
        memory_id_to_big_state: &mut ComponentInputs,
        rc_8_state: &mut CudaRangeCheckGenerator<1>,
    ) -> (r: (
        Option<AggregatorResult>,
        ColumnInputs,
        pedersen_points_table_wb9_cuda::CudaClaimGenerator,
    ))
        requires
            self.pedersen_aggregator_wb9_cuda.inner@.len() > 0 ==> (output matches Some(o)
                && o.wf() && self.pedersen_aggregator_wb9_cuda.is_packed(o.packed)),
            old(rc_8_state).wf(),
            old(rc_8_state).ranges@ == rc_8_ranges(),
        ensures
            r.2 == self.pedersen_points_table_wb9_cuda,
            final(rc_8_state).wf(),
            final(rc_8_state).ranges == old(rc_8_state).ranges,
            self.pedersen_aggregator_wb9_cuda.inner@.len() == 0 ==> {
                &&& r.0 is None
                &&& r.1 == self.partial_ec_mul_wb9_cuda
                &&& final(tree_builder)@ == old(tree_builder)@
                &&& final(memory_id_to_big_state)@ == old(memory_id_to_big_state)@
                &&& final(rc_8_state).multiplicities@ == old(rc_8_state).multiplicities@
            },
            self.pedersen_aggregator_wb9_cuda.inner@.len() > 0 ==> (output matches Some(o)
                && r.0 matches Some(result) && {
                &&& result.pedersen_aggregator_claim.log_size == o.packed.log_size
                &&& result.pedersen_aggregator_interaction_gen.wf()
                &&& result.pedersen_aggregator_interaction_gen.log_size == o.packed.log_size
                &&& groups(result.pedersen_aggregator_interaction_gen.lookup_data@) == groups(
                    o.buffers.lookups@,
                )
                &&& result.pedersen_aggregator_interaction_gen.multiplicities@
                    == o.packed.multiplicities@
                &&& columns(r.1.input_columns@) == columns(o.steps@)
                &&& r.1.size == pedersen_aggregator_wb9_cuda::N_STEPS * pow2(
                    o.packed.log_size as nat,
                )
                &&& final(tree_builder)@ == old(tree_builder)@ + committed(
                    o.packed.log_size,
                    columns(o.buffers.trace@),
                )
                &&& final(memory_id_to_big_state)@ == old(memory_id_to_big_state)@ + groups(
                    o.buffers.sub_inputs@,
                )[0]
                &&& final(rc_8_state).multiplicities@ == counted(
                    old(rc_8_state).multiplicities@,
                    |i: int|
                        all_occurrences(
                            rc_8_ranges(),
                            groups(o.buffers.sub_inputs@)[1],
                            i,
                        ) as int,
                )
            }),
    {
        if self.pedersen_aggregator_wb9_cuda.is_empty() {
            return (None, self.partial_ec_mul_wb9_cuda, self.pedersen_points_table_wb9_cuda);
        }
        let o = output.unwrap();
        let mut pem_cuda = self.partial_ec_mul_wb9_cuda;
        let (claim, interaction_gen) = self.pedersen_aggregator_wb9_cuda.write_trace(
            o.packed,
            o.buffers,
            o.steps,
            tree_builder,
            memory_id_to_big_state,
            rc_8_state,
            &mut pem_cuda,
        );
        (
            Some(
                AggregatorResult {
                    pedersen_aggregator_claim: claim,
                    pedersen_aggregator_interaction_gen: interaction_gen,
                },
            ),
            pem_cuda,
            self.pedersen_points_table_wb9_cuda,
        )
    }
}

/// What the trace kernel of the multiplication steps wrote.
pub struct StepOutput {
    pub log_size: u32,
    pub trace: Vec<BaseFieldVec>,
    pub lookup_data: Vec<Vec<Vec<BaseFieldVec>>>,
    pub point_indices: Vec<Vec<BaseFieldVec>>,
    pub pairs: Vec<Vec<Vec<BaseFieldVec>>>,
    pub carries: Vec<Vec<Vec<BaseFieldVec>>>,
}

impl StepOutput {
    /// The columns are those of the multiplication steps.
    pub open spec fn wf(self) -> bool {
        &&& self.trace@.len() == N_STEP_TRACE_COLUMNS
        &&& are_evaluations(columns(self.trace@), self.log_size)
        &&& are_all_inputs(
            pedersen_points_table_wb9_cuda::index_ranges(),
            batches(self.point_indices@),
        )
        &&& self.pairs@.len() == 8
        &&& forall|r: int|
            0 <= r < 8 ==> are_all_inputs(rc_9_9_ranges(), #[trigger] groups(self.pairs@)[r])
        &&& self.carries@.len() == 8
        &&& forall|r: int|
            0 <= r < 8 ==> are_all_inputs(rc_20::ranges(), #[trigger] groups(self.carries@)[r])
    }
}

/// Commits the traces of the multiplication steps and of the table of points, in this order: the
/// steps feed the table before its counters are committed.
pub fn write_cuda_components(
    steps: StepOutput,
    ppt_cuda: pedersen_points_table_wb9_cuda::CudaClaimGenerator,
    tree_builder: &mut TreeBuilder,
    rc_9_9_state: &mut CudaMultiRelationRangeCheckGenerator<2, 8>,
    rc_20_state: &mut rc_20::CudaClaimGenerator,
) -> (r: CudaComponentsResult)
    requires
        steps.wf(),
        ppt_cuda.wf(),
        old(rc_9_9_state).wf(),
        old(rc_9_9_state).ranges@ == rc_9_9_ranges(),
        old(rc_20_state).wf(),
    ensures
        r.partial_ec_mul_claim.log_size == steps.log_size,
        r.partial_ec_mul_interaction_gen.log_size == steps.log_size,
        groups(r.partial_ec_mul_interaction_gen.lookup_data@) == groups(steps.lookup_data@),
        r.ppt_interaction_gen.wf(),
        r.ppt_interaction_gen.multiplicities@ == counted(
            ppt_cuda.multiplicities@,
            |i: int|
                all_occurrences(
                    pedersen_points_table_wb9_cuda::index_ranges(),
                    batches(steps.point_indices@),
                    i,
                ) as int,
        ),
        final(tree_builder)@ == old(tree_builder)@ + committed(
            steps.log_size,
            columns(steps.trace@),
        ) + committed(
            pedersen_points_table_wb9_cuda::LOG_SIZE,
            seq![r.ppt_interaction_gen.multiplicities@],
        ),
        final(rc_9_9_state).wf(),
        final(rc_9_9_state).ranges == old(rc_9_9_state).ranges,
        columns(final(rc_9_9_state).multiplicities@) == fed_relations(
            columns(old(rc_9_9_state).multiplicities@),
            rc_9_9_ranges(),
            groups(steps.pairs@),
        ),
        final(rc_20_state).wf(),
        final(rc_20_state).counters() == fed_relations(
            old(rc_20_state).counters(),
            rc_20::ranges(),
            groups(steps.carries@),
        ),
{
    let mut ppt_cuda = ppt_cuda;
    ppt_cuda.add_cuda_inputs(&steps.point_indices);
    proof {
        assert(groups(steps.pairs@).subrange(0, 8) =~= groups(steps.pairs@));
        assert(groups(steps.carries@).subrange(0, 8) =~= groups(steps.carries@));
    }
    rc_9_9_state.add_relation_groups(&steps.pairs, 0);
    rc_20_state.0.add_relation_groups(&steps.carries, 0);
    tree_builder.extend_evals(steps.log_size, steps.trace);
    let (ppt_claim, ppt_interaction_gen) = ppt_cuda.write_trace_cuda(tree_builder);
    CudaComponentsResult {
        partial_ec_mul_claim: Claim { log_size: steps.log_size },
        partial_ec_mul_interaction_gen: PendingInteraction {
            log_size: steps.log_size,
            lookup_data: steps.lookup_data,
        },
        ppt_claim,
        ppt_interaction_gen,
    }
}

/// What became of the multiplication steps and of the table of points.
pub struct CudaComponentsResult {
    pub partial_ec_mul_claim: Claim,
    pub partial_ec_mul_interaction_gen: PendingInteraction,
    pub ppt_claim: TableClaim,
    pub ppt_interaction_gen: pedersen_points_table_wb9_cuda::CudaInteractionClaimGenerator,
}

/// Writes the interaction traces of the three components.
pub struct PedersenContextWb9CudaInteractionClaimGenerator {
    pub pedersen_aggregator_interaction_gen:
        Option<pedersen_aggregator_wb9_cuda::CudaInteractionClaimGenerator>,
    pub partial_ec_mul_cuda_interaction_gen: Option<PendingInteraction>,
    pub ppt_cuda_interaction_gen:
        Option<pedersen_points_table_wb9_cuda::CudaInteractionClaimGenerator>,
}

impl PedersenContextWb9CudaInteractionClaimGenerator {
    /// Returns a generator without components.
    pub fn new_empty() -> (r: Self)
        ensures
            r.pedersen_aggregator_interaction_gen is None,
            r.partial_ec_mul_cuda_interaction_gen is None,
            r.ppt_cuda_interaction_gen is None,
    {
        PedersenContextWb9CudaInteractionClaimGenerator {
            pedersen_aggregator_interaction_gen: None,
            partial_ec_mul_cuda_interaction_gen: None,
            ppt_cuda_interaction_gen: None,
        }
    }

    /// Returns a generator with all three components.
    pub fn new(
        pedersen_aggregator_interaction_gen:
            pedersen_aggregator_wb9_cuda::CudaInteractionClaimGenerator,
        partial_ec_mul_cuda_interaction_gen: PendingInteraction,
        ppt_cuda_interaction_gen: pedersen_points_table_wb9_cuda::CudaInteractionClaimGenerator,
    ) -> (r: Self)
        ensures
            r.pedersen_aggregator_interaction_gen == Some(pedersen_aggregator_interaction_gen),
            r.partial_ec_mul_cuda_interaction_gen == Some(partial_ec_mul_cuda_interaction_gen),
            r.ppt_cuda_interaction_gen == Some(ppt_cuda_interaction_gen),
    {
        PedersenContextWb9CudaInteractionClaimGenerator {
            pedersen_aggregator_interaction_gen: Some(pedersen_aggregator_interaction_gen),
            partial_ec_mul_cuda_interaction_gen: Some(partial_ec_mul_cuda_interaction_gen),
            ppt_cuda_interaction_gen: Some(ppt_cuda_interaction_gen),
        }
    }

    /// Tells whether there are no components.
    pub fn is_empty(&self) -> (r: bool)
        ensures
            r == (self.pedersen_aggregator_interaction_gen is None),
    {
        self.pedersen_aggregator_interaction_gen.is_none()
    }

    /// All three components are there, and the outcomes of their interaction kernels fit them.
    pub open spec fn accepts(self, outcomes: InteractionOutcomes) -> bool {
        &&& self.pedersen_aggregator_interaction_gen matches Some(agg) && {
            &&& agg.wf()
            &&& is_shape(
                columns(outcomes.aggregator.columns@),
                4 * pedersen_aggregator_wb9_cuda::N_LOGUP_COLUMNS as nat,
                pow2(agg.log_size as nat),
            )
        }
        &&& self.partial_ec_mul_cuda_interaction_gen matches Some(pem) && {
            &&& are_evaluations(columns(outcomes.pem.columns@), pem.log_size)
        }
        &&& self.ppt_cuda_interaction_gen matches Some(ppt) && {
            &&& ppt.wf()
            &&& is_shape(columns(outcomes.ppt.columns@), 4, pow2(ppt.log_size as nat))
        }
    }
}

/// What the interaction kernels of the three components wrote.
pub struct InteractionOutcomes {
    pub aggregator: InteractionOutcome,
    pub pem: InteractionOutcome,
    pub ppt: InteractionOutcome,
}

/// How the interaction traces are written: by their components, or not at all.
pub enum PedersenWb9InteractionMode {
    Cuda(PedersenContextWb9CudaInteractionClaimGenerator),
    Empty,
}

impl PedersenWb9InteractionMode {
    /// Tells whether there is nothing to write.
    pub fn is_empty(&self) -> (r: bool)
        ensures
            r == (self matches PedersenWb9InteractionMode::Cuda(g)
                ==> g.pedersen_aggregator_interaction_gen is None),
    {
        match self {
            PedersenWb9InteractionMode::Cuda(g) => g.is_empty(),
            PedersenWb9InteractionMode::Empty => true,
        }
    }

    /// Commits what the interaction kernels wrote, the aggregator first, then the multiplication
    /// steps, then the table of points. Where there is nothing to write, nothing is claimed.
    pub fn write_interaction_trace(
        self,
        tree_builder: &mut TreeBuilder,
        outcomes: Option<InteractionOutcomes>,
    ) -> (r: PedersenContextWb9InteractionClaim)
        requires
            self matches PedersenWb9InteractionMode::Cuda(g) ==> (outcomes matches Some(o)
                && g.accepts(o)),
        ensures
            self is Empty ==> r.claim is None && final(tree_builder)@ == old(tree_builder)@,
            self matches PedersenWb9InteractionMode::Cuda(g) ==> (outcomes matches Some(o)
                && r.claim matches Some(claim) && {
                &&& claim.pedersen_aggregator.claimed_sum == secure_of(o.aggregator.claimed_sum@)
                &&& claim.partial_ec_mul.claimed_sum == secure_of(o.pem.claimed_sum@)
                &&& claim.pedersen_points_table.claimed_sum == secure_of(o.ppt.claimed_sum@)
                &&& final(tree_builder)@ == old(tree_builder)@ + committed(
                    g.pedersen_aggregator_interaction_gen->0.log_size,
                    columns(o.aggregator.columns@),
                ) + committed(
                    g.partial_ec_mul_cuda_interaction_gen->0.log_size,
                    columns(o.pem.columns@),
                ) + committed(
                    g.ppt_cuda_interaction_gen->0.log_size,
                    columns(o.ppt.columns@),
                )
            }),
    {
        match self {
            PedersenWb9InteractionMode::Cuda(g) => {
                let o = outcomes.unwrap();
                let pedersen_aggregator =
                    g.pedersen_aggregator_interaction_gen.unwrap().write_interaction_trace(
                    tree_builder,
                    o.aggregator.columns,
                    o.aggregator.claimed_sum,
                );
                let partial_ec_mul =
                    g.partial_ec_mul_cuda_interaction_gen.unwrap().write_interaction_trace(
                    tree_builder,
                    o.pem.columns,
                    o.pem.claimed_sum,
                );
                let pedersen_points_table =
                    g.ppt_cuda_interaction_gen.unwrap().write_interaction_trace(
                    tree_builder,
                    o.ppt.columns,
                    o.ppt.claimed_sum,
                );
                PedersenContextWb9InteractionClaim {
                    claim: Some(
                        InteractionClaim {
                            pedersen_aggregator,
                            partial_ec_mul,
                            pedersen_points_table,
                        },
                    ),
                }
            },
            PedersenWb9InteractionMode::Empty => PedersenContextWb9InteractionClaim { claim: None },
        }
    }
}

} // verus!

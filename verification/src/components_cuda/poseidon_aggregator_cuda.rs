//! The aggregator of hashes, where its trace was computed on the host: what it hands on arrives in
//! packs of rows and is brought into columns here.

use crate::column::{columns, is_shape, BaseFieldVec};
use crate::components_cuda::poseidon_cuda::PoseidonContextCudaClaimGenerator;
use crate::components_cuda::range_check::base::{
    counted, law_counting_adds, CudaRangeCheckGenerator,
};
use crate::inputs::{are_packed, fed_rows, lane_columns, unpack_columns, Pack};
use crate::launch::{groups, secure_of, Claim, InteractionClaim, PendingInteraction};
use crate::range_checks_cuda::RangeChecksCudaClaimGenerator;
use crate::tree_builder::{are_evaluations, committed, TreeBuilder};
use vstd::prelude::*;

verus! {

/// How often values in memory were read elsewhere: large ones, and small ones.
pub struct MemoryReads {
    pub big: Vec<u32>,
    pub small: Vec<u32>,
}

/// The reads that are merged into those of the memory, in the order in which they came.
pub struct MemoryMerges {
    pub merges: Vec<MemoryReads>,
}

impl View for MemoryMerges {
    type V = Seq<(Seq<u32>, Seq<u32>)>;

    open spec fn view(&self) -> Seq<(Seq<u32>, Seq<u32>)> {
        Seq::new(
            self.merges@.len(),
            |i: int| (self.merges@[i].big@, self.merges@[i].small@),
        )
    }
}

impl MemoryMerges {
    /// Returns a list without merges.
    pub fn new() -> (r: Self)
        ensures
            r@.len() == 0,
    {
        MemoryMerges { merges: Vec::new() }
    }

    /// Adds reads to the list.
    pub fn merge_simd_multiplicities(&mut self, reads: MemoryReads)
        ensures
            final(self)@ == old(self)@.push((reads.big@, reads.small@)),
    {
        let ghost before = self@;
        self.merges.push(reads);
        assert(self@ =~= before.push((reads.big@, reads.small@)));
    }
}

/// What the host computed for the aggregator.
pub struct HostOutput {
    pub log_size: u32,
    pub trace: Vec<BaseFieldVec>,
    pub lookup_data: Vec<Vec<Vec<BaseFieldVec>>>,
    pub memory_reads: MemoryReads,
    pub full_rounds: Vec<Vec<Pack>>,
    pub partial_rounds: Vec<Vec<Pack>>,
    pub cubed: Vec<Vec<Pack>>,
    pub checked: Vec<Vec<Pack>>,
    pub rc_3_3_3_3_3: Vec<Vec<u32>>,
    pub rc_4_4_4_4: Vec<Vec<u32>>,
    pub rc_4_4: Vec<Vec<u32>>,
}

/// The counters after lists of counters were added one after the other.
pub open spec fn merged_all(mults: Seq<u32>, lists: Seq<Vec<u32>>) -> Seq<u32>
    decreases lists.len(),
{
    if lists.len() == 0 {
        mults
    } else {
        counted(merged_all(mults, lists.drop_last()), |i: int| lists.last()@[i] as int)
    }
}

/// The lists have `len` counters each.
pub open spec fn are_lists(lists: Seq<Vec<u32>>, len: nat) -> bool {
    forall|k: int| 0 <= k < lists.len() ==> (#[trigger] lists[k])@.len() == len
}

fn merge_all<const N: usize>(state: &mut CudaRangeCheckGenerator<N>, lists: &Vec<Vec<u32>>)
    requires
        old(state).wf(),
        are_lists(lists@, old(state).multiplicities@.len()),
    ensures
        final(state).wf(),
        final(state).ranges == old(state).ranges,
        final(state).multiplicities@ == merged_all(old(state).multiplicities@, lists@),
{
    let ghost first = state.multiplicities@;
    let mut k: usize = 0;
    assert(lists@.take(0) =~= Seq::<Vec<u32>>::empty());
    while k < lists.len()
        invariant
            k <= lists@.len(),
            state.wf(),
            state.ranges == old(state).ranges,
            are_lists(lists@, first.len()),
            state.multiplicities@.len() == first.len(),
            state.multiplicities@ == merged_all(first, lists@.take(k as int)),
        decreases lists.len() - k,
    {
        assert(lists@[k as int]@.len() == first.len());
        state.merge_simd_multiplicities(&lists[k]);
        k = k + 1;
        assert(lists@.take(k as int).drop_last() =~= lists@.take(k - 1));
        assert(lists@.take(k as int).last() == lists@[k - 1]);
    }
    assert(lists@.take(k as int) =~= lists@);
}

/// The packs of all components have the fields of their rows.
pub open spec fn are_handed_on(output: HostOutput) -> bool {
    &&& are_packed(output.full_rounds@, 32)
    &&& are_packed(output.partial_rounds@, 42)
    &&& are_packed(output.cubed@, 10)
    &&& are_packed(output.checked@, 10)
}

/// The components have room for the rows that are handed on.
pub open spec fn has_room(context: PoseidonContextCudaClaimGenerator, output: HostOutput) -> bool {
    &&& context.wf()
    &&& context.poseidon_full_round_chain_cuda.inputs.size + 16 * output.full_rounds@.len()
        <= u32::MAX
    &&& context.poseidon_3_partial_rounds_chain_cuda.inputs.size + 16
        * output.partial_rounds@.len() <= u32::MAX
    &&& context.range_check_252_width_27_cuda.inputs.size + 16 * output.checked@.len() <= u32::MAX
}

/// The components of the hash after the rows were handed on.
pub open spec fn fed_context(
    before: PoseidonContextCudaClaimGenerator,
    after: PoseidonContextCudaClaimGenerator,
    output: HostOutput,
) -> bool {
    &&& after.wf()
    &&& columns(after.poseidon_full_round_chain_cuda.inputs.columns@) == fed_rows(
        columns(before.poseidon_full_round_chain_cuda.inputs.columns@),
        lane_columns(output.full_rounds@, 32),
    )
    &&& columns(after.poseidon_3_partial_rounds_chain_cuda.inputs.columns@) == fed_rows(
        columns(before.poseidon_3_partial_rounds_chain_cuda.inputs.columns@),
        lane_columns(output.partial_rounds@, 42),
    )
    &&& after.cube_252_cuda@ == before.cube_252_cuda@.push(lane_columns(output.cubed@, 10))
    &&& columns(after.range_check_252_width_27_cuda.inputs.columns@) == fed_rows(
        columns(before.range_check_252_width_27_cuda.inputs.columns@),
        lane_columns(output.checked@, 10),
    )
}

/// Brings packs of numbers in ten limbs into ten columns.
pub fn packed_felt252w27_to_basefieldvec_10(packed: &Vec<Vec<Pack>>) -> (cols: Vec<BaseFieldVec>)
    requires
        are_packed(packed@, 10),
    ensures
        columns(cols@) == lane_columns(packed@, 10),
{
    unpack_columns(packed, 10)
}

/// Brings packs of rows of full rounds into columns: the chain, the round, and the limbs of three
/// numbers.
pub fn simd_to_cuda_full_round_chain(packed: &Vec<Vec<Pack>>) -> (cols: Vec<BaseFieldVec>)
    requires
        are_packed(packed@, 32),
    ensures
        columns(cols@) == lane_columns(packed@, 32),
{
    unpack_columns(packed, 32)
}

/// Brings packs of rows of partial rounds into columns: the chain, the round, and the limbs of four
/// numbers.
pub fn simd_to_cuda_3_partial(packed: &Vec<Vec<Pack>>) -> (cols: Vec<BaseFieldVec>)
    requires
        are_packed(packed@, 42),
    ensures
        columns(cols@) == lane_columns(packed@, 42),
{
    unpack_columns(packed, 42)
}

proof fn lemma_lane_shape(inputs: Seq<Vec<Pack>>, width: nat)
    requires
        width > 0,
    ensures
        is_shape(lane_columns(inputs, width), width, lane_columns(inputs, width)[0].len()),
        lane_columns(inputs, width)[0].len() == 16 * inputs.len(),
{
}

fn feed_context(context: &mut PoseidonContextCudaClaimGenerator, output: &HostOutput)
    requires
        are_handed_on(*output),
        has_room(*old(context), *output),
    ensures
        fed_context(*old(context), *final(context), *output),
{
    proof {
        lemma_lane_shape(output.full_rounds@, 32);
        lemma_lane_shape(output.partial_rounds@, 42);
        lemma_lane_shape(output.checked@, 10);
    }
    let full = simd_to_cuda_full_round_chain(&output.full_rounds);
    context.poseidon_full_round_chain_cuda.add_cuda_inputs(&full);
    let partial = simd_to_cuda_3_partial(&output.partial_rounds);
    context.poseidon_3_partial_rounds_chain_cuda.add_cuda_inputs(&partial);
    context.cube_252_cuda.add_cuda_input(&packed_felt252w27_to_basefieldvec_10(&output.cubed));
    let checked = packed_felt252w27_to_basefieldvec_10(&output.checked);
    context.range_check_252_width_27_cuda.add_cuda_inputs(&checked);
}

/// The aggregator, with what the host computed for it.
pub struct PoseidonAggregatorCudaClaimGenerator {
    pub output: HostOutput,
}

impl PoseidonAggregatorCudaClaimGenerator {
    /// Returns a generator for what the host computed.
    pub fn new(output: HostOutput) -> (r: Self)
        ensures
            r.output == output,
    {
        PoseidonAggregatorCudaClaimGenerator { output }
    }

    /// Commits the trace, merges the reads of memory, hands rows on to the components of the hash
    /// if they are there, and adds the lookups into the tables of carries.
    pub fn write_trace(
        self,
        tree_builder: &mut TreeBuilder,
        poseidon_context_cuda: &mut Option<PoseidonContextCudaClaimGenerator>,
        memory_id_to_big_cuda: &mut MemoryMerges,
        range_checks: &mut RangeChecksCudaClaimGenerator,
    ) -> (r: (Claim, PoseidonAggregatorCudaInteractionClaimGenerator))
        requires
            are_evaluations(columns(self.output.trace@), self.output.log_size),
            *old(poseidon_context_cuda) matches Some(context) ==> are_handed_on(self.output)
                && has_room(context, self.output),
            old(range_checks).wf(),
            are_lists(
                self.output.rc_3_3_3_3_3@,
                old(range_checks).rc_3_3_3_3_3_trace_generator.multiplicities@.len(),
            ),
            are_lists(
                self.output.rc_4_4_4_4@,
                old(range_checks).rc_4_4_4_4_trace_generator.multiplicities@.len(),
            ),
            are_lists(
                self.output.rc_4_4@,
                old(range_checks).rc_4_4_trace_generator.multiplicities@.len(),
            ),
        ensures
            r.0.log_size == self.output.log_size,
            r.1.pending.log_size == self.output.log_size,
            groups(r.1.pending.lookup_data@) == groups(self.output.lookup_data@),
            final(tree_builder)@ == old(tree_builder)@ + committed(
                self.output.log_size,
                columns(self.output.trace@),
            ),
            final(memory_id_to_big_cuda)@ == old(memory_id_to_big_cuda)@.push(
                (self.output.memory_reads.big@, self.output.memory_reads.small@),
            ),
            *old(poseidon_context_cuda) is None ==> *final(poseidon_context_cuda) is None,
            *old(poseidon_context_cuda) matches Some(before) ==> (
            *final(poseidon_context_cuda) matches Some(after) && fed_context(
                before,
                after,
                self.output,
            )),
            final(range_checks).wf(),
            *final(range_checks) == (RangeChecksCudaClaimGenerator {
                rc_4_4_trace_generator: final(range_checks).rc_4_4_trace_generator,
                rc_4_4_4_4_trace_generator: final(range_checks).rc_4_4_4_4_trace_generator,
                rc_3_3_3_3_3_trace_generator: final(range_checks).rc_3_3_3_3_3_trace_generator,
                ..*old(range_checks)
            }),
            final(range_checks).rc_3_3_3_3_3_trace_generator.multiplicities@ == merged_all(
                old(range_checks).rc_3_3_3_3_3_trace_generator.multiplicities@,
                self.output.rc_3_3_3_3_3@,
            ),
            final(range_checks).rc_4_4_4_4_trace_generator.multiplicities@ == merged_all(
                old(range_checks).rc_4_4_4_4_trace_generator.multiplicities@,
                self.output.rc_4_4_4_4@,
            ),
            final(range_checks).rc_4_4_trace_generator.multiplicities@ == merged_all(
                old(range_checks).rc_4_4_trace_generator.multiplicities@,
                self.output.rc_4_4@,
            ),
    {
        let output = self.output;
        match poseidon_context_cuda.take() {
            Some(mut context) => {
                feed_context(&mut context, &output);
                *poseidon_context_cuda = Some(context);
            },
            None => {},
        }
        merge_all(&mut range_checks.rc_3_3_3_3_3_trace_generator, &output.rc_3_3_3_3_3);
        merge_all(&mut range_checks.rc_4_4_4_4_trace_generator, &output.rc_4_4_4_4);
        merge_all(&mut range_checks.rc_4_4_trace_generator, &output.rc_4_4);
        memory_id_to_big_cuda.merge_simd_multiplicities(output.memory_reads);
        tree_builder.extend_evals(output.log_size, output.trace);
        (
            Claim { log_size: output.log_size },
            PoseidonAggregatorCudaInteractionClaimGenerator {
                pending: PendingInteraction {
                    log_size: output.log_size,
                    lookup_data: output.lookup_data,
                },
            },
        )
    }
}

/// Writes the interaction trace that the host computes.
pub struct PoseidonAggregatorCudaInteractionClaimGenerator {
    pub pending: PendingInteraction,
}

impl PoseidonAggregatorCudaInteractionClaimGenerator {
    /// Commits the columns that the host computed and claims their sum.
    pub fn write_interaction_trace(
        self,
        tree_builder: &mut TreeBuilder,
        cols: Vec<BaseFieldVec>,
        claimed_sum: [u32; 4],
    ) -> (r: InteractionClaim)
        requires
            are_evaluations(columns(cols@), self.pending.log_size),
        ensures
            final(tree_builder)@ == old(tree_builder)@ + committed(
                self.pending.log_size,
                columns(cols@),
            ),
            r.claimed_sum == secure_of(claimed_sum@),
    {
        self.pending.write_interaction_trace(tree_builder, cols, claimed_sum)
    }
}

/// Counters from elsewhere are added list by list: each list adds its own counts.
pub proof fn law_lists_are_merged_one_by_one(
    mults: Seq<u32>,
    lists: Seq<Vec<u32>>,
    next: Vec<u32>,
    i: int,
)
    requires
        0 <= i < mults.len(),
        merged_all(mults, lists).len() == mults.len(),
        merged_all(mults, lists)[i] + next@[i] <= u32::MAX,
    ensures
        merged_all(mults, Seq::<Vec<u32>>::empty()) == mults,
        merged_all(mults, lists.push(next))[i] == merged_all(mults, lists)[i] + next@[i],
{
    assert(lists.push(next).drop_last() =~= lists);
    law_counting_adds(merged_all(mults, lists), |i: int| next@[i] as int, i);
}

/// An empty context is fed with the lanes of the packs that the host computed: rows of full rounds,
/// rows of partial rounds, numbers to cube and numbers to check, each to its own component.
pub proof fn law_context_is_fed_with_all_lanes(
    before: PoseidonContextCudaClaimGenerator,
    after: PoseidonContextCudaClaimGenerator,
    output: HostOutput,
    j: int,
    lane: int,
    f: int,
)
    requires
        fed_context(before, after, output),
        before.wf(),
        before.poseidon_full_round_chain_cuda.inputs.size <= 1,
        before.poseidon_3_partial_rounds_chain_cuda.inputs.size <= 1,
        before.range_check_252_width_27_cuda.inputs.size <= 1,
        0 <= j < output.full_rounds@.len(),
        0 <= j < output.partial_rounds@.len(),
        0 <= j < output.cubed@.len(),
        0 <= j < output.checked@.len(),
        0 <= lane < 16,
        0 <= f < 10,
    ensures
        columns(after.poseidon_full_round_chain_cuda.inputs.columns@)[f][16 * j + lane]
            == output.full_rounds@[j]@[f]@[lane],
        columns(after.poseidon_full_round_chain_cuda.inputs.columns@)[22 + f][16 * j + lane]
            == output.full_rounds@[j]@[22 + f]@[lane],
        columns(after.poseidon_3_partial_rounds_chain_cuda.inputs.columns@)[f][16 * j + lane]
            == output.partial_rounds@[j]@[f]@[lane],
        columns(after.poseidon_3_partial_rounds_chain_cuda.inputs.columns@)[32 + f][16 * j + lane]
            == output.partial_rounds@[j]@[32 + f]@[lane],
        after.cube_252_cuda@.drop_last() == before.cube_252_cuda@,
        after.cube_252_cuda@.last()[f][16 * j + lane] == output.cubed@[j]@[f]@[lane],
        columns(after.range_check_252_width_27_cuda.inputs.columns@)[f][16 * j + lane]
            == output.checked@[j]@[f]@[lane],
{
    assert(after.cube_252_cuda@.drop_last() =~= before.cube_252_cuda@);
    assert(lane_columns(output.full_rounds@, 32)[0].len() > 0);
    assert(lane_columns(output.partial_rounds@, 42)[0].len() > 0);
    assert(lane_columns(output.checked@, 10)[0].len() > 0);
}

} // verus!

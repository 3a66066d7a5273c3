//! The components of the hash: chains of partial and of full rounds, the cubes that they take, the
//! round keys that they look up, and the numbers of 252 bits that they check.

use crate::bits::{ceil_log2, lemma_padding_is_shorter, next_pow2, next_power_of_two};
use crate::column::{batches, columns, is_shape, zero_columns, BaseFieldVec};
use crate::components_cuda::poseidon_3_partial_rounds_chain_cuda::{
    law_fourth_state_is_the_last, limbs, CHECKED, CUBED, STATE_3,
};
use crate::components_cuda::poseidon_3_partial_rounds_chain_cuda;
use crate::components_cuda::poseidon_full_round_chain_cuda::{
    law_states_are_all_limbs, state, with_padding_disabled, ENABLER_COLUMN, N_CARRIES,
    N_CARRY_LOOKUPS,
};
use crate::components_cuda::poseidon_full_round_chain_cuda;
use crate::components_cuda::range_check::base::{
    all_occurrences, are_all_inputs, counted, merged_relations,
};
use crate::components_cuda::range_check::tables::{lemma_table_bits, rc_3_3_3_3_3_ranges};
use crate::components_cuda::range_check_252_width_27_cuda::are_counts;
use crate::components_cuda::range_check_252_width_27_cuda;
use crate::inputs::{chunk_columns, chunks, fed_rows, ComponentInputs, Pack};
use crate::launch::{
    groups, secure_of, Claim as ComponentClaim, InteractionClaim as ComponentInteractionClaim,
    InteractionOutcome, PendingInteraction,
};
use crate::range_checks_cuda::RangeChecksCudaClaimGenerator;
use crate::tree_builder::{are_evaluations, committed, Committed, TreeBuilder};
use vstd::arithmetic::power2::pow2;
use vstd::prelude::*;

verus! {

/// The claims of the five components.
#[derive(Clone, Copy, Debug)]
pub struct Claim {
    pub poseidon_3_partial_rounds_chain: ComponentClaim,
    pub poseidon_full_round_chain: ComponentClaim,
    pub cube_252: ComponentClaim,
    pub poseidon_round_keys: ComponentClaim,
    pub range_check_252_width_27: ComponentClaim,
}

/// The claims, if there were hashes.
#[derive(Clone, Copy, Debug)]
pub struct PoseidonContextClaim {
    pub claim: Option<Claim>,
}

/// The interaction claims of the five components.
#[derive(Clone, Copy, Debug)]
pub struct InteractionClaim {
    pub poseidon_3_partial_rounds_chain: ComponentInteractionClaim,
    pub poseidon_full_round_chain: ComponentInteractionClaim,
    pub cube_252: ComponentInteractionClaim,
    pub poseidon_round_keys: ComponentInteractionClaim,
    pub range_check_252_width_27: ComponentInteractionClaim,
}

/// The interaction claims, if there were hashes.
#[derive(Clone, Copy, Debug)]
pub struct PoseidonContextInteractionClaim {
    pub claim: Option<InteractionClaim>,
}

/// The number of packs that hold `n` values.
pub open spec fn n_packs(n: nat) -> nat {
    (n + 15) / 16
}

/// Pack `p` of the values; after the last value the first one stands in.
pub open spec fn pack_of(values: Seq<u32>, p: int) -> Seq<u32> {
    Seq::new(
        16,
        |lane: int|
            if 16 * p + lane < values.len() {
                values[16 * p + lane]
            } else {
                values[0]
            },
    )
}

/// The values in packs, padded to a power of two of packs by the first one.
pub open spec fn packs_of(values: Seq<u32>) -> Seq<Seq<u32>> {
    Seq::new(
        next_pow2(n_packs(values.len())),
        |p: int|
            if p < n_packs(values.len()) {
                pack_of(values, p)
            } else {
                pack_of(values, 0)
            },
    )
}

/// The contents of packs.
pub open spec fn packs(ps: Seq<Pack>) -> Seq<Seq<u32>> {
    Seq::new(ps.len(), |i: int| ps[i]@)
}

/// Every value is in a pack, and no pack holds anything but values.
pub proof fn law_packs_hold_the_values(values: Seq<u32>, i: int)
    requires
        0 <= i < values.len(),
    ensures
        i / 16 < packs_of(values).len(),
        packs_of(values)[i / 16][i % 16] == values[i],
        forall|p: int, lane: int|
            0 <= p < packs_of(values).len() && 0 <= lane < 16 ==> values.contains(
                #[trigger] packs_of(values)[p][lane],
            ),
{
    lemma_padding_is_shorter(n_packs(values.len()));
    assert(values[0] == values[0]);
    assert forall|p: int, lane: int|
        0 <= p < packs_of(values).len() && 0 <= lane < 16 implies values.contains(
        #[trigger] packs_of(values)[p][lane],
    ) by {
        let q = if p < n_packs(values.len()) {
            p
        } else {
            0
        };
        assert(packs_of(values)[p] == pack_of(values, q));
        if 16 * q + lane < values.len() {
            assert(values[16 * q + lane] == packs_of(values)[p][lane]);
        } else {
            assert(values[0] == packs_of(values)[p][lane]);
        }
    }
}

fn make_pack(values: &Vec<u32>, p: usize) -> (r: Pack)
    requires
        values@.len() > 0,
        16 * p < values@.len(),
    ensures
        r@ == pack_of(values@, p as int),
{
    let n = values.len();
    let mut r: Pack = [0; 16];
    let mut lane: usize = 0;
    while lane < 16
        invariant
            lane <= 16,
            n == values@.len() > 0,
            16 * p < n,
            forall|l: int| 0 <= l < lane ==> #[trigger] r@[l] == pack_of(values@, p as int)[l],
        decreases 16 - lane,
    {
        let start = 16 * p;
        let value = if lane < n - start {
            values[start + lane]
        } else {
            values[0]
        };
        r[lane] = value;
        lane = lane + 1;
    }
    assert(r@ =~= pack_of(values@, p as int));
    r
}

/// Packs the values, and pads the packs to a power of two by the first one.
pub fn pack_values(values: &Vec<u32>) -> (r: Vec<Pack>)
    requires
        0 < values@.len() <= 0x8000_0000,
    ensures
        packs(r@) == packs_of(values@),
{
    let n = (values.len() - 1) / 16 + 1;
    assert(n == n_packs(values@.len()));
    let padded = next_power_of_two(n);
    proof {
        lemma_padding_is_shorter(n as nat);
    }
    let mut r: Vec<Pack> = Vec::new();
    let mut p: usize = 0;
    while p < padded
        invariant
            0 < values@.len() <= 0x8000_0000,
            n == n_packs(values@.len()),
            p <= padded,
            padded == next_pow2(n as nat),
            r@.len() == p,
            forall|q: int| 0 <= q < p ==> (#[trigger] r@[q])@ == packs_of(values@)[q],
        decreases padded - p,
    {
        let pack = if p < n {
            make_pack(values, p)
        } else {
            make_pack(values, 0)
        };
        r.push(pack);
        p = p + 1;
    }
    assert(packs(r@) =~= packs_of(values@));
    r
}

/// Groups the thirty columns of round keys as the trace kernels read them: three times ten.
pub fn round_keys_table(cols: &Vec<BaseFieldVec>) -> (table: Vec<Vec<BaseFieldVec>>)
    requires
        cols@.len() == 30,
    ensures
        batches(table@) == chunks(columns(cols@), 10, 3),
{
    chunk_columns(cols, 10, 3)
}

/// What the five components were fed with.
pub struct PoseidonContextCudaClaimGenerator {
    pub poseidon_full_round_chain_cuda: poseidon_full_round_chain_cuda::CudaClaimGenerator,
    pub poseidon_3_partial_rounds_chain_cuda:
        poseidon_3_partial_rounds_chain_cuda::CudaClaimGenerator,
    pub cube_252_cuda: ComponentInputs,
    pub range_check_252_width_27_cuda: range_check_252_width_27_cuda::CudaClaimGenerator,
}

/// What the trace kernels of the two chains wrote.
pub struct ChainOutputs {
    pub partial_trace: Vec<BaseFieldVec>,
    pub rc_4_4_counts: Vec<u32>,
    pub rc_4_4_4_4_counts: Vec<u32>,
    pub full_trace: Vec<BaseFieldVec>,
    pub carries: Vec<BaseFieldVec>,
}

impl PoseidonContextCudaClaimGenerator {
    /// The chains and the checked numbers have the columns that they should have.
    pub open spec fn wf(self) -> bool {
        &&& self.poseidon_full_round_chain_cuda.wf()
        &&& self.poseidon_3_partial_rounds_chain_cuda.wf()
        &&& self.range_check_252_width_27_cuda.wf()
    }

    /// The logarithm of the size of the trace of full rounds.
    pub open spec fn full_log_size(self) -> nat {
        ceil_log2(self.poseidon_full_round_chain_cuda.inputs.size as nat)
    }

    /// The logarithm of the size of the trace of partial rounds.
    pub open spec fn partial_log_size(self) -> nat {
        ceil_log2(self.poseidon_3_partial_rounds_chain_cuda.inputs.size as nat)
    }

    /// Both chains have rows, and the outputs of their kernels fit them.
    pub open spec fn accepts(self, outputs: ChainOutputs) -> bool {
        &&& self.wf()
        &&& self.poseidon_full_round_chain_cuda.fits()
        &&& self.poseidon_3_partial_rounds_chain_cuda.fits()
        &&& outputs.partial_trace@.len() >= 156
        &&& is_shape(
            columns(outputs.partial_trace@),
            outputs.partial_trace@.len(),
            pow2(self.partial_log_size()),
        )
        &&& outputs.rc_4_4_counts@.len() == pow2(8)
        &&& outputs.rc_4_4_4_4_counts@.len() == pow2(16)
        &&& self.range_check_252_width_27_cuda.inputs.size + 3 * pow2(self.partial_log_size())
            <= u32::MAX
        &&& outputs.full_trace@.len() > ENABLER_COLUMN
        &&& is_shape(
            columns(outputs.full_trace@),
            outputs.full_trace@.len(),
            pow2(self.full_log_size()),
        )
        &&& outputs.carries@.len() == N_CARRIES * N_CARRY_LOOKUPS
        &&& are_all_inputs(
            rc_3_3_3_3_3_ranges(),
            chunks(columns(outputs.carries@), N_CARRIES as nat, N_CARRY_LOOKUPS as nat),
        )
    }

    /// Returns a generator without hashes.
    pub fn new() -> (r: Self)
        ensures
            r.wf(),
            columns(r.poseidon_full_round_chain_cuda.inputs.columns@) == zero_columns(32, 1),
            columns(r.poseidon_3_partial_rounds_chain_cuda.inputs.columns@) == zero_columns(42, 1),
            r.cube_252_cuda@.len() == 0,
            columns(r.range_check_252_width_27_cuda.inputs.columns@) == zero_columns(10, 1),
    {
        PoseidonContextCudaClaimGenerator {
            poseidon_full_round_chain_cuda:
                poseidon_full_round_chain_cuda::CudaClaimGenerator::new(),
            poseidon_3_partial_rounds_chain_cuda:
                poseidon_3_partial_rounds_chain_cuda::CudaClaimGenerator::new(),
            cube_252_cuda: ComponentInputs::new(),
            range_check_252_width_27_cuda: range_check_252_width_27_cuda::CudaClaimGenerator::new(),
        }
    }

    /// Tells whether neither chain has more than the placeholder.
    pub fn is_empty(&self) -> (r: bool)
        ensures
            r == self.has_no_rounds(),
    {
        self.poseidon_full_round_chain_cuda.is_empty()
            && self.poseidon_3_partial_rounds_chain_cuda.is_empty()
    }

    /// Returns the rounds that the table of round keys is fed with, in packs: those of the full
    /// rounds, followed by those of the partial rounds.
    pub fn round_key_inputs(&self) -> (r: Vec<Pack>)
        requires
            self.wf(),
            0 < self.poseidon_full_round_chain_cuda.inputs.size <= 0x8000_0000,
            0 < self.poseidon_3_partial_rounds_chain_cuda.inputs.size <= 0x8000_0000,
        ensures
            packs(r@) == self.round_packs(),
    {
        let full = pack_values(&self.poseidon_full_round_chain_cuda.round_numbers());
        let partial = pack_values(&self.poseidon_3_partial_rounds_chain_cuda.round_numbers());
        let ghost first = packs(full@);
        let mut r = full;
        let mut i: usize = 0;
        assert(packs(r@) =~= first + packs(partial@).take(0));
        while i < partial.len()
            invariant
                i <= partial@.len(),
                packs(r@) == first + packs(partial@).take(i as int),
            decreases partial.len() - i,
        {
            let ghost before = packs(r@);
            r.push(partial[i]);
            i = i + 1;
            assert(packs(r@) =~= before.push(packs(partial@)[i - 1]));
            assert(packs(r@) =~= first + packs(partial@).take(i as int));
        }
        assert(packs(partial@).take(i as int) =~= packs(partial@));
        r
    }

    /// The chains are committed, partial rounds first, and have fed the other components.
    pub open spec fn wrote_chains(
        self,
        outputs: ChainOutputs,
        chains: ChainsWritten,
        committed_before: Seq<Committed>,
        committed_after: Seq<Committed>,
        before: RangeChecksCudaClaimGenerator,
        after: RangeChecksCudaClaimGenerator,
    ) -> bool {
        &&& chains.poseidon_3_partial_rounds_chain.log_size == self.partial_log_size()
        &&& chains.poseidon_full_round_chain.log_size == self.full_log_size()
        &&& chains.poseidon_3_partial_rounds_chain_interaction_gen.wf()
        &&& chains.poseidon_3_partial_rounds_chain_interaction_gen.log_size
            == self.partial_log_size()
        &&& columns(chains.poseidon_3_partial_rounds_chain_interaction_gen.trace_data@) == columns(
            outputs.partial_trace@,
        )
        &&& chains.poseidon_full_round_chain_interaction_gen.wf()
        &&& chains.poseidon_full_round_chain_interaction_gen.log_size == self.full_log_size()
        &&& columns(chains.poseidon_full_round_chain_interaction_gen.trace_data@)
            == with_padding_disabled(
            columns(outputs.full_trace@),
            self.poseidon_full_round_chain_cuda.inputs.size as nat,
        )
        &&& committed_after == committed_before + committed(
            self.partial_log_size() as u32,
            columns(outputs.partial_trace@),
        ) + committed(
            self.full_log_size() as u32,
            columns(chains.poseidon_full_round_chain_interaction_gen.trace_data@),
        )
        &&& chains.cube_252@ == self.cube_252_cuda@ + seq![
            limbs(self.poseidon_3_partial_rounds_chain_cuda.padded(), STATE_3 as int),
            limbs(columns(outputs.partial_trace@), CUBED@[0] as int),
            limbs(columns(outputs.partial_trace@), CUBED@[1] as int),
            state(self.poseidon_full_round_chain_cuda.padded(), 0),
            state(self.poseidon_full_round_chain_cuda.padded(), 1),
            state(self.poseidon_full_round_chain_cuda.padded(), 2),
        ]
        &&& chains.range_check_252_width_27.wf()
        &&& columns(chains.range_check_252_width_27.inputs.columns@) == fed_rows(
            fed_rows(
                fed_rows(
                    columns(self.range_check_252_width_27_cuda.inputs.columns@),
                    limbs(columns(outputs.partial_trace@), CHECKED@[0] as int),
                ),
                limbs(columns(outputs.partial_trace@), CHECKED@[1] as int),
            ),
            limbs(columns(outputs.partial_trace@), CHECKED@[2] as int),
        )
        &&& after.wf()
        &&& after == (RangeChecksCudaClaimGenerator {
            rc_4_4_trace_generator: after.rc_4_4_trace_generator,
            rc_4_4_4_4_trace_generator: after.rc_4_4_4_4_trace_generator,
            rc_3_3_3_3_3_trace_generator: after.rc_3_3_3_3_3_trace_generator,
            ..before
        })
        &&& after.rc_4_4_trace_generator.multiplicities@ == counted(
            before.rc_4_4_trace_generator.multiplicities@,
            |i: int| outputs.rc_4_4_counts@[i] as int,
        )
        &&& after.rc_4_4_4_4_trace_generator.multiplicities@ == counted(
            before.rc_4_4_4_4_trace_generator.multiplicities@,
            |i: int| outputs.rc_4_4_4_4_counts@[i] as int,
        )
        &&& after.rc_3_3_3_3_3_trace_generator.multiplicities@ == counted(
            before.rc_3_3_3_3_3_trace_generator.multiplicities@,
            |i: int|
                all_occurrences(
                    rc_3_3_3_3_3_ranges(),
                    chunks(
                        columns(outputs.carries@),
                        N_CARRIES as nat,
                        N_CARRY_LOOKUPS as nat,
                    ),
                    i,
                ) as int,
        )
    }

    /// The rounds that the table of round keys is fed with, in packs.
    pub open spec fn round_packs(self) -> Seq<Seq<u32>> {
        packs_of(columns(self.poseidon_full_round_chain_cuda.inputs.columns@)[1]) + packs_of(
            columns(self.poseidon_3_partial_rounds_chain_cuda.inputs.columns@)[1],
        )
    }

    /// Neither chain has more than the placeholder.
    pub open spec fn has_no_rounds(self) -> bool {
        &&& self.poseidon_full_round_chain_cuda.inputs.size <= 1
        &&& self.poseidon_3_partial_rounds_chain_cuda.inputs.size <= 1
    }

    fn write_chains(
        self,
        outputs: ChainOutputs,
        tree_builder: &mut TreeBuilder,
        range_checks: &mut RangeChecksCudaClaimGenerator,
    ) -> (r: ChainsWritten)
        requires
            self.accepts(outputs),
            old(range_checks).wf(),
        ensures
            self.wrote_chains(
                outputs,
                r,
                old(tree_builder)@,
                final(tree_builder)@,
                *old(range_checks),
                *final(range_checks),
            ),
    {
        proof {
            lemma_table_bits();
        }
        let ghost fed_before = self.cube_252_cuda@;
        let ghost partial_padded = self.poseidon_3_partial_rounds_chain_cuda.padded();
        let ghost full_padded = self.poseidon_full_round_chain_cuda.padded();
        let mut cube_252 = self.cube_252_cuda;
        let mut range_check_252_width_27 = self.range_check_252_width_27_cuda;
        let (partial_claim, partial_gen) = self.poseidon_3_partial_rounds_chain_cuda.write_trace(
            outputs.partial_trace,
            &outputs.rc_4_4_counts,
            &outputs.rc_4_4_4_4_counts,
            tree_builder,
            &mut cube_252,
            &mut range_checks.rc_4_4_trace_generator,
            &mut range_checks.rc_4_4_4_4_trace_generator,
            &mut range_check_252_width_27,
        );
        let (full_claim, full_gen) = self.poseidon_full_round_chain_cuda.write_trace(
            outputs.full_trace,
            &outputs.carries,
            tree_builder,
            &mut cube_252,
            &mut range_checks.rc_3_3_3_3_3_trace_generator,
        );
        assert(cube_252@ =~= fed_before + seq![
            limbs(partial_padded, STATE_3 as int),
            limbs(columns(outputs.partial_trace@), CUBED@[0] as int),
            limbs(columns(outputs.partial_trace@), CUBED@[1] as int),
            state(full_padded, 0),
            state(full_padded, 1),
            state(full_padded, 2),
        ]);
        ChainsWritten {
            poseidon_3_partial_rounds_chain: partial_claim,
            poseidon_3_partial_rounds_chain_interaction_gen: partial_gen,
            poseidon_full_round_chain: full_claim,
            poseidon_full_round_chain_interaction_gen: full_gen,
            cube_252,
            range_check_252_width_27,
        }
    }

    /// Begins the traces. Without hashes there is nothing to write and nothing is claimed.
    /// Otherwise the chains are committed, and the rounds that they looked up are handed on.
    pub fn write_trace(
        self,
        outputs: Option<ChainOutputs>,
        tree_builder: &mut TreeBuilder,
        range_checks: &mut RangeChecksCudaClaimGenerator,
    ) -> (r: PoseidonContextProgress)
        requires
            !self.has_no_rounds() ==> (outputs matches Some(o) && self.accepts(o)),
            old(range_checks).wf(),
        ensures
            self.has_no_rounds() ==> (r matches PoseidonContextProgress::Finished(claim, pending)
                && {
                &&& claim.claim is None
                &&& pending.gen is None
                &&& final(tree_builder)@ == old(tree_builder)@
                &&& *final(range_checks) == *old(range_checks)
            }),
            !self.has_no_rounds() ==> (outputs matches Some(o)
                && r matches PoseidonContextProgress::ChainsWritten(rounds, chains) && {
                &&& packs(rounds@) == self.round_packs()
                &&& self.wrote_chains(
                    o,
                    chains,
                    old(tree_builder)@,
                    final(tree_builder)@,
                    *old(range_checks),
                    *final(range_checks),
                )
            }),
    {
        if self.is_empty() {
            return PoseidonContextProgress::Finished(
                PoseidonContextClaim { claim: None },
                PoseidonContextCudaInteractionClaimGenerator::new_empty(),
            );
        }
        let rounds = self.round_key_inputs();
        let chains = self.write_chains(outputs.unwrap(), tree_builder, range_checks);
        PoseidonContextProgress::ChainsWritten(rounds, chains)
    }
}

/// How far the traces are written.
pub enum PoseidonContextProgress {
    /// There were no hashes.
    Finished(PoseidonContextClaim, PoseidonContextCudaInteractionClaimGenerator),
    /// The chains are written, and looked up the rounds in the packs.
    ChainsWritten(Vec<Pack>, ChainsWritten),
}

/// The chains are committed; the components that they feed are still to come.
pub struct ChainsWritten {
    pub poseidon_3_partial_rounds_chain: ComponentClaim,
    pub poseidon_3_partial_rounds_chain_interaction_gen:
        poseidon_3_partial_rounds_chain_cuda::CudaInteractionClaimGenerator,
    pub poseidon_full_round_chain: ComponentClaim,
    pub poseidon_full_round_chain_interaction_gen:
        poseidon_full_round_chain_cuda::CudaInteractionClaimGenerator,
    pub cube_252: ComponentInputs,
    pub range_check_252_width_27: range_check_252_width_27_cuda::CudaClaimGenerator,
}

/// What the trace kernels of the other components wrote.
pub struct FedOutputs {
    pub cube_252_log_size: u32,
    pub cube_252_trace: Vec<BaseFieldVec>,
    pub cube_252_lookup_data: Vec<Vec<Vec<BaseFieldVec>>>,
    pub cube_252_rc_9_9_counts: Vec<Vec<u32>>,
    pub cube_252_rc_20_counts: Vec<Vec<u32>>,
    pub round_keys_log_size: u32,
    pub round_keys_trace: Vec<BaseFieldVec>,
    pub round_keys_lookup_data: Vec<Vec<Vec<BaseFieldVec>>>,
    pub rc_252_trace: Vec<BaseFieldVec>,
    pub rc_252_rc_18_counts: Vec<Vec<u32>>,
    pub rc_252_rc_9_9_counts: Vec<Vec<u32>>,
}

impl ChainsWritten {
    /// The outputs fit what the components were fed with.
    pub open spec fn accepts(self, outputs: FedOutputs) -> bool {
        &&& are_evaluations(columns(outputs.cube_252_trace@), outputs.cube_252_log_size)
        &&& are_counts(outputs.cube_252_rc_9_9_counts@, 8, pow2(18))
        &&& are_counts(outputs.cube_252_rc_20_counts@, 8, pow2(20))
        &&& are_evaluations(columns(outputs.round_keys_trace@), outputs.round_keys_log_size)
        &&& self.range_check_252_width_27.fits()
        &&& is_shape(
            columns(outputs.rc_252_trace@),
            outputs.rc_252_trace@.len(),
            pow2(ceil_log2(self.range_check_252_width_27.inputs.size as nat)),
        )
        &&& are_counts(outputs.rc_252_rc_18_counts@, 2, pow2(18))
        &&& are_counts(outputs.rc_252_rc_9_9_counts@, 5, pow2(18))
    }

    /// Commits the traces of the cubes, of the round keys and of the checked numbers, in this
    /// order, and adds the lookups that their kernels counted.
    pub fn write_trace(
        self,
        outputs: FedOutputs,
        tree_builder: &mut TreeBuilder,
        range_checks: &mut RangeChecksCudaClaimGenerator,
    ) -> (r: (PoseidonContextClaim, PoseidonContextCudaInteractionClaimGenerator))
        requires
            self.accepts(outputs),
            self.poseidon_3_partial_rounds_chain_interaction_gen.wf(),
            self.poseidon_full_round_chain_interaction_gen.wf(),
            old(range_checks).wf(),
        ensures
            r.0.claim matches Some(claim) && {
                &&& claim.poseidon_3_partial_rounds_chain == self.poseidon_3_partial_rounds_chain
                &&& claim.poseidon_full_round_chain == self.poseidon_full_round_chain
                &&& claim.cube_252.log_size == outputs.cube_252_log_size
                &&& claim.poseidon_round_keys.log_size == outputs.round_keys_log_size
                &&& claim.range_check_252_width_27.log_size == ceil_log2(
                    self.range_check_252_width_27.inputs.size as nat,
                )
            },
            r.1.gen matches Some(gen) && {
                &&& gen.poseidon_3_partial_rounds_chain_interaction_gen
                    == self.poseidon_3_partial_rounds_chain_interaction_gen
                &&& gen.poseidon_full_round_chain_interaction_gen
                    == self.poseidon_full_round_chain_interaction_gen
                &&& gen.cube_252_interaction_gen.log_size == outputs.cube_252_log_size
                &&& groups(gen.cube_252_interaction_gen.lookup_data@) == groups(
                    outputs.cube_252_lookup_data@,
                )
                &&& gen.poseidon_round_keys_interaction_gen.log_size
                    == outputs.round_keys_log_size
                &&& groups(gen.poseidon_round_keys_interaction_gen.lookup_data@) == groups(
                    outputs.round_keys_lookup_data@,
                )
                &&& gen.range_check_252_width_27_interaction_gen.wf()
                &&& gen.range_check_252_width_27_interaction_gen.log_size == ceil_log2(
                    self.range_check_252_width_27.inputs.size as nat,
                )
                &&& columns(gen.range_check_252_width_27_interaction_gen.trace_data@) == columns(
                    outputs.rc_252_trace@,
                )
            },
            final(tree_builder)@ == old(tree_builder)@ + committed(
                outputs.cube_252_log_size,
                columns(outputs.cube_252_trace@),
            ) + committed(
                outputs.round_keys_log_size,
                columns(outputs.round_keys_trace@),
            ) + committed(
                ceil_log2(self.range_check_252_width_27.inputs.size as nat) as u32,
                columns(outputs.rc_252_trace@),
            ),
            final(range_checks).wf(),
            *final(range_checks) == (RangeChecksCudaClaimGenerator {
                rc_18_trace_generator: final(range_checks).rc_18_trace_generator,
                rc_20_trace_generator: final(range_checks).rc_20_trace_generator,
                rc_9_9_trace_generator: final(range_checks).rc_9_9_trace_generator,
                ..*old(range_checks)
            }),
            final(range_checks).rc_18_trace_generator.counters() == merged_relations(
                old(range_checks).rc_18_trace_generator.counters(),
                outputs.rc_252_rc_18_counts@,
            ),
            final(range_checks).rc_20_trace_generator.counters() == merged_relations(
                old(range_checks).rc_20_trace_generator.counters(),
                outputs.cube_252_rc_20_counts@,
            ),
            columns(final(range_checks).rc_9_9_trace_generator.multiplicities@)
                == merged_relations(
                merged_relations(
                    columns(old(range_checks).rc_9_9_trace_generator.multiplicities@),
                    outputs.cube_252_rc_9_9_counts@,
                ),
                outputs.rc_252_rc_9_9_counts@,
            ),
    {
        proof {
            lemma_table_bits();
            crate::components_cuda::range_check::rc_20::lemma_total_bits();
        }
        range_checks.rc_9_9_trace_generator.merge_first(&outputs.cube_252_rc_9_9_counts);
        range_checks.rc_20_trace_generator.0.merge_first(&outputs.cube_252_rc_20_counts);
        tree_builder.extend_evals(outputs.cube_252_log_size, outputs.cube_252_trace);
        tree_builder.extend_evals(outputs.round_keys_log_size, outputs.round_keys_trace);
        let (rc_252_claim, rc_252_gen) = self.range_check_252_width_27.write_trace(
            outputs.rc_252_trace,
            &outputs.rc_252_rc_18_counts,
            &outputs.rc_252_rc_9_9_counts,
            tree_builder,
            &mut range_checks.rc_18_trace_generator,
            &mut range_checks.rc_9_9_trace_generator,
        );
        let claim = Claim {
            poseidon_3_partial_rounds_chain: self.poseidon_3_partial_rounds_chain,
            poseidon_full_round_chain: self.poseidon_full_round_chain,
            cube_252: ComponentClaim { log_size: outputs.cube_252_log_size },
            poseidon_round_keys: ComponentClaim { log_size: outputs.round_keys_log_size },
            range_check_252_width_27: rc_252_claim,
        };
        let gen = InteractionClaimGenerator {
            poseidon_3_partial_rounds_chain_interaction_gen:
                self.poseidon_3_partial_rounds_chain_interaction_gen,
            poseidon_full_round_chain_interaction_gen:
                self.poseidon_full_round_chain_interaction_gen,
            cube_252_interaction_gen: PendingInteraction {
                log_size: outputs.cube_252_log_size,
                lookup_data: outputs.cube_252_lookup_data,
            },
            poseidon_round_keys_interaction_gen: PendingInteraction {
                log_size: outputs.round_keys_log_size,
                lookup_data: outputs.round_keys_lookup_data,
            },
            range_check_252_width_27_interaction_gen: rc_252_gen,
        };
        (
            PoseidonContextClaim { claim: Some(claim) },
            PoseidonContextCudaInteractionClaimGenerator { gen: Some(gen) },
        )
    }
}

/// Writes the interaction traces of the five components, if there were hashes.
pub struct PoseidonContextCudaInteractionClaimGenerator {
    pub gen: Option<InteractionClaimGenerator>,
}

/// Writes the interaction traces of the five components.
pub struct InteractionClaimGenerator {
    pub poseidon_3_partial_rounds_chain_interaction_gen:
        poseidon_3_partial_rounds_chain_cuda::CudaInteractionClaimGenerator,
    pub poseidon_full_round_chain_interaction_gen:
        poseidon_full_round_chain_cuda::CudaInteractionClaimGenerator,
    pub cube_252_interaction_gen: PendingInteraction,
    pub poseidon_round_keys_interaction_gen: PendingInteraction,
    pub range_check_252_width_27_interaction_gen:
        range_check_252_width_27_cuda::CudaInteractionClaimGenerator,
}

/// What the interaction kernels of the five components wrote.
pub struct InteractionOutcomes {
    pub poseidon_3_partial_rounds_chain: InteractionOutcome,
    pub poseidon_full_round_chain: InteractionOutcome,
    pub cube_252: InteractionOutcome,
    pub poseidon_round_keys: InteractionOutcome,
    pub range_check_252_width_27: InteractionOutcome,
}

impl InteractionClaimGenerator {
    /// The outcomes of the kernels fit the traces.
    pub open spec fn accepts(self, outcomes: InteractionOutcomes) -> bool {
        &&& self.poseidon_3_partial_rounds_chain_interaction_gen.wf()
        &&& is_shape(
            columns(outcomes.poseidon_3_partial_rounds_chain.columns@),
            36,
            pow2(self.poseidon_3_partial_rounds_chain_interaction_gen.log_size as nat),
        )
        &&& self.poseidon_full_round_chain_interaction_gen.wf()
        &&& is_shape(
            columns(outcomes.poseidon_full_round_chain.columns@),
            24,
            pow2(self.poseidon_full_round_chain_interaction_gen.log_size as nat),
        )
        &&& are_evaluations(
            columns(outcomes.cube_252.columns@),
            self.cube_252_interaction_gen.log_size,
        )
        &&& are_evaluations(
            columns(outcomes.poseidon_round_keys.columns@),
            self.poseidon_round_keys_interaction_gen.log_size,
        )
        &&& self.range_check_252_width_27_interaction_gen.wf()
        &&& is_shape(
            columns(outcomes.range_check_252_width_27.columns@),
            32,
            pow2(self.range_check_252_width_27_interaction_gen.log_size as nat),
        )
    }

    /// Commits the interaction traces, in the order in which the traces were committed.
    pub fn write_interaction_trace(
        self,
        tree_builder: &mut TreeBuilder,
        outcomes: InteractionOutcomes,
    ) -> (r: InteractionClaim)
        requires
            self.accepts(outcomes),
        ensures
            r.poseidon_3_partial_rounds_chain.claimed_sum == secure_of(
                outcomes.poseidon_3_partial_rounds_chain.claimed_sum@,
            ),
            r.poseidon_full_round_chain.claimed_sum == secure_of(
                outcomes.poseidon_full_round_chain.claimed_sum@,
            ),
            r.cube_252.claimed_sum == secure_of(outcomes.cube_252.claimed_sum@),
            r.poseidon_round_keys.claimed_sum == secure_of(
                outcomes.poseidon_round_keys.claimed_sum@,
            ),
            r.range_check_252_width_27.claimed_sum == secure_of(
                outcomes.range_check_252_width_27.claimed_sum@,
            ),
            final(tree_builder)@ == old(tree_builder)@ + committed(
                self.poseidon_3_partial_rounds_chain_interaction_gen.log_size,
                columns(outcomes.poseidon_3_partial_rounds_chain.columns@),
            ) + committed(
                self.poseidon_full_round_chain_interaction_gen.log_size,
                columns(outcomes.poseidon_full_round_chain.columns@),
            ) + committed(
                self.cube_252_interaction_gen.log_size,
                columns(outcomes.cube_252.columns@),
            ) + committed(
                self.poseidon_round_keys_interaction_gen.log_size,
                columns(outcomes.poseidon_round_keys.columns@),
            ) + committed(
                self.range_check_252_width_27_interaction_gen.log_size,
                columns(outcomes.range_check_252_width_27.columns@),
            ),
    {
        let poseidon_3_partial_rounds_chain =
            self.poseidon_3_partial_rounds_chain_interaction_gen.write_interaction_trace(
            tree_builder,
            outcomes.poseidon_3_partial_rounds_chain.columns,
            outcomes.poseidon_3_partial_rounds_chain.claimed_sum,
        );
        let poseidon_full_round_chain =
            self.poseidon_full_round_chain_interaction_gen.write_interaction_trace(
            tree_builder,
            outcomes.poseidon_full_round_chain.columns,
            outcomes.poseidon_full_round_chain.claimed_sum,
        );
        let cube_252 = self.cube_252_interaction_gen.write_interaction_trace(
            tree_builder,
            outcomes.cube_252.columns,
            outcomes.cube_252.claimed_sum,
        );
        let poseidon_round_keys = self.poseidon_round_keys_interaction_gen.write_interaction_trace(
            tree_builder,
            outcomes.poseidon_round_keys.columns,
            outcomes.poseidon_round_keys.claimed_sum,
        );
        let range_check_252_width_27 =
            self.range_check_252_width_27_interaction_gen.write_interaction_trace(
            tree_builder,
            outcomes.range_check_252_width_27.columns,
            outcomes.range_check_252_width_27.claimed_sum,
        );
        InteractionClaim {
            poseidon_3_partial_rounds_chain,
            poseidon_full_round_chain,
            cube_252,
            poseidon_round_keys,
            range_check_252_width_27,
        }
    }
}

impl PoseidonContextCudaInteractionClaimGenerator {
    /// Returns the generator for a proof without hashes.
    pub fn new_empty() -> (r: Self)
        ensures
            r.gen is None,
    {
        PoseidonContextCudaInteractionClaimGenerator { gen: None }
    }

    /// Commits the interaction traces, if there were hashes.
    pub fn write_interaction_trace(
        self,
        tree_builder: &mut TreeBuilder,
        outcomes: Option<InteractionOutcomes>,
    ) -> (r: PoseidonContextInteractionClaim)
        requires
            self.gen matches Some(gen) ==> (outcomes matches Some(o) && gen.accepts(o)),
        ensures
            self.gen is None ==> r.claim is None && final(tree_builder)@ == old(tree_builder)@,
            self.gen matches Some(gen) ==> (outcomes matches Some(o) && r.claim matches Some(
                claim,
            ) && {
                &&& claim.poseidon_3_partial_rounds_chain.claimed_sum == secure_of(
                    o.poseidon_3_partial_rounds_chain.claimed_sum@,
                )
                &&& claim.poseidon_full_round_chain.claimed_sum == secure_of(
                    o.poseidon_full_round_chain.claimed_sum@,
                )
                &&& claim.cube_252.claimed_sum == secure_of(o.cube_252.claimed_sum@)
                &&& claim.poseidon_round_keys.claimed_sum == secure_of(
                    o.poseidon_round_keys.claimed_sum@,
                )
                &&& claim.range_check_252_width_27.claimed_sum == secure_of(
                    o.range_check_252_width_27.claimed_sum@,
                )
                &&& final(tree_builder)@ == old(tree_builder)@ + committed(
                    gen.poseidon_3_partial_rounds_chain_interaction_gen.log_size,
                    columns(o.poseidon_3_partial_rounds_chain.columns@),
                ) + committed(
                    gen.poseidon_full_round_chain_interaction_gen.log_size,
                    columns(o.poseidon_full_round_chain.columns@),
                ) + committed(
                    gen.cube_252_interaction_gen.log_size,
                    columns(o.cube_252.columns@),
                ) + committed(
                    gen.poseidon_round_keys_interaction_gen.log_size,
                    columns(o.poseidon_round_keys.columns@),
                ) + committed(
                    gen.range_check_252_width_27_interaction_gen.log_size,
                    columns(o.range_check_252_width_27.columns@),
                )
            }),
    {
        match self.gen {
            Some(gen) => PoseidonContextInteractionClaim {
                claim: Some(gen.write_interaction_trace(tree_builder, outcomes.unwrap())),
            },
            None => PoseidonContextInteractionClaim { claim: None },
        }
    }
}

/// The packs hold the values in order and nothing but the first value behind them: the place behind
/// the last value of the last pack that holds any, and every further pack begins like the first
/// one.
pub proof fn law_packs_are_padded_by_the_first(values: Seq<u32>, p: int, lane: int)
    requires
        values.len() > 0,
        0 <= p < packs_of(values).len(),
        0 <= lane < 16,
    ensures
        packs_of(values)[p].len() == 16,
        16 * p + lane < values.len() ==> packs_of(values)[p][lane] == values[16 * p + lane],
        16 * p < values.len() <= 16 * p + lane ==> packs_of(values)[p][lane] == values[0],
        values.len() <= 16 * p ==> packs_of(values)[p] == packs_of(values)[0],
        16 * packs_of(values).len() >= values.len(),
{
    lemma_padding_is_shorter(n_packs(values.len()));
    vstd::arithmetic::power2::lemma_pow2_pos(crate::bits::ceil_log2(n_packs(values.len())));
}

/// What is handed to the cubes, in terms of the chains' inputs and trace.
spec fn handed_to_cubes(
    context: PoseidonContextCudaClaimGenerator,
    trace: Seq<Seq<u32>>,
) -> Seq<Seq<Seq<u32>>> {
    seq![
        limbs(context.poseidon_3_partial_rounds_chain_cuda.padded(), STATE_3 as int),
        limbs(trace, CUBED@[0] as int),
        limbs(trace, CUBED@[1] as int),
        state(context.poseidon_full_round_chain_cuda.padded(), 0),
        state(context.poseidon_full_round_chain_cuda.padded(), 1),
        state(context.poseidon_full_round_chain_cuda.padded(), 2),
    ]
}

proof fn lemma_handed_to_cubes(
    context: PoseidonContextCudaClaimGenerator,
    trace: Seq<Seq<u32>>,
    k: int,
)
    requires
        context.wf(),
        trace.len() >= 156,
        0 <= k < 10,
    ensures
        ({
            let fed = handed_to_cubes(context, trace);
            &&& fed.len() == 6
            &&& fed[0] == context.poseidon_3_partial_rounds_chain_cuda.padded().skip(32)
            &&& fed[1][k] == trace[93 + k]
            &&& fed[2][k] == trace[125 + k]
            &&& fed[3] + fed[4] + fed[5] == context.poseidon_full_round_chain_cuda.padded().skip(
                2,
            )
        }),
{
    law_fourth_state_is_the_last(context.poseidon_3_partial_rounds_chain_cuda.padded());
    law_states_are_all_limbs(context.poseidon_full_round_chain_cuda.padded());
}

/// What the two chains hand to the cubes: the last number of the partial chain's states and two
/// numbers of its trace, then all numbers of the full chain's states, limb by limb.
pub proof fn law_chains_hand_all_numbers_on(
    context: PoseidonContextCudaClaimGenerator,
    outputs: ChainOutputs,
    chains: ChainsWritten,
    committed_before: Seq<Committed>,
    committed_after: Seq<Committed>,
    tables_before: RangeChecksCudaClaimGenerator,
    tables_after: RangeChecksCudaClaimGenerator,
    k: int,
)
    requires
        context.accepts(outputs),
        context.wrote_chains(
            outputs,
            chains,
            committed_before,
            committed_after,
            tables_before,
            tables_after,
        ),
        0 <= k < 10,
    ensures
        ({
            let n = context.cube_252_cuda@.len() as int;
            let fed = chains.cube_252@.skip(n);
            let trace = columns(outputs.partial_trace@);
            &&& chains.cube_252@.take(n) == context.cube_252_cuda@
            &&& fed.len() == 6
            &&& fed[0] == context.poseidon_3_partial_rounds_chain_cuda.padded().skip(32)
            &&& fed[1][k] == trace[93 + k]
            &&& fed[2][k] == trace[125 + k]
            &&& fed[3] + fed[4] + fed[5] == context.poseidon_full_round_chain_cuda.padded().skip(
                2,
            )
        }),
{
    let n = context.cube_252_cuda@.len() as int;
    let trace = columns(outputs.partial_trace@);
    lemma_handed_to_cubes(context, trace, k);
    let fed = handed_to_cubes(context, trace);
    assert(chains.cube_252@ == context.cube_252_cuda@ + fed);
    assert(chains.cube_252@.take(n) =~= context.cube_252_cuda@);
    assert(chains.cube_252@.skip(n) =~= fed);
}

proof fn lemma_three_numbers_below_each_other(
    cols: Seq<Seq<u32>>,
    trace: Seq<Seq<u32>>,
    len: nat,
    k: int,
)
    requires
        is_shape(cols, 10, cols[0].len()),
        cols[0].len() <= 1,
        len > 1,
        trace.len() >= 156,
        is_shape(trace, trace.len(), len),
        0 <= k < 10,
    ensures
        fed_rows(
            fed_rows(
                fed_rows(cols, limbs(trace, CHECKED@[0] as int)),
                limbs(trace, CHECKED@[1] as int),
            ),
            limbs(trace, CHECKED@[2] as int),
        )[k] == trace[82 + k] + trace[114 + k] + trace[146 + k],
{
    assert(trace[82].len() == len && trace[114].len() == len && trace[146].len() == len);
    assert(limbs(trace, 82)[0] == trace[82]);
    assert(limbs(trace, 114)[0] == trace[114]);
    assert(limbs(trace, 146)[0] == trace[146]);
}

/// What the partial chain hands to the range check of 252-bit numbers: three numbers of its trace,
/// one below the other, limb by limb.
pub proof fn law_chains_have_numbers_checked(
    context: PoseidonContextCudaClaimGenerator,
    outputs: ChainOutputs,
    chains: ChainsWritten,
    committed_before: Seq<Committed>,
    committed_after: Seq<Committed>,
    tables_before: RangeChecksCudaClaimGenerator,
    tables_after: RangeChecksCudaClaimGenerator,
    k: int,
)
    requires
        context.accepts(outputs),
        context.wrote_chains(
            outputs,
            chains,
            committed_before,
            committed_after,
            tables_before,
            tables_after,
        ),
        0 <= k < 10,
        context.range_check_252_width_27_cuda.inputs.size <= 1,
        context.partial_log_size() > 0,
    ensures
        ({
            let trace = columns(outputs.partial_trace@);
            columns(chains.range_check_252_width_27.inputs.columns@)[k] == trace[82 + k] + trace[114
                + k] + trace[146 + k]
        }),
{
    vstd::arithmetic::power2::lemma2_to64();
    if context.partial_log_size() > 1 {
        vstd::arithmetic::power2::lemma_pow2_strictly_increases(1, context.partial_log_size());
    }
    lemma_three_numbers_below_each_other(
        columns(context.range_check_252_width_27_cuda.inputs.columns@),
        columns(outputs.partial_trace@),
        pow2(context.partial_log_size()),
        k,
    );
}

/// The rounds that keys are asked for are those of the full chain, then those of the partial one.
pub proof fn law_round_packs_hold_all_rounds(
    context: PoseidonContextCudaClaimGenerator,
    i: int,
    j: int,
)
    requires
        context.wf(),
        0 <= i < context.poseidon_full_round_chain_cuda.inputs.size,
        0 <= j < context.poseidon_3_partial_rounds_chain_cuda.inputs.size,
    ensures
        ({
            let full = columns(context.poseidon_full_round_chain_cuda.inputs.columns@)[1];
            let partial = columns(context.poseidon_3_partial_rounds_chain_cuda.inputs.columns@)[1];
            let n = packs_of(full).len() as int;
            &&& context.round_packs()[i / 16][i % 16] == full[i]
            &&& context.round_packs()[n + j / 16][j % 16] == partial[j]
            &&& context.round_packs().len() == n + packs_of(partial).len()
        }),
{
    let full = columns(context.poseidon_full_round_chain_cuda.inputs.columns@)[1];
    let partial = columns(context.poseidon_3_partial_rounds_chain_cuda.inputs.columns@)[1];
    law_packs_hold_the_values(full, i);
    law_packs_hold_the_values(partial, j);
}

} // verus!

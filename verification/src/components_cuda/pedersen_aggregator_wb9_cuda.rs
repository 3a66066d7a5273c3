//! Hashes of pairs of memory values, for windows of nine bits.

use crate::bits::{ilog2, lemma_padded_log, padded_log, padded_rows, padded_size};
use crate::column::{columns, is_shape, new_zero_columns, zero_columns, BaseFieldVec};
use crate::components_cuda::range_check::base::{
    all_occurrences, are_all_inputs, counted, CudaRangeCheckGenerator,
};
use crate::components_cuda::range_check::tables::rc_8_ranges;
use crate::inputs::{resize, resized, ColumnInputs, ComponentInputs};
use crate::launch::{
    allocate, entries_before, finish_interaction, groups, have_shapes, interaction_columns,
    secure_of, shape, BufferShape, Claim, InteractionClaim, TraceBuffers, N_VALUE_LIMBS,
};
use crate::sorting::{is_permutation, stable_order};
use crate::tree_builder::{committed, TreeBuilder, MAX_LOG_SIZE};
use vstd::arithmetic::power2::pow2;
use vstd::prelude::*;

verus! {

pub const N_TRACE_COLUMNS: usize = 234;

/// The number of secure columns of the interaction trace.
pub const N_LOGUP_COLUMNS: usize = 6;

/// The number of multiplication steps that a hash takes.
pub const N_STEPS: usize = 56;

/// The number of fields of the input of a multiplication step.
pub const N_STEP_COLUMNS: usize = 86;

/// A hash: the ids of its two operands, the id of its result, and how often it was looked up.
#[derive(Clone, Copy, Debug, PartialEq, Eq, Structural)]
pub struct AggregatorInput {
    pub limb_0: u32,
    pub limb_1: u32,
    pub limb_2: u32,
    pub multiplicity: u32,
}

/// The operands of `x` come before those of `y`.
pub open spec fn precedes(x: AggregatorInput, y: AggregatorInput) -> bool {
    x.limb_0 < y.limb_0 || (x.limb_0 == y.limb_0 && x.limb_1 < y.limb_1)
}

/// `listing` holds the hashes of `inner` in the order of their operands, hashes of the same
/// operands in the order in which `inner` has them; `p[i]` is where `inner` has the hash at place
/// `i`.
pub open spec fn is_listing(
    listing: Seq<AggregatorInput>,
    inner: Seq<AggregatorInput>,
    p: Seq<int>,
) -> bool {
    &&& is_permutation(p, inner.len())
    &&& listing.len() == inner.len()
    &&& forall|i: int| 0 <= i < listing.len() ==> #[trigger] listing[i] == inner[p[i]]
    &&& forall|i: int, j: int|
        0 <= i < j < listing.len() ==> precedes(#[trigger] listing[i], #[trigger] listing[j]) || (
        !precedes(listing[j], listing[i]) && p[i] < p[j])
}

/// The hashes that were looked up.
pub struct CudaClaimGenerator {
    pub inner: Vec<AggregatorInput>,
}

/// What the trace kernel is launched with.
pub struct PackedInputs {
    pub inputs: Vec<BaseFieldVec>,
    pub multiplicities: BaseFieldVec,
    pub n_rows: usize,
    pub log_size: u32,
}

/// One of the three ids of a hash.
pub open spec fn limb(x: AggregatorInput, k: int) -> u32 {
    if k == 0 {
        x.limb_0
    } else if k == 1 {
        x.limb_1
    } else {
        x.limb_2
    }
}

/// The column of one id: a row for each hash, padded with the first row.
pub open spec fn limb_column(listing: Seq<AggregatorInput>, k: int) -> Seq<u32> {
    resized(
        Seq::new(listing.len(), |i: int| limb(listing[i], k)),
        padded_rows(listing.len()),
        limb(listing[0], k),
    )
}

/// The column of multiplicities: a row for each hash, padded with zero.
pub open spec fn multiplicity_column(listing: Seq<AggregatorInput>) -> Seq<u32> {
    resized(
        Seq::new(listing.len(), |i: int| listing[i].multiplicity),
        padded_rows(listing.len()),
        0,
    )
}

impl PackedInputs {
    /// The columns hold the listed hashes, padded for a trace.
    pub open spec fn holds(self, listing: Seq<AggregatorInput>) -> bool {
        &&& columns(self.inputs@) == Seq::new(3, |k: int| limb_column(listing, k))
        &&& self.multiplicities@ == multiplicity_column(listing)
        &&& self.n_rows == listing.len()
        &&& self.log_size == padded_log(listing.len())
    }
}

proof fn lemma_key_order(a: u32, b: u32, c: u32, d: u32)
    ensures
        (a * 0x1_0000_0000 + b < c * 0x1_0000_0000 + d) <==> (a < c || (a == c && b < d)),
        (a * 0x1_0000_0000 + b == c * 0x1_0000_0000 + d) <==> (a == c && b == d),
{
}

fn read_limb(x: &AggregatorInput, k: usize) -> (r: u32)
    requires
        k < 3,
    ensures
        r == limb(*x, k as int),
{
    if k == 0 {
        x.limb_0
    } else if k == 1 {
        x.limb_1
    } else {
        x.limb_2
    }
}

fn pack_limb(listing: &Vec<AggregatorInput>, k: usize) -> (r: BaseFieldVec)
    requires
        0 < listing@.len() <= 0x8000_0000,
        k < 3,
    ensures
        r@ == limb_column(listing@, k as int),
{
    let mut values: Vec<u32> = Vec::new();
    let mut i: usize = 0;
    while i < listing.len()
        invariant
            i <= listing.len(),
            k < 3,
            values@ == Seq::new(i as nat, |j: int| limb(listing@[j], k as int)),
        decreases listing.len() - i,
    {
        values.push(read_limb(&listing[i], k));
        i = i + 1;
        assert(values@ =~= Seq::new(i as nat, |j: int| limb(listing@[j], k as int)));
    }
    proof {
        crate::bits::lemma_padded_rows(listing@.len());
    }
    let size = padded_size(listing.len());
    let first = values[0];
    resize(&mut values, size, first);
    BaseFieldVec::from_vec(values)
}

/// Packs the listed hashes for the trace kernel.
pub fn pack_inputs(listing: &Vec<AggregatorInput>) -> (r: PackedInputs)
    requires
        0 < listing@.len() <= 0x4000_0000,
    ensures
        r.holds(listing@),
        4 <= r.log_size <= MAX_LOG_SIZE,
{
    let mut inputs: Vec<BaseFieldVec> = Vec::new();
    inputs.push(pack_limb(listing, 0));
    inputs.push(pack_limb(listing, 1));
    inputs.push(pack_limb(listing, 2));
    assert(columns(inputs@) =~= Seq::new(3, |k: int| limb_column(listing@, k)));
    let mut mults: Vec<u32> = Vec::new();
    let mut i: usize = 0;
    while i < listing.len()
        invariant
            i <= listing.len(),
            mults@ == Seq::new(i as nat, |k: int| listing@[k].multiplicity),
        decreases listing.len() - i,
    {
        mults.push(listing[i].multiplicity);
        i = i + 1;
        assert(mults@ =~= Seq::new(i as nat, |k: int| listing@[k].multiplicity));
    }
    proof {
        crate::bits::lemma_padded_rows(listing@.len());
        lemma_padded_log(listing@.len());
    }
    let size = padded_size(listing.len());
    resize(&mut mults, size, 0);
    let log_size = ilog2(size);
    PackedInputs {
        inputs,
        multiplicities: BaseFieldVec::from_vec(mults),
        n_rows: listing.len(),
        log_size,
    }
}

/// The groups of lookups: memory values, 8-bit numbers, multiplication steps, and the hash itself.
pub open spec fn lookup_shapes() -> Seq<BufferShape> {
    seq![shape(3, 30), shape(4, 2), shape(4, 87), shape(1, 4)]
}

/// Returns the shapes of the groups of lookups.
pub fn lookup_layout() -> (r: Vec<BufferShape>)
    ensures
        r@ == lookup_shapes(),
{
    let r = vec![
        BufferShape { entries: 3, width: 30 },
        BufferShape { entries: 4, width: 2 },
        BufferShape { entries: 4, width: 87 },
        BufferShape { entries: 1, width: 4 },
    ];
    assert(r@ =~= lookup_shapes());
    r
}

/// The groups that other components are fed with: memory ids and 8-bit numbers.
pub open spec fn sub_input_shapes() -> Seq<BufferShape> {
    seq![shape(3, 1), shape(4, 1)]
}

/// Returns the shapes of the groups that other components are fed with.
pub fn sub_input_layout() -> (r: Vec<BufferShape>)
    ensures
        r@ == sub_input_shapes(),
{
    let r = vec![
        BufferShape { entries: 3, width: 1 },
        BufferShape { entries: 4, width: 1 },
    ];
    assert(r@ =~= sub_input_shapes());
    r
}

impl CudaClaimGenerator {
    /// Returns a generator without hashes.
    pub fn new() -> (r: Self)
        ensures
            r.inner@.len() == 0,
    {
        CudaClaimGenerator { inner: Vec::new() }
    }

    /// Tells whether there are no hashes.
    pub fn is_empty(&self) -> (r: bool)
        ensures
            r == (self.inner@.len() == 0),
    {
        self.inner.len() == 0
    }

    /// Returns the hashes that were looked up.
    pub fn inner(&self) -> (r: &Vec<AggregatorInput>)
        ensures
            r@ == self.inner@,
    {
        &self.inner
    }

    /// Returns the hashes in the order of their operands.
    pub fn sorted_inputs(&self) -> (listing: Vec<AggregatorInput>)
        ensures
            exists|p: Seq<int>| is_listing(listing@, self.inner@, p),
    {
        let mut keys: Vec<u64> = Vec::new();
        let mut i: usize = 0;
        while i < self.inner.len()
            invariant
                i <= self.inner.len(),
                keys@.len() == i,
                forall|k: int|
                    0 <= k < i ==> #[trigger] keys@[k] == self.inner@[k].limb_0 * 0x1_0000_0000
                        + self.inner@[k].limb_1,
            decreases self.inner.len() - i,
        {
            let x = self.inner[i];
            keys.push(x.limb_0 as u64 * 0x1_0000_0000 + x.limb_1 as u64);
            i = i + 1;
        }
        let order = stable_order(&keys);
        let ghost mapped = order@.map_values(|x: usize| x as int);
        let mut listing: Vec<AggregatorInput> = Vec::new();
        let mut j: usize = 0;
        while j < order.len()
            invariant
                j <= order.len(),
                keys@.len() == self.inner@.len(),
                mapped == order@.map_values(|x: usize| x as int),
                is_permutation(mapped, keys@.len()),
                listing@.len() == j,
                forall|k: int|
                    0 <= k < j ==> #[trigger] listing@[k] == self.inner@[order@[k] as int],
            decreases order.len() - j,
        {
            assert(mapped[j as int] < keys@.len());
            listing.push(self.inner[order[j]]);
            j = j + 1;
        }
        proof {
            assert forall|i: int| 0 <= i < listing@.len() implies #[trigger] listing@[i]
                == self.inner@[mapped[i]] by {}
            assert forall|i: int, j: int| 0 <= i < j < listing@.len() implies precedes(
                #[trigger] listing@[i],
                #[trigger] listing@[j],
            ) || (!precedes(listing@[j], listing@[i]) && mapped[i] < mapped[j]) by {
                let a = order@[i] as int;
                let b = order@[j] as int;
                assert(mapped[i] < keys@.len() && mapped[j] < keys@.len());
                assert(keys@[a] == self.inner@[a].limb_0 * 0x1_0000_0000 + self.inner@[a].limb_1);
                assert(keys@[b] == self.inner@[b].limb_0 * 0x1_0000_0000 + self.inner@[b].limb_1);
                lemma_key_order(
                    self.inner@[a].limb_0,
                    self.inner@[a].limb_1,
                    self.inner@[b].limb_0,
                    self.inner@[b].limb_1,
                );
            }
            assert(is_listing(listing@, self.inner@, mapped));
        }
        listing
    }

    /// There are hashes, and the columns hold them in the order of their operands.
    pub open spec fn is_packed(self, packed: PackedInputs) -> bool {
        &&& self.inner@.len() > 0
        &&& exists|listing: Seq<AggregatorInput>, p: Seq<int>| #[trigger]
            is_listing(listing, self.inner@, p) && packed.holds(listing)
    }

    /// Packs the hashes, in the order of their operands, for the trace kernel.
    pub fn pack(&self) -> (r: PackedInputs)
        requires
            0 < self.inner@.len() <= 0x4000_0000,
        ensures
            self.is_packed(r),
            4 <= r.log_size <= MAX_LOG_SIZE,
    {
        let listing = self.sorted_inputs();
        let ghost p = choose|p: Seq<int>| is_listing(listing@, self.inner@, p);
        assert(is_listing(listing@, self.inner@, p));
        pack_inputs(&listing)
    }

    /// Returns the buffers that the trace kernel fills, and those for the inputs of the
    /// multiplication steps of all hashes.
    pub fn trace_buffers(log_size: u32) -> (r: (TraceBuffers, Vec<BaseFieldVec>))
        requires
            log_size <= 26,
        ensures
            r.0.fit(N_TRACE_COLUMNS as nat, lookup_shapes(), sub_input_shapes(), log_size),
            columns(r.1@) == zero_columns(
                N_STEP_COLUMNS as nat,
                N_STEPS as nat * pow2(log_size as nat),
            ),
    {
        let len = crate::bits::exp2(log_size);
        proof {
            vstd::arithmetic::power2::lemma2_to64();
            if log_size < 26 {
                vstd::arithmetic::power2::lemma_pow2_strictly_increases(log_size as nat, 26);
            }
        }
        (
            allocate(N_TRACE_COLUMNS, &lookup_layout(), &sub_input_layout(), log_size),
            new_zero_columns(N_STEP_COLUMNS, N_STEPS * len),
        )
    }

    /// Feeds the other components with what the trace kernel wrote and commits the trace.
    pub fn write_trace(
        self,
        packed: PackedInputs,
        buffers: TraceBuffers,
        steps: Vec<BaseFieldVec>,
        tree_builder: &mut TreeBuilder,
        memory_id_to_big_state: &mut ComponentInputs,
        rc_8_state: &mut CudaRangeCheckGenerator<1>,
        pem_wb9_state: &mut ColumnInputs,
    ) -> (r: (Claim, CudaInteractionClaimGenerator))
        requires
            self.inner@.len() > 0,
            self.is_packed(packed),
            0 < packed.log_size <= 26,
            buffers.fit(
                N_TRACE_COLUMNS as nat,
                lookup_shapes(),
                sub_input_shapes(),
                packed.log_size,
            ),
            is_shape(
                columns(steps@),
                N_STEP_COLUMNS as nat,
                N_STEPS as nat * pow2(packed.log_size as nat),
            ),
            old(rc_8_state).wf(),
            old(rc_8_state).ranges@ == rc_8_ranges(),
            are_all_inputs(rc_8_ranges(), groups(buffers.sub_inputs@)[1]),
        ensures
            r.0.log_size == packed.log_size,
            r.1.log_size == packed.log_size,
            groups(r.1.lookup_data@) == groups(buffers.lookups@),
            r.1.multiplicities@ == packed.multiplicities@,
            r.1.wf(),
            final(tree_builder)@ == old(tree_builder)@ + committed(
                packed.log_size,
                columns(buffers.trace@),
            ),
            final(memory_id_to_big_state)@ == old(memory_id_to_big_state)@ + groups(
                buffers.sub_inputs@,
            )[0],
            final(rc_8_state).wf(),
            final(rc_8_state).ranges == old(rc_8_state).ranges,
            final(rc_8_state).multiplicities@ == counted(
                old(rc_8_state).multiplicities@,
                |i: int|
                    all_occurrences(rc_8_ranges(), groups(buffers.sub_inputs@)[1], i) as int,
            ),
            columns(final(pem_wb9_state).input_columns@) == columns(steps@),
            final(pem_wb9_state).size == N_STEPS * pow2(packed.log_size as nat),
    {
        memory_id_to_big_state.add_cuda_inputs(&buffers.sub_inputs[0]);
        rc_8_state.add_each(&buffers.sub_inputs[1]);
        proof {
            vstd::arithmetic::power2::lemma2_to64();
            if packed.log_size < 26 {
                vstd::arithmetic::power2::lemma_pow2_strictly_increases(
                    packed.log_size as nat,
                    26,
                );
            }
        }
        let total_rows = N_STEPS * crate::bits::exp2(packed.log_size);
        pem_wb9_state.set_cuda_inputs(steps, total_rows);
        tree_builder.extend_evals(packed.log_size, buffers.trace);
        (
            Claim { log_size: packed.log_size },
            CudaInteractionClaimGenerator {
                log_size: packed.log_size,
                lookup_data: buffers.lookups,
                multiplicities: packed.multiplicities,
            },
        )
    }
}

impl Default for CudaClaimGenerator {
    fn default() -> (r: Self)
        ensures
            r.inner@.len() == 0,
    {
        CudaClaimGenerator::new()
    }
}

/// Writes the interaction trace. Its kernel knows the constants of its relations: it is handed the
/// elements that all relations share.
pub struct CudaInteractionClaimGenerator {
    pub log_size: u32,
    pub lookup_data: Vec<Vec<Vec<BaseFieldVec>>>,
    pub multiplicities: BaseFieldVec,
}

/// A column of the interaction trace holds two fractions, so there is one for every two entries.
/// An identifier is looked up, behind the relation's constant, with the limbs of its value; a byte
/// and a step stand behind the constants of their relations.
pub proof fn law_lookups_match_feeds()
    ensures
        (entries_before(lookup_shapes(), 4) + 1) / 2 == N_LOGUP_COLUMNS,
        lookup_shapes()[0].entries == sub_input_shapes()[0].entries,
        lookup_shapes()[0].width == sub_input_shapes()[0].width + N_VALUE_LIMBS + 1,
        lookup_shapes()[1].entries == sub_input_shapes()[1].entries,
        lookup_shapes()[1].width == sub_input_shapes()[1].width + 1,
        lookup_shapes()[2].width == N_STEP_COLUMNS + 1,
        lookup_shapes()[3] == shape(1, 4),
{
    reveal_with_fuel(entries_before, 5);
}

impl CudaInteractionClaimGenerator {
    /// The lookups are those of a trace of the given size.
    pub open spec fn wf(self) -> bool {
        &&& 0 < self.log_size <= MAX_LOG_SIZE
        &&& have_shapes(groups(self.lookup_data@), lookup_shapes(), pow2(self.log_size as nat))
    }

    /// Returns the columns of zeroes that the interaction kernel fills.
    pub fn interaction_columns(&self) -> (cols: Vec<BaseFieldVec>)
        requires
            self.wf(),
        ensures
            columns(cols@) == zero_columns(
                4 * N_LOGUP_COLUMNS as nat,
                pow2(self.log_size as nat),
            ),
    {
        interaction_columns(N_LOGUP_COLUMNS, self.log_size)
    }

    /// Commits the columns that the interaction kernel filled and claims its sum.
    pub fn write_interaction_trace(
        self,
        tree_builder: &mut TreeBuilder,
        cols: Vec<BaseFieldVec>,
        claimed_sum: [u32; 4],
    ) -> (r: InteractionClaim)
        requires
            self.wf(),
            is_shape(
                columns(cols@),
                4 * N_LOGUP_COLUMNS as nat,
                pow2(self.log_size as nat),
            ),
        ensures
            final(tree_builder)@ == old(tree_builder)@ + committed(self.log_size, columns(cols@)),
            r.claimed_sum == secure_of(claimed_sum@),
    {
        finish_interaction(tree_builder, cols, self.log_size, claimed_sum)
    }
}

/// Row `i` of the packed columns is hash `i` of the listing with its multiplicity; the rows behind
/// the last hash are the first one's, which nothing asked for.
pub proof fn law_packed_rows_are_hashes(
    packed: PackedInputs,
    listing: Seq<AggregatorInput>,
    i: int,
)
    requires
        packed.holds(listing),
        0 < listing.len() <= 0x4000_0000,
        0 <= i < padded_rows(listing.len()),
    ensures
        columns(packed.inputs@).len() == 3,
        (AggregatorInput {
            limb_0: columns(packed.inputs@)[0][i],
            limb_1: columns(packed.inputs@)[1][i],
            limb_2: columns(packed.inputs@)[2][i],
            multiplicity: packed.multiplicities@[i],
        }) == (if i < listing.len() {
            listing[i]
        } else {
            AggregatorInput { multiplicity: 0, ..listing[0] }
        }),
        pow2(packed.log_size as nat) == padded_rows(listing.len()),
{
    crate::bits::lemma_padded_log(listing.len());
    assert(columns(packed.inputs@)[0] == limb_column(listing, 0));
    assert(columns(packed.inputs@)[1] == limb_column(listing, 1));
    assert(columns(packed.inputs@)[2] == limb_column(listing, 2));
}

/// The listing ascends by the first operand, and by the second among hashes with the same first.
pub proof fn law_listing_ascends(
    listing: Seq<AggregatorInput>,
    inner: Seq<AggregatorInput>,
    p: Seq<int>,
    i: int,
    j: int,
)
    requires
        is_listing(listing, inner, p),
        0 <= i < j < listing.len(),
    ensures
        listing[i].limb_0 <= listing[j].limb_0,
        listing[i].limb_0 == listing[j].limb_0 ==> listing[i].limb_1 <= listing[j].limb_1,
{
    assert(precedes(listing[i], listing[j]) || (!precedes(listing[j], listing[i]) && p[i] < p[j]));
}

} // verus!

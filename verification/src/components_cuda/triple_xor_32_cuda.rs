//! The exclusive or of three 32-bit words.

use crate::bits::{floor_log2, ilog2};
use crate::column::{batches, columns, duplicate_columns, is_shape, zero_columns, BaseFieldVec};
use crate::components_cuda::range_check::base::{all_occurrences, counted};
use crate::components_cuda::verify_bitwise_xor::base::{are_xor_inputs, pair_ranges, pairs};
use crate::components_cuda::verify_bitwise_xor::vbx_8;
use crate::inputs::{appended_all, are_packed, extend_columns, lane_columns, Pack, RowInputs};
use crate::launch::{
    allocate, answer_all, entries_before, finish_interaction, groups, have_shapes,
    interaction_columns, law_answers_look_up, looks_up_request, modified_lookups, secure_of, shape,
    BufferShape, Claim, InteractionClaim, LookupRequest, TraceBuffers,
};
use crate::lookup::{looks_up, LookupElements, RelationIds};
use crate::tree_builder::{committed, TreeBuilder, MAX_LOG_SIZE};
use vstd::arithmetic::power2::pow2;
use vstd::prelude::*;

verus! {

/// The number of words of an input.
pub const N_WORDS: usize = 3;

pub const N_INTERACTION_TRACE_COLUMNS: usize = 5;

/// The words of all inputs, one column for each of the three.
pub struct CudaClaimGenerator {
    pub inputs: RowInputs,
}

/// The columns after batches came: the first batch replaces the placeholder.
pub open spec fn fed_batches(cols: Seq<Seq<u32>>, inputs: Seq<Seq<Seq<u32>>>) -> Seq<Seq<u32>> {
    if cols[0].len() <= 1 && inputs.len() > 0 {
        appended_all(inputs[0], inputs.skip(1))
    } else {
        appended_all(cols, inputs)
    }
}

/// The number of rows of all batches.
pub open spec fn total_rows(inputs: Seq<Seq<Seq<u32>>>) -> nat
    decreases inputs.len(),
{
    if inputs.len() == 0 {
        0
    } else {
        total_rows(inputs.drop_last()) + inputs.last()[0].len()
    }
}

/// Every batch has three columns of the same length.
pub open spec fn are_word_batches(inputs: Seq<Seq<Seq<u32>>>) -> bool {
    forall|b: int|
        0 <= b < inputs.len() ==> is_shape(
            #[trigger] inputs[b],
            N_WORDS as nat,
            inputs[b][0].len(),
        )
}

/// The first batches have no more rows than all batches.
pub proof fn lemma_total_rows_take(inputs: Seq<Seq<Seq<u32>>>, k: int)
    requires
        0 <= k <= inputs.len(),
    ensures
        total_rows(inputs.take(k)) <= total_rows(inputs),
    decreases inputs.len() - k,
{
    if k < inputs.len() {
        lemma_total_rows_take(inputs, k + 1);
        assert(inputs.take(k + 1).drop_last() =~= inputs.take(k));
    } else {
        assert(inputs.take(k) =~= inputs);
    }
}

/// The groups of lookups: this relation, and the two relations of the 8-bit exclusive or.
pub open spec fn lookup_shapes() -> Seq<BufferShape> {
    seq![shape(1, 8), shape(4, 3), shape(4, 3)]
}

/// Returns the shapes of the groups of lookups.
pub fn lookup_layout() -> (r: Vec<BufferShape>)
    ensures
        r@ == lookup_shapes(),
{
    let r = vec![
        BufferShape { entries: 1, width: 8 },
        BufferShape { entries: 4, width: 3 },
        BufferShape { entries: 4, width: 3 },
    ];
    assert(r@ =~= lookup_shapes());
    r
}

/// The groups that the two relations of the 8-bit exclusive or are fed with.
pub open spec fn sub_input_shapes() -> Seq<BufferShape> {
    seq![shape(4, 3), shape(4, 3)]
}

/// Returns the shapes of the groups that other components are fed with.
pub fn sub_input_layout() -> (r: Vec<BufferShape>)
    ensures
        r@ == sub_input_shapes(),
{
    let r = vec![
        BufferShape { entries: 4, width: 3 },
        BufferShape { entries: 4, width: 3 },
    ];
    assert(r@ =~= sub_input_shapes());
    r
}

impl CudaClaimGenerator {
    /// There are as many columns as words, and they have the same length.
    pub open spec fn wf(self) -> bool {
        self.inputs.wf(N_WORDS as nat)
    }

    /// Returns a generator with no more than the placeholder.
    pub fn new() -> (r: Self)
        ensures
            r.wf(),
            columns(r.inputs.columns@) == zero_columns(N_WORDS as nat, 1),
    {
        CudaClaimGenerator { inputs: RowInputs::new(N_WORDS) }
    }

    /// Replaces all inputs by packed ones.
    pub fn add_packed_inputs(&mut self, packed_inputs: &Vec<Vec<Pack>>)
        requires
            are_packed(packed_inputs@, N_WORDS as nat),
        ensures
            final(self).wf(),
            columns(final(self).inputs.columns@) == lane_columns(
                packed_inputs@,
                N_WORDS as nat,
            ),
    {
        self.inputs.set_packed(packed_inputs, N_WORDS);
    }

    /// Takes batches in: the first one replaces the placeholder, the others follow.
    pub fn add_cuda_inputs(&mut self, inputs: &Vec<Vec<BaseFieldVec>>)
        requires
            old(self).wf(),
            are_word_batches(batches(inputs@)),
            old(self).inputs.size + total_rows(batches(inputs@)) <= u32::MAX,
        ensures
            final(self).wf(),
            columns(final(self).inputs.columns@) == fed_batches(
                columns(old(self).inputs.columns@),
                batches(inputs@),
            ),
    {
        let ghost all = batches(inputs@);
        let ghost first_cols = columns(self.inputs.columns@);
        let ghost first_size = self.inputs.size;
        assert(first_cols[0].len() == first_size);
        let mut b: usize = 0;
        let mut cols: Vec<BaseFieldVec> = Vec::new();
        std::mem::swap(&mut cols, &mut self.inputs.columns);
        let replace = self.inputs.size <= 1 && inputs.len() > 0;
        if replace {
            assert(is_shape(all[0], N_WORDS as nat, all[0][0].len()));
            cols = duplicate_columns(&inputs[0]);
            b = 1;
            assert(all.subrange(1, 1) =~= Seq::empty());
            assert(all.take(1).drop_last() =~= Seq::empty());
            assert(total_rows(all.take(1).drop_last()) == 0);
        } else {
            assert(all.subrange(0, 0) =~= Seq::empty());
            assert(all.take(0) =~= Seq::empty());
        }
        let ghost base = if replace {
            all[0]
        } else {
            first_cols
        };
        let ghost from: int = if replace {
            1
        } else {
            0
        };
        while b < inputs.len()
            invariant
                0 <= from <= b <= inputs.len(),
                all == batches(inputs@),
                are_word_batches(all),
                base.len() == N_WORDS,
                columns(cols@) == appended_all(base, all.subrange(from, b as int)),
                is_shape(columns(cols@), N_WORDS as nat, columns(cols@)[0].len()),
                columns(cols@)[0].len() <= first_size + total_rows(all.take(b as int)),
            decreases inputs.len() - b,
        {
            let ghost before = columns(cols@);
            assert(is_shape(all[b as int], N_WORDS as nat, all[b as int][0].len()));
            extend_columns(&mut cols, &inputs[b]);
            b = b + 1;
            proof {
                let now = columns(cols@);
                assert(all.subrange(from, b as int).drop_last() =~= all.subrange(from, b - 1));
                assert(all.take(b as int).drop_last() =~= all.take(b - 1));
                assert forall|i: int| 0 <= i < now.len() implies (#[trigger] now[i]).len()
                    == now[0].len() by {
                    assert(before[i].len() == before[0].len());
                    assert(all[b - 1][i].len() == all[b - 1][0].len());
                }
            }
        }
        proof {
            assert(all.take(b as int) =~= all);
            if replace {
                assert(all.subrange(1, b as int) =~= all.skip(1));
            } else {
                assert(all.subrange(0, b as int) =~= all);
            }
            assert(columns(cols@).len() == N_WORDS);
        }
        self.inputs.size = cols[0].size() as u32;
        self.inputs.columns = cols;
    }

    /// Returns the buffers that the trace kernel fills, for a trace with the largest power of two
    /// of rows that the inputs fill.
    pub fn trace_buffers(&self, n_trace_columns: usize) -> (b: TraceBuffers)
        requires
            self.wf(),
            0 < self.inputs.size <= 0x4000_0000,
        ensures
            b.fit(
                n_trace_columns as nat,
                lookup_shapes(),
                sub_input_shapes(),
                floor_log2(self.inputs.size as nat) as u32,
            ),
    {
        proof {
            lemma_small_log(self.inputs.size);
        }
        let log_size = ilog2(self.inputs.size as usize);
        allocate(n_trace_columns, &lookup_layout(), &sub_input_layout(), log_size)
    }

    /// Feeds the 8-bit exclusive or with what the trace kernel wrote and commits the trace.
    pub fn write_trace(
        self,
        buffers: TraceBuffers,
        tree_builder: &mut TreeBuilder,
        verify_bitwise_xor_8_state: &mut vbx_8::CudaClaimGenerator,
        verify_bitwise_xor_8_b_state: &mut vbx_8::CudaClaimGenerator,
    ) -> (r: (Claim, CudaInteractionClaimGenerator))
        requires
            self.wf(),
            2 <= self.inputs.size <= 0x4000_0000,
            buffers.fit(
                buffers.trace@.len(),
                lookup_shapes(),
                sub_input_shapes(),
                floor_log2(self.inputs.size as nat) as u32,
            ),
            old(verify_bitwise_xor_8_state).wf(),
            old(verify_bitwise_xor_8_b_state).wf(),
            are_xor_inputs(vbx_8::N_BITS, groups(buffers.sub_inputs@)[0]),
            are_xor_inputs(vbx_8::N_BITS, groups(buffers.sub_inputs@)[1]),
        ensures
            r.0.log_size == floor_log2(self.inputs.size as nat),
            r.1.log_size == r.0.log_size,
            groups(r.1.lookup_data@) == groups(buffers.lookups@),
            r.1.wf(),
            final(tree_builder)@ == old(tree_builder)@ + committed(
                r.0.log_size,
                columns(buffers.trace@),
            ),
            final(verify_bitwise_xor_8_state).wf(),
            final(verify_bitwise_xor_8_state).0.multiplicities@ == counted(
                old(verify_bitwise_xor_8_state).0.multiplicities@,
                |i: int|
                    all_occurrences(
                        pair_ranges(vbx_8::N_BITS),
                        pairs(groups(buffers.sub_inputs@)[0]),
                        i,
                    ) as int,
            ),
            final(verify_bitwise_xor_8_b_state).wf(),
            final(verify_bitwise_xor_8_b_state).0.multiplicities@ == counted(
                old(verify_bitwise_xor_8_b_state).0.multiplicities@,
                |i: int|
                    all_occurrences(
                        pair_ranges(vbx_8::N_BITS),
                        pairs(groups(buffers.sub_inputs@)[1]),
                        i,
                    ) as int,
            ),
    {
        proof {
            lemma_small_log(self.inputs.size);
        }
        let log_size = ilog2(self.inputs.size as usize);
        verify_bitwise_xor_8_state.add_cuda_inputs(&buffers.sub_inputs[0]);
        verify_bitwise_xor_8_b_state.add_cuda_inputs(&buffers.sub_inputs[1]);
        tree_builder.extend_evals(log_size, buffers.trace);
        (
            Claim { log_size },
            CudaInteractionClaimGenerator { log_size, lookup_data: buffers.lookups },
        )
    }
}

proof fn lemma_small_log(n: u32)
    requires
        0 < n <= 0x4000_0000,
    ensures
        floor_log2(n as nat) <= MAX_LOG_SIZE,
        n >= 2 ==> floor_log2(n as nat) > 0,
{
    vstd::arithmetic::power2::lemma2_to64();
    crate::bits::lemma_floor_log2_bound(n as nat, 31);
}

/// Writes the interaction trace.
pub struct CudaInteractionClaimGenerator {
    pub log_size: u32,
    pub lookup_data: Vec<Vec<Vec<BaseFieldVec>>>,
}

/// The elements that the interaction kernel is handed, in order.
pub open spec fn requests(ids: RelationIds) -> Seq<LookupRequest> {
    seq![
        LookupRequest::Plain(ids.triple_xor_32),
        LookupRequest::Plain(ids.verify_bitwise_xor_8),
        LookupRequest::Plain(ids.verify_bitwise_xor_8_b),
    ]
}

/// Every group of lookups is handed the elements of its own relation.
pub proof fn law_groups_are_looked_up_in_their_relations(
    ms: Seq<LookupElements>,
    common: LookupElements,
    ids: RelationIds,
)
    requires
        common.is_common(),
        answer_all(ms, common, requests(ids)),
    ensures
        ms.len() == 3,
        looks_up(ms[0], common, ids.triple_xor_32),
        looks_up(ms[1], common, ids.verify_bitwise_xor_8),
        looks_up(ms[2], common, ids.verify_bitwise_xor_8_b),
{
    law_answers_look_up(ms, common, requests(ids));
    assert(looks_up_request(ms[0], common, requests(ids)[0]));
    assert(looks_up_request(ms[1], common, requests(ids)[1]));
    assert(looks_up_request(ms[2], common, requests(ids)[2]));
}

/// A column of the interaction trace holds two fractions, so there is one for every two entries;
/// what the xor tables are fed with is what is looked up in them.
pub proof fn law_lookups_match_feeds()
    ensures
        (entries_before(lookup_shapes(), 3) + 1) / 2 == N_INTERACTION_TRACE_COLUMNS,
        lookup_shapes().len() == 3,
        lookup_shapes()[1] == sub_input_shapes()[0],
        lookup_shapes()[2] == sub_input_shapes()[1],
        lookup_shapes()[1] == lookup_shapes()[2],
{
    reveal_with_fuel(entries_before, 4);
}

impl CudaInteractionClaimGenerator {
    /// The lookups are those of a trace of the given size.
    pub open spec fn wf(self) -> bool {
        &&& 0 < self.log_size <= MAX_LOG_SIZE
        &&& have_shapes(groups(self.lookup_data@), lookup_shapes(), pow2(self.log_size as nat))
    }

    /// Returns the elements that the interaction kernel is handed.
    pub fn relation_elements(&self, common: &LookupElements, ids: &RelationIds) -> (ms: Vec<
        LookupElements,
    >)
        requires
            common.is_common(),
            ids.wf(),
        ensures
            answer_all(ms@, *common, requests(*ids)),
    {
        let asked = vec![
            LookupRequest::Plain(ids.triple_xor_32),
            LookupRequest::Plain(ids.verify_bitwise_xor_8),
            LookupRequest::Plain(ids.verify_bitwise_xor_8_b),
        ];
        assert(asked@ =~= requests(*ids));
        modified_lookups(common, &asked)
    }

    /// Returns the columns of zeroes that the interaction kernel fills.
    pub fn interaction_columns(&self) -> (cols: Vec<BaseFieldVec>)
        requires
            self.wf(),
        ensures
            columns(cols@) == zero_columns(
                4 * N_INTERACTION_TRACE_COLUMNS as nat,
                pow2(self.log_size as nat),
            ),
    {
        interaction_columns(N_INTERACTION_TRACE_COLUMNS, self.log_size)
    }

    /// Commits the columns that the interaction kernel filled and claims its sum.
    pub fn write_interaction_trace(
        self,
        tree_builder: &mut TreeBuilder,
        cols: Vec<BaseFieldVec>,
        claimed_sum: [u32; 4],
    ) -> (r: InteractionClaim)
        requires
            self.wf(),
            is_shape(
                columns(cols@),
                4 * N_INTERACTION_TRACE_COLUMNS as nat,
                pow2(self.log_size as nat),
            ),
        ensures
            final(tree_builder)@ == old(tree_builder)@ + committed(self.log_size, columns(cols@)),
            r.claimed_sum == secure_of(claimed_sum@),
    {
        finish_interaction(tree_builder, cols, self.log_size, claimed_sum)
    }
}

/// The first batch takes the place of the row that was there before anything was fed; later batches
/// go below, so feeding two lists is feeding their batches one after the other.
pub proof fn law_batches_are_fed_in_order(
    start: Seq<Seq<u32>>,
    a: Seq<Seq<Seq<u32>>>,
    b: Seq<Seq<Seq<u32>>>,
    c: int,
)
    requires
        is_shape(start, N_WORDS as nat, 1),
        a.len() == 1,
        is_shape(a[0], N_WORDS as nat, a[0][0].len()),
        a[0][0].len() > 1,
        b.len() == 1,
        is_shape(b[0], N_WORDS as nat, b[0][0].len()),
        0 <= c < N_WORDS,
    ensures
        fed_batches(start, a)[c] == a[0][c],
        fed_batches(fed_batches(start, a), b)[c] == a[0][c] + b[0][c],
        fed_batches(start, a + b)[c] == a[0][c] + b[0][c],
        total_rows(a + b) == a[0][0].len() + b[0][0].len(),
{
    assert(a.skip(1) =~= Seq::empty());
    assert(a.drop_last() =~= Seq::empty());
    assert(b.drop_last() =~= Seq::empty());
    assert((a + b).skip(1) =~= b);
    assert((a + b).drop_last() =~= a);
    assert(total_rows(a.drop_last()) == 0);
    assert(total_rows(a) == a[0][0].len());
    assert((a + b).last() == b[0]);
    assert(total_rows(a + b) == total_rows((a + b).drop_last()) + (a + b).last()[0].len());
    assert(appended_all(a[0], Seq::<Seq<Seq<u32>>>::empty()) == a[0]);
    assert(fed_batches(start, a) == a[0]);
    assert(appended_all(a[0], b.drop_last()) == a[0]);
}

} // verus!

//! The table of the exclusive or of two 7-bit numbers, whose interaction trace is computed on
//! the host.

use crate::column::{batches, columns, filled, is_canonical, is_shape, BaseFieldVec, Uint32Vec};
use crate::components_cuda::range_check::base::{batch_occurrences, counted};
use crate::components_cuda::verify_bitwise_xor::base::{
    are_even_xor_inputs, count_even_pairs, pair_ranges, pairs,
};
use crate::inputs::Pack;
use crate::launch::{finish_interaction, secure_of, InteractionClaim};
use crate::logup::{xor_fraction, xor_fractions, Fraction};
use crate::lookup::{LookupElements, N_COMMON_POWERS};
use crate::preprocessed_columns::{gen_bitwise_xor_columns_cuda, xor_columns};
use crate::tree_builder::{committed, TreeBuilder};
use vstd::arithmetic::power2::pow2;
use vstd::prelude::*;

verus! {

pub const N_BITS: u32 = 7;

pub const LOG_SIZE: u32 = 14;

/// Counts lookups into the table.
pub struct CudaClaimGenerator {
    pub mults: Uint32Vec,
}

impl CudaClaimGenerator {
    /// There is one counter for each row of the table.
    pub open spec fn wf(self) -> bool {
        self.mults@.len() == pow2(LOG_SIZE as nat)
    }

    /// Returns a generator with all counters at zero.
    pub fn new() -> (r: Self)
        ensures
            r.wf(),
            r.mults@ == filled(0, pow2(LOG_SIZE as nat)),
    {
        CudaClaimGenerator { mults: Uint32Vec::new_zeroes(crate::bits::exp2(LOG_SIZE)) }
    }

    /// Counts the rows that the batches look up, with as many rows as the first batch has.
    pub fn add_cuda_inputs(&mut self, cuda_inputs: &Vec<Vec<BaseFieldVec>>)
        requires
            old(self).wf(),
            are_even_xor_inputs(N_BITS, batches(cuda_inputs@)),
        ensures
            final(self).wf(),
            final(self).mults@ == counted(
                old(self).mults@,
                |i: int|
                    batch_occurrences(
                        pair_ranges(N_BITS),
                        pairs(batches(cuda_inputs@)),
                        batches(cuda_inputs@)[0][0].len(),
                        i,
                    ) as int,
            ),
    {
        count_even_pairs(&mut self.mults, N_BITS, cuda_inputs);
    }
}

/// The value in lane `i % 16` of pack `i / 16`, or zero where there is no such pack.
pub open spec fn counter_at(mults: Seq<Pack>, i: int) -> u32 {
    if i / 16 < mults.len() {
        mults[i / 16]@[i % 16]
    } else {
        0
    }
}

/// What a row of the table looks up, column by column, and how often it was looked up.
pub struct CudaLookupData {
    pub verify_bitwise_xor_7_0: Vec<BaseFieldVec>,
    pub mults: BaseFieldVec,
}

/// Returns the column of the trace, and what the rows look up: every row of the table has the
/// counter in its pack, or zero where the packs end.
pub fn write_trace_simd(mults: &Vec<Pack>) -> (r: (BaseFieldVec, CudaLookupData))
    ensures
        r.0@ == Seq::new(pow2(LOG_SIZE as nat), |i: int| counter_at(mults@, i)),
        r.1.mults@ == r.0@,
        columns(r.1.verify_bitwise_xor_7_0@) == xor_columns(N_BITS),
{
    let n = crate::bits::exp2(LOG_SIZE);
    let mut values: Vec<u32> = Vec::new();
    let mut i: usize = 0;
    while i < n
        invariant
            i <= n == pow2(LOG_SIZE as nat),
            values@.len() == i,
            forall|k: int| 0 <= k < i ==> #[trigger] values@[k] == counter_at(mults@, k),
        decreases n - i,
    {
        let value = if i / 16 < mults.len() {
            mults[i / 16][i % 16]
        } else {
            0
        };
        values.push(value);
        i = i + 1;
    }
    let trace = BaseFieldVec::from_vec(values);
    assert(trace@ =~= Seq::new(pow2(LOG_SIZE as nat), |i: int| counter_at(mults@, i)));
    let mults = trace.duplicate();
    (
        trace,
        CudaLookupData {
            verify_bitwise_xor_7_0: gen_bitwise_xor_columns_cuda(N_BITS),
            mults,
        },
    )
}

/// Writes the interaction trace.
pub struct CudaInteractionClaimGenerator {
    pub mults: Uint32Vec,
}

impl CudaInteractionClaimGenerator {
    /// There is one canonical counter for each row of the table.
    pub open spec fn wf(self) -> bool {
        &&& self.mults@.len() == pow2(LOG_SIZE as nat)
        &&& is_canonical(self.mults@)
    }

    /// Returns what the rows of the table contribute to the interaction trace.
    pub fn fractions(&self, lookup_elements: &LookupElements) -> (r: Vec<Fraction>)
        requires
            self.wf(),
            lookup_elements.wf(),
            3 <= lookup_elements.alpha_powers@.len() <= N_COMMON_POWERS,
        ensures
            r@.len() == pow2(LOG_SIZE as nat),
            forall|i: int|
                0 <= i < r@.len() ==> #[trigger] r@[i] == xor_fraction(
                    *lookup_elements,
                    N_BITS,
                    self.mults@,
                    i,
                ),
    {
        xor_fractions(lookup_elements, N_BITS, &self.mults.to_vec())
    }

    /// Commits the columns that the fractions sum up to.
    pub fn write_interaction_trace(
        self,
        tree_builder: &mut TreeBuilder,
        cols: Vec<BaseFieldVec>,
        claimed_sum: [u32; 4],
    ) -> (r: InteractionClaim)
        requires
            self.wf(),
            is_shape(columns(cols@), 4, pow2(LOG_SIZE as nat)),
        ensures
            final(tree_builder)@ == old(tree_builder)@ + committed(LOG_SIZE, columns(cols@)),
            r.claimed_sum == secure_of(claimed_sum@),
    {
        finish_interaction(tree_builder, cols, LOG_SIZE, claimed_sum)
    }
}

/// The counters are read lane by lane: counter `16 * p + lane` is what lane `lane` of pack `p`
/// holds, and behind the last pack there are none.
pub proof fn law_counters_are_lanes(mults: Seq<Pack>, p: int, lane: int)
    requires
        0 <= p,
        0 <= lane < 16,
    ensures
        counter_at(mults, 16 * p + lane) == (if p < mults.len() {
            mults[p]@[lane]
        } else {
            0
        }),
{
}

} // verus!

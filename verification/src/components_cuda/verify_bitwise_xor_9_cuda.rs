//! The table of the exclusive or of two 9-bit numbers, whose interaction trace is computed on
//! the host.

use crate::column::{batches, columns, filled, is_canonical, is_shape, BaseFieldVec, Uint32Vec};
use crate::components_cuda::range_check::base::{batch_occurrences, counted};
use crate::components_cuda::verify_bitwise_xor::base::{
    are_even_xor_inputs, count_even_pairs, pair_ranges, pairs,
};
use crate::launch::{finish_interaction, secure_of, InteractionClaim};
use crate::logup::{xor_fraction, xor_fractions, Fraction};
use crate::lookup::{LookupElements, N_COMMON_POWERS};
use crate::tree_builder::{committed, TreeBuilder};
use vstd::arithmetic::power2::pow2;
use vstd::prelude::*;

verus! {

pub const N_BITS: u32 = 9;

pub const LOG_SIZE: u32 = 18;

/// Counts lookups into the table.
pub struct CudaClaimGenerator {
    pub mults: Uint32Vec,
}

impl CudaClaimGenerator {
    /// There is one counter for each row of the table.
    pub open spec fn wf(self) -> bool {
        self.mults@.len() == pow2(LOG_SIZE as nat)
    }

    /// Returns a generator with all counters at zero.
    pub fn new() -> (r: Self)
        ensures
            r.wf(),
            r.mults@ == filled(0, pow2(LOG_SIZE as nat)),
    {
        CudaClaimGenerator { mults: Uint32Vec::new_zeroes(crate::bits::exp2(LOG_SIZE)) }
    }

    /// Counts the rows that the batches look up, with as many rows as the first batch has.
    pub fn add_cuda_inputs(&mut self, cuda_inputs: &Vec<Vec<BaseFieldVec>>)
        requires
            old(self).wf(),
            are_even_xor_inputs(N_BITS, batches(cuda_inputs@)),
        ensures
            final(self).wf(),
            final(self).mults@ == counted(
                old(self).mults@,
                |i: int|
                    batch_occurrences(
                        pair_ranges(N_BITS),
                        pairs(batches(cuda_inputs@)),
                        batches(cuda_inputs@)[0][0].len(),
                        i,
                    ) as int,
            ),
    {
        count_even_pairs(&mut self.mults, N_BITS, cuda_inputs);
    }
}

/// Writes the interaction trace.
pub struct CudaInteractionClaimGenerator {
    pub mults: Uint32Vec,
}

impl CudaInteractionClaimGenerator {
    /// There is one canonical counter for each row of the table.
    pub open spec fn wf(self) -> bool {
        &&& self.mults@.len() == pow2(LOG_SIZE as nat)
        &&& is_canonical(self.mults@)
    }

    /// Returns what the rows of the table contribute to the interaction trace.
    pub fn fractions(&self, lookup_elements: &LookupElements) -> (r: Vec<Fraction>)
        requires
            self.wf(),
            lookup_elements.wf(),
            3 <= lookup_elements.alpha_powers@.len() <= N_COMMON_POWERS,
        ensures
            r@.len() == pow2(LOG_SIZE as nat),
            forall|i: int|
                0 <= i < r@.len() ==> #[trigger] r@[i] == xor_fraction(
                    *lookup_elements,
                    N_BITS,
                    self.mults@,
                    i,
                ),
    {
        xor_fractions(lookup_elements, N_BITS, &self.mults.to_vec())
    }

    /// Commits the columns that the fractions sum up to.
    pub fn write_interaction_trace(
        self,
        tree_builder: &mut TreeBuilder,
        cols: Vec<BaseFieldVec>,
        claimed_sum: [u32; 4],
    ) -> (r: InteractionClaim)
        requires
            self.wf(),
            is_shape(columns(cols@), 4, pow2(LOG_SIZE as nat)),
        ensures
            final(tree_builder)@ == old(tree_builder)@ + committed(LOG_SIZE, columns(cols@)),
            r.claimed_sum == secure_of(claimed_sum@),
    {
        finish_interaction(tree_builder, cols, LOG_SIZE, claimed_sum)
    }
}

} // verus!

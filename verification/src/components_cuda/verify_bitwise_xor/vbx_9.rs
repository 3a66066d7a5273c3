//! The table of the exclusive or of two 9-bit numbers.

use crate::column::{batches, columns, filled, is_shape, BaseFieldVec};
use crate::components_cuda::range_check::base::{all_occurrences, counted};
use crate::launch::TableClaim;
use crate::launch::{secure_of, InteractionClaim};
use crate::tree_builder::{committed, TreeBuilder};
use super::base::{
    are_xor_inputs, pair_ranges, pairs, CudaInteractionClaimGeneratorCuda,
    CudaVerifyBitwiseXorGenerator,
};
use vstd::arithmetic::power2::pow2;
use vstd::prelude::*;

verus! {

pub const N_BITS: u32 = 9;

pub const LOG_SIZE: u32 = 18;

/// Counts lookups into the table.
pub struct CudaClaimGenerator(pub CudaVerifyBitwiseXorGenerator);

impl CudaClaimGenerator {
    /// There are counters for the rows of this table.
    pub open spec fn wf(self) -> bool {
        &&& self.0.wf()
        &&& self.0.n_bits == N_BITS
    }

    /// Returns a generator with all counters at zero.
    pub fn new() -> (r: Self)
        ensures
            r.wf(),
            r.0.multiplicities@ == filled(0, pow2(LOG_SIZE as nat)),
    {
        CudaClaimGenerator(CudaVerifyBitwiseXorGenerator::new(N_BITS))
    }

    /// Counts the rows that the batches look up.
    pub fn add_cuda_inputs(&mut self, cuda_inputs: &Vec<Vec<BaseFieldVec>>)
        requires
            old(self).wf(),
            are_xor_inputs(N_BITS, batches(cuda_inputs@)),
        ensures
            final(self).wf(),
            final(self).0.multiplicities@ == counted(
                old(self).0.multiplicities@,
                |i: int|
                    all_occurrences(
                        pair_ranges(N_BITS),
                        pairs(batches(cuda_inputs@)),
                        i,
                    ) as int,
            ),
    {
        self.0.add_inputs(cuda_inputs);
    }

    /// Commits the column of counters.
    pub fn write_trace_cuda(self, tree_builder: &mut TreeBuilder) -> (r: (
        TableClaim,
        InteractionClaimGeneratorCuda,
    ))
        requires
            self.wf(),
        ensures
            r.1.wf(),
            r.1.0.multiplicities@ == self.0.multiplicities@,
            final(tree_builder)@ == old(tree_builder)@ + committed(
                LOG_SIZE,
                seq![self.0.multiplicities@],
            ),
    {
        (TableClaim {}, InteractionClaimGeneratorCuda(self.0.write_trace_cuda(tree_builder)))
    }
}

impl Default for CudaClaimGenerator {
    fn default() -> (r: Self)
        ensures
            r.wf(),
            r.0.multiplicities@ == filled(0, pow2(LOG_SIZE as nat)),
    {
        CudaClaimGenerator::new()
    }
}

/// Writes the interaction trace.
pub struct InteractionClaimGeneratorCuda(pub CudaInteractionClaimGeneratorCuda);

impl InteractionClaimGeneratorCuda {
    /// There are counters for the rows of this table.
    pub open spec fn wf(self) -> bool {
        &&& self.0.wf()
        &&& self.0.n_bits == N_BITS
    }

    /// Commits the columns that the interaction kernel filled.
    pub fn write_interaction_trace(
        self,
        tree_builder: &mut TreeBuilder,
        cols: Vec<BaseFieldVec>,
        claimed_sum: [u32; 4],
    ) -> (r: InteractionClaim)
        requires
            self.wf(),
            is_shape(columns(cols@), 4, pow2(LOG_SIZE as nat)),
        ensures
            final(tree_builder)@ == old(tree_builder)@ + committed(LOG_SIZE, columns(cols@)),
            r.claimed_sum == secure_of(claimed_sum@),
    {
        InteractionClaim {
            claimed_sum: self.0.write_interaction_trace(tree_builder, cols, claimed_sum),
        }
    }
}

} // verus!

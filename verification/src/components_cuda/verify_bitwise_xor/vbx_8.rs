//! The table of the exclusive or of two 8-bit numbers, which two relations look into.
//!
//! The second relation keeps counters of its own over the same rows. The two are written together:
//! two columns of counters, and one secure column for the pair.

use crate::column::{batches, columns, filled, is_shape, zero_columns, BaseFieldVec, Uint32Vec};
use crate::components_cuda::range_check::base::{all_occurrences, counted};
use crate::launch::TableClaim;
use crate::launch::{finish_interaction, secure_of, InteractionClaim};
use crate::tree_builder::{committed, TreeBuilder};
use super::base::{are_xor_inputs, pair_ranges, pairs, CudaVerifyBitwiseXorGenerator};
use vstd::arithmetic::power2::pow2;
use vstd::prelude::*;

verus! {

pub const N_BITS: u32 = 8;

pub const LOG_SIZE: u32 = 16;

/// Counts lookups into the table by one of the relations.
pub struct CudaClaimGenerator(pub CudaVerifyBitwiseXorGenerator);

impl CudaClaimGenerator {
    /// There are counters for the rows of this table.
    pub open spec fn wf(self) -> bool {
        &&& self.0.wf()
        &&& self.0.n_bits == N_BITS
    }

    /// Returns a generator with all counters at zero.
    pub fn new() -> (r: Self)
        ensures
            r.wf(),
            r.0.multiplicities@ == filled(0, pow2(LOG_SIZE as nat)),
    {
        CudaClaimGenerator(CudaVerifyBitwiseXorGenerator::new(N_BITS))
    }

    /// Counts the rows that the batches look up.
    pub fn add_cuda_inputs(&mut self, cuda_inputs: &Vec<Vec<BaseFieldVec>>)
        requires
            old(self).wf(),
            are_xor_inputs(N_BITS, batches(cuda_inputs@)),
        ensures
            final(self).wf(),
            final(self).0.multiplicities@ == counted(
                old(self).0.multiplicities@,
                |i: int|
                    all_occurrences(
                        pair_ranges(N_BITS),
                        pairs(batches(cuda_inputs@)),
                        i,
                    ) as int,
            ),
    {
        self.0.add_inputs(cuda_inputs);
    }

    /// Commits the counters of this relation, then those of the second one.
    pub fn write_trace_cuda(
        self,
        vbx_8_b: &CudaClaimGenerator,
        tree_builder: &mut TreeBuilder,
    ) -> (r: (TableClaim, CudaInteractionClaimGenerator))
        requires
            self.wf(),
            vbx_8_b.wf(),
        ensures
            r.1.wf(),
            r.1.multiplicities_0@ == self.0.multiplicities@,
            r.1.multiplicities_1@ == vbx_8_b.0.multiplicities@,
            final(tree_builder)@ == old(tree_builder)@ + committed(
                LOG_SIZE,
                seq![self.0.multiplicities@, vbx_8_b.0.multiplicities@],
            ),
    {
        let mut cols: Vec<BaseFieldVec> = Vec::new();
        cols.push(self.0.multiplicities.duplicate());
        cols.push(vbx_8_b.0.multiplicities.duplicate());
        assert(columns(cols@) =~= seq![self.0.multiplicities@, vbx_8_b.0.multiplicities@]);
        tree_builder.extend_evals(LOG_SIZE, cols);
        (TableClaim {}, CudaInteractionClaimGenerator {
            multiplicities_0: self.0.multiplicities,
            multiplicities_1: vbx_8_b.0.multiplicities.duplicate(),
            log_size: LOG_SIZE,
        })
    }
}

impl Default for CudaClaimGenerator {
    fn default() -> (r: Self)
        ensures
            r.wf(),
            r.0.multiplicities@ == filled(0, pow2(LOG_SIZE as nat)),
    {
        CudaClaimGenerator::new()
    }
}

/// Writes the interaction trace of the pair of relations.
pub struct CudaInteractionClaimGenerator {
    pub multiplicities_0: Uint32Vec,
    pub multiplicities_1: Uint32Vec,
    pub log_size: u32,
}

impl CudaInteractionClaimGenerator {
    /// Each relation has one counter for each row of the table.
    pub open spec fn wf(self) -> bool {
        &&& self.log_size == LOG_SIZE
        &&& self.multiplicities_0@.len() == pow2(LOG_SIZE as nat)
        &&& self.multiplicities_1@.len() == pow2(LOG_SIZE as nat)
    }

    /// Returns the columns of zeroes that the interaction kernel fills.
    pub fn interaction_columns(&self) -> (cols: Vec<BaseFieldVec>)
        requires
            self.wf(),
        ensures
            columns(cols@) == zero_columns(4, pow2(LOG_SIZE as nat)),
    {
        crate::launch::interaction_columns(1, self.log_size)
    }

    /// Commits the columns that the interaction kernel filled.
    pub fn write_interaction_trace(
        self,
        tree_builder: &mut TreeBuilder,
        cols: Vec<BaseFieldVec>,
        claimed_sum: [u32; 4],
    ) -> (r: InteractionClaim)
        requires
            self.wf(),
            is_shape(columns(cols@), 4, pow2(LOG_SIZE as nat)),
        ensures
            final(tree_builder)@ == old(tree_builder)@ + committed(LOG_SIZE, columns(cols@)),
            r.claimed_sum == secure_of(claimed_sum@),
    {
        finish_interaction(tree_builder, cols, self.log_size, claimed_sum)
    }
}

} // verus!

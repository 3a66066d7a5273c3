//! The table of 11-bit numbers.

use crate::column::{batches, columns, filled, is_canonical, is_shape, BaseFieldVec};
use crate::components_cuda::range_check::base::{all_occurrences, are_all_inputs, counted};
use crate::components_cuda::range_check::tables::{lemma_table_bits, rc_11_ranges};
use crate::components_cuda::range_check_cuda::{
    unpacked, CudaInteractionClaimGenerator, CudaRangeCheckGenerator,
};
use crate::launch::TableClaim;
use crate::launch::{secure_of, InteractionClaim};
use crate::logup::{tuple_fraction, Fraction};
use crate::lookup::{LookupElements, N_COMMON_POWERS};
use crate::tree_builder::{committed, TreeBuilder};
use vstd::arithmetic::power2::pow2;
use vstd::prelude::*;

verus! {

pub const LOG_SIZE: u32 = 11;

/// Counts lookups into the table.
pub struct CudaClaimGenerator(pub CudaRangeCheckGenerator<1>);

impl CudaClaimGenerator {
    /// There are counters for the rows of this table.
    pub open spec fn wf(self) -> bool {
        &&& self.0.wf()
        &&& self.0.ranges@ == rc_11_ranges()
    }

    /// Returns a generator with all counters at zero.
    pub fn new_rc_11() -> (r: Self)
        ensures
            r.wf(),
            r.0.multiplicities@ == filled(0, pow2(LOG_SIZE as nat)),
    {
        let bits: [u32; 1] = [11];
        assert(bits@ =~= rc_11_ranges());
        proof {
            lemma_table_bits();
        }
        CudaClaimGenerator(CudaRangeCheckGenerator::new(bits))
    }

    /// Counts the numbers in all batches.
    pub fn add_cuda_inputs(&mut self, cuda_inputs: &Vec<Vec<BaseFieldVec>>)
        requires
            old(self).wf(),
            are_all_inputs(rc_11_ranges(), batches(cuda_inputs@)),
        ensures
            final(self).wf(),
            final(self).0.multiplicities@ == counted(
                old(self).0.multiplicities@,
                |i: int| all_occurrences(rc_11_ranges(), batches(cuda_inputs@), i) as int,
            ),
    {
        self.0.add_each(cuda_inputs);
    }

    /// Commits the column of counters.
    pub fn write_trace(&self, tree_builder: &mut TreeBuilder) -> (r: (
        TableClaim,
        InteractionClaimGenerator,
    ))
        requires
            self.wf(),
        ensures
            r.1.wf(),
            unpacked(r.1.0.multiplicities@) == self.0.multiplicities@,
            final(tree_builder)@ == old(tree_builder)@ + committed(
                LOG_SIZE,
                seq![self.0.multiplicities@],
            ),
    {
        proof {
            lemma_table_bits();
        }
        (TableClaim {}, InteractionClaimGenerator(self.0.write_trace(tree_builder)))
    }
}

/// Writes the interaction trace.
pub struct InteractionClaimGenerator(pub CudaInteractionClaimGenerator<1>);

impl InteractionClaimGenerator {
    /// There are counters for the rows of this table.
    pub open spec fn wf(self) -> bool {
        &&& self.0.wf()
        &&& self.0.ranges@ == rc_11_ranges()
    }

    /// Returns what the rows of the table contribute to the interaction trace.
    pub fn fractions(&self, lookup_elements: &LookupElements) -> (r: Vec<Fraction>)
        requires
            self.wf(),
            lookup_elements.wf(),
            1 <= lookup_elements.alpha_powers@.len() <= N_COMMON_POWERS,
            is_canonical(unpacked(self.0.multiplicities@)),
        ensures
            r@.len() == pow2(LOG_SIZE as nat),
            forall|i: int|
                0 <= i < r@.len() ==> #[trigger] r@[i] == tuple_fraction(
                    *lookup_elements,
                    rc_11_ranges(),
                    unpacked(self.0.multiplicities@),
                    i,
                ),
    {
        proof {
            lemma_table_bits();
        }
        self.0.fractions(lookup_elements)
    }

    /// Commits the columns that the fractions sum up to.
    pub fn write_interaction_trace(
        &self,
        tree_builder: &mut TreeBuilder,
        cols: Vec<BaseFieldVec>,
        claimed_sum: [u32; 4],
    ) -> (r: InteractionClaim)
        requires
            self.wf(),
            is_shape(columns(cols@), 4, pow2(LOG_SIZE as nat)),
        ensures
            final(tree_builder)@ == old(tree_builder)@ + committed(LOG_SIZE, columns(cols@)),
            r.claimed_sum == secure_of(claimed_sum@),
    {
        proof {
            lemma_table_bits();
        }
        InteractionClaim {
            claimed_sum: self.0.write_interaction_trace(tree_builder, cols, claimed_sum),
        }
    }
}

} // verus!

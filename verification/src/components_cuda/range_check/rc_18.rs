//! The table of 18-bit numbers, which two relations look into.

use crate::column::{batches, columns, is_shape, zero_columns, BaseFieldVec};
use crate::launch::TableClaim;
use crate::launch::{secure_of, InteractionClaim};
use crate::lookup::{is_per_relation, LookupElements};
use crate::tree_builder::{committed, TreeBuilder};
use super::base::{
    are_all_inputs, fed_relation, CudaMultiRelationInteractionGen,
    CudaMultiRelationRangeCheckGenerator,
};
use vstd::arithmetic::power2::pow2;
use vstd::prelude::*;

verus! {

pub const N_RELATIONS: usize = 2;

pub const LOG_SIZE: u32 = 18;

/// The numbers of bits of the segments.
pub open spec fn ranges() -> Seq<u32> {
    seq![LOG_SIZE]
}

/// The constants that identify the relations.
pub open spec fn relation_constants() -> Seq<u32> {
    seq![1109051422u32, 1424798916u32]
}

/// Counts lookups into the table.
pub struct CudaClaimGenerator(pub CudaMultiRelationRangeCheckGenerator<1, N_RELATIONS>);

impl CudaClaimGenerator {
    /// There are counters for the rows of this table.
    pub open spec fn wf(self) -> bool {
        &&& self.0.wf()
        &&& self.0.ranges@ == ranges()
    }

    /// The counters of the relations.
    pub open spec fn counters(self) -> Seq<Seq<u32>> {
        columns(self.0.multiplicities@)
    }

    /// Returns a generator with all counters at zero.
    pub fn new() -> (r: Self)
        ensures
            r.wf(),
            r.0.log_size == LOG_SIZE,
            r.counters() == zero_columns(N_RELATIONS as nat, pow2(LOG_SIZE as nat)),
    {
        let bits: [u32; 1] = [LOG_SIZE];
        assert(bits@ =~= ranges());
        proof {
            lemma_total_bits();
        }
        CudaClaimGenerator(CudaMultiRelationRangeCheckGenerator::new(bits))
    }

    /// Counts, for one relation, the numbers in all batches.
    pub fn add_cuda_inputs_for_relation(
        &mut self,
        cuda_inputs: &Vec<Vec<BaseFieldVec>>,
        relation_index: usize,
    )
        requires
            old(self).wf(),
            relation_index < N_RELATIONS,
            are_all_inputs(ranges(), batches(cuda_inputs@)),
        ensures
            final(self).wf(),
            final(self).counters() == fed_relation(
                old(self).counters(),
                ranges(),
                batches(cuda_inputs@),
                relation_index as int,
            ),
    {
        self.0.add_each_for_relation(cuda_inputs, relation_index);
    }

    /// Commits one column of counters for each relation.
    pub fn write_trace_cuda(self, tree_builder: &mut TreeBuilder) -> (r: (
        TableClaim,
        InteractionClaimGeneratorCuda,
    ))
        requires
            self.wf(),
        ensures
            r.1.wf(),
            columns(r.1.0.multiplicities@) == self.counters(),
            final(tree_builder)@ == old(tree_builder)@ + committed(LOG_SIZE, self.counters()),
    {
        proof {
            lemma_total_bits();
        }
        let constants: [u32; 2] = [1109051422, 1424798916];
        assert(constants@ =~= relation_constants());
        (
            TableClaim {},
            InteractionClaimGeneratorCuda(self.0.write_trace_cuda(tree_builder, constants)),
        )
    }

    /// Returns the logarithm of the number of rows of the table.
    pub fn log_size(&self) -> (n: u32)
        requires
            self.wf(),
        ensures
            n == LOG_SIZE,
    {
        proof {
            lemma_total_bits();
        }
        self.0.log_size()
    }

    /// Adds counters that were kept elsewhere, relation by relation.
    pub fn merge_simd_multiplicities(&mut self, simd_mults: &Vec<Vec<u32>>)
        requires
            old(self).wf(),
            simd_mults@.len() == N_RELATIONS,
            forall|i: int|
                0 <= i < simd_mults@.len() ==> (#[trigger] simd_mults@[i])@.len() == pow2(
                    LOG_SIZE as nat,
                ),
        ensures
            final(self).wf(),
            forall|r: int|
                0 <= r < N_RELATIONS ==> (#[trigger] final(self).counters()[r])
                    == super::base::counted(
                    old(self).counters()[r],
                    |i: int| simd_mults@[r]@[i] as int,
                ),
    {
        proof {
            lemma_total_bits();
        }
        self.0.merge_simd_multiplicities(simd_mults);
    }

    /// Returns the counters of one relation.
    pub fn relation_multiplicities(&self, relation_index: usize) -> (r: Vec<u32>)
        requires
            self.wf(),
            relation_index < N_RELATIONS,
        ensures
            r@ == self.counters()[relation_index as int],
    {
        self.0.multiplicities[relation_index].to_vec()
    }
}

impl Default for CudaClaimGenerator {
    fn default() -> (r: Self)
        ensures
            r.wf(),
            r.counters() == zero_columns(N_RELATIONS as nat, pow2(LOG_SIZE as nat)),
    {
        CudaClaimGenerator::new()
    }
}

/// The table's tuples have as many bits as its only segment.
pub proof fn lemma_total_bits()
    ensures
        super::base::total_bits(ranges()) == LOG_SIZE,
{
    reveal_with_fuel(super::base::total_bits, 2);
    assert(ranges().drop_last() =~= Seq::<u32>::empty());
}

/// Writes the interaction trace.
pub struct InteractionClaimGeneratorCuda(pub CudaMultiRelationInteractionGen<1, N_RELATIONS>);

impl InteractionClaimGeneratorCuda {
    /// There are counters and constants for the relations of this table.
    pub open spec fn wf(self) -> bool {
        &&& self.0.wf()
        &&& self.0.ranges@ == ranges()
        &&& self.0.relation_constants@ == relation_constants()
    }

    /// Returns the elements that the interaction kernel is handed, relation by relation.
    pub fn relation_elements(&self, common: &LookupElements) -> (ms: Vec<LookupElements>)
        requires
            self.wf(),
            common.is_common(),
        ensures
            ms@.len() == N_RELATIONS,
            forall|i: int|
                0 <= i < N_RELATIONS ==> (#[trigger] ms@[i]).wf() && is_per_relation(
                    ms@[i],
                    *common,
                    relation_constants()[i],
                    1,
                ),
    {
        self.0.relation_elements(common)
    }

    /// Commits the columns that the interaction kernel filled: one secure column for each pair of
    /// relations.
    pub fn write_interaction_trace(
        self,
        tree_builder: &mut TreeBuilder,
        cols: Vec<BaseFieldVec>,
        claimed_sum: [u32; 4],
    ) -> (r: InteractionClaim)
        requires
            self.wf(),
            is_shape(columns(cols@), 4 * (N_RELATIONS / 2) as nat, pow2(LOG_SIZE as nat)),
        ensures
            final(tree_builder)@ == old(tree_builder)@ + committed(LOG_SIZE, columns(cols@)),
            r.claimed_sum == secure_of(claimed_sum@),
    {
        proof {
            lemma_total_bits();
        }
        InteractionClaim {
            claimed_sum: self.0.write_interaction_trace(tree_builder, cols, claimed_sum),
        }
    }
}

} // verus!

//! The table of pairs of a 4-bit and a 3-bit number.

use crate::column::{batches, columns, filled, is_shape, BaseFieldVec};
use crate::launch::TableClaim;
use crate::launch::{secure_of, InteractionClaim};
use crate::lookup::{is_per_relation, LookupElements};
use crate::tree_builder::{committed, TreeBuilder};
use super::base::{
    all_occurrences, are_all_inputs, counted, CudaInteractionClaimGeneratorCuda,
    CudaRangeCheckGenerator,
};
use vstd::arithmetic::power2::pow2;
use vstd::prelude::*;

verus! {

pub const LOG_SIZE: u32 = 7;

/// The constant that identifies the relation.
pub const RELATION_CONSTANT: u32 = 1567323731;

/// The numbers of bits of the segments.
pub open spec fn ranges() -> Seq<u32> {
    seq![4u32, 3u32]
}

/// Counts lookups into the table.
pub struct CudaClaimGenerator(pub CudaRangeCheckGenerator<2>);

impl CudaClaimGenerator {
    /// There are counters for the rows of this table.
    pub open spec fn wf(self) -> bool {
        &&& self.0.wf()
        &&& self.0.ranges@ == ranges()
    }

    /// Returns a generator with all counters at zero.
    pub fn new() -> (r: Self)
        ensures
            r.wf(),
            r.0.multiplicities@ == filled(0, pow2(LOG_SIZE as nat)),
    {
        let bits: [u32; 2] = [4, 3];
        assert(bits@ =~= ranges());
        proof {
            lemma_total_bits();
        }
        CudaClaimGenerator(CudaRangeCheckGenerator::new(bits))
    }

    /// Counts the pairs in all batches.
    pub fn add_cuda_inputs(&mut self, cuda_inputs: &Vec<Vec<BaseFieldVec>>)
        requires
            old(self).wf(),
            are_all_inputs(ranges(), batches(cuda_inputs@)),
        ensures
            final(self).wf(),
            final(self).0.multiplicities@ == counted(
                old(self).0.multiplicities@,
                |i: int| all_occurrences(ranges(), batches(cuda_inputs@), i) as int,
            ),
    {
        self.0.add_each(cuda_inputs);
    }

    /// Commits the column of counters.
    pub fn write_trace_cuda(self, tree_builder: &mut TreeBuilder) -> (r: (
        TableClaim,
        InteractionClaimGeneratorCuda,
    ))
        requires
            self.wf(),
        ensures
            r.1.wf(),
            r.1.0.multiplicities@ == self.0.multiplicities@,
            final(tree_builder)@ == old(tree_builder)@ + committed(
                LOG_SIZE,
                seq![self.0.multiplicities@],
            ),
    {
        proof {
            lemma_total_bits();
        }
        (TableClaim {}, InteractionClaimGeneratorCuda(self.0.write_trace_cuda(tree_builder)))
    }
}

impl Default for CudaClaimGenerator {
    fn default() -> (r: Self)
        ensures
            r.wf(),
            r.0.multiplicities@ == filled(0, pow2(LOG_SIZE as nat)),
    {
        CudaClaimGenerator::new()
    }
}

/// The table's pairs have seven bits.
pub proof fn lemma_total_bits()
    ensures
        super::base::total_bits(ranges()) == LOG_SIZE,
{
    reveal_with_fuel(super::base::total_bits, 3);
    assert(ranges().drop_last() =~= seq![4u32]);
    assert(seq![4u32].drop_last() =~= Seq::<u32>::empty());
}

/// Writes the interaction trace.
pub struct InteractionClaimGeneratorCuda(pub CudaInteractionClaimGeneratorCuda<2>);

impl InteractionClaimGeneratorCuda {
    /// There are counters for the rows of this table.
    pub open spec fn wf(self) -> bool {
        &&& self.0.wf()
        &&& self.0.ranges@ == ranges()
    }

    /// Returns the elements that the interaction kernel is handed.
    pub fn relation_elements(&self, common: &LookupElements) -> (m: LookupElements)
        requires
            self.wf(),
            common.is_common(),
        ensures
            m.wf(),
            is_per_relation(m, *common, RELATION_CONSTANT, 2),
    {
        self.0.relation_elements(common, RELATION_CONSTANT)
    }

    /// Commits the columns that the interaction kernel filled.
    pub fn write_interaction_trace(
        self,
        tree_builder: &mut TreeBuilder,
        cols: Vec<BaseFieldVec>,
        claimed_sum: [u32; 4],
    ) -> (r: InteractionClaim)
        requires
            self.wf(),
            is_shape(columns(cols@), 4, pow2(LOG_SIZE as nat)),
        ensures
            final(tree_builder)@ == old(tree_builder)@ + committed(LOG_SIZE, columns(cols@)),
            r.claimed_sum == secure_of(claimed_sum@),
    {
        proof {
            lemma_total_bits();
        }
        InteractionClaim {
            claimed_sum: self.0.write_interaction_trace(tree_builder, cols, claimed_sum),
        }
    }
}

/// A pair is numbered by its bits, those of the first number before the three of the second.
pub proof fn law_pairs_are_numbered_by_their_bits(a: u32, b: u32)
    ensures
        super::base::table_index(ranges(), seq![a, b]) == 8 * a + b,
{
    vstd::arithmetic::power2::lemma2_to64();
    let none = Seq::<u32>::empty();
    super::tables::lemma_one_more_segment(none, none, 4, a);
    super::tables::lemma_one_more_segment(none.push(4), none.push(a), 3, b);
    assert(ranges() =~= none.push(4).push(3));
    assert(seq![a, b] =~= none.push(a).push(b));
}

} // verus!

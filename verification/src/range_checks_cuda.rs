//! The range checks: how often each tuple of each table was looked up.

use crate::column::{columns, filled, is_shape, zero_columns};
use crate::components_cuda::range_check::base::{
    total_bits, CudaInteractionClaimGeneratorCuda, CudaMultiRelationInteractionGen,
    CudaMultiRelationRangeCheckGenerator, CudaRangeCheckGenerator,
};
use crate::components_cuda::range_check::tables::{
    lemma_table_bits, rc_11_ranges, rc_12_ranges, rc_3_3_3_3_3_ranges, rc_3_6_6_3_ranges,
    rc_4_4_4_4_ranges, rc_4_4_ranges, rc_6_ranges, rc_7_2_5_ranges, rc_8_ranges, rc_9_9_ranges,
};
use crate::components_cuda::range_check::{rc_18, rc_20, rc_4_3};
use crate::launch::{secure_of, InteractionClaim, InteractionOutcome, TableClaim};
use crate::lookup::RelationIds;
use crate::tree_builder::{committed, Committed, TreeBuilder};
use vstd::arithmetic::power2::pow2;
use vstd::prelude::*;

verus! {

/// What is claimed of each interaction trace.
#[derive(Clone, Copy, Debug)]
pub struct RangeChecksInteractionClaim {
    pub rc_6: InteractionClaim,
    pub rc_8: InteractionClaim,
    pub rc_11: InteractionClaim,
    pub rc_12: InteractionClaim,
    pub rc_18: InteractionClaim,
    pub rc_20: InteractionClaim,
    pub rc_4_3: InteractionClaim,
    pub rc_4_4: InteractionClaim,
    pub rc_9_9: InteractionClaim,
    pub rc_7_2_5: InteractionClaim,
    pub rc_3_6_6_3: InteractionClaim,
    pub rc_4_4_4_4: InteractionClaim,
    pub rc_3_3_3_3_3: InteractionClaim,
}

/// What is claimed of each table.
#[derive(Clone, Copy, Debug, PartialEq, Eq, Structural)]
pub struct RangeChecksClaim {
    pub rc_6: TableClaim,
    pub rc_8: TableClaim,
    pub rc_11: TableClaim,
    pub rc_12: TableClaim,
    pub rc_18: TableClaim,
    pub rc_20: TableClaim,
    pub rc_4_3: TableClaim,
    pub rc_4_4: TableClaim,
    pub rc_9_9: TableClaim,
    pub rc_7_2_5: TableClaim,
    pub rc_3_6_6_3: TableClaim,
    pub rc_4_4_4_4: TableClaim,
    pub rc_3_3_3_3_3: TableClaim,
}

/// Counts the lookups into all tables.
pub struct RangeChecksCudaClaimGenerator {
    pub rc_6_trace_generator: CudaRangeCheckGenerator<1>,
    pub rc_8_trace_generator: CudaRangeCheckGenerator<1>,
    pub rc_11_trace_generator: CudaRangeCheckGenerator<1>,
    pub rc_12_trace_generator: CudaRangeCheckGenerator<1>,
    pub rc_18_trace_generator: rc_18::CudaClaimGenerator,
    pub rc_20_trace_generator: rc_20::CudaClaimGenerator,
    pub rc_4_3_trace_generator: rc_4_3::CudaClaimGenerator,
    pub rc_4_4_trace_generator: CudaRangeCheckGenerator<2>,
    pub rc_9_9_trace_generator: CudaMultiRelationRangeCheckGenerator<2, 8>,
    pub rc_7_2_5_trace_generator: CudaRangeCheckGenerator<3>,
    pub rc_3_6_6_3_trace_generator: CudaRangeCheckGenerator<4>,
    pub rc_4_4_4_4_trace_generator: CudaRangeCheckGenerator<4>,
    pub rc_3_3_3_3_3_trace_generator: CudaRangeCheckGenerator<5>,
}

impl RangeChecksCudaClaimGenerator {
    /// Every table has counters for its own tuples.
    pub open spec fn wf(self) -> bool {
        &&& self.rc_6_trace_generator.wf()
        &&& self.rc_6_trace_generator.ranges@ == rc_6_ranges()
        &&& self.rc_8_trace_generator.wf()
        &&& self.rc_8_trace_generator.ranges@ == rc_8_ranges()
        &&& self.rc_11_trace_generator.wf()
        &&& self.rc_11_trace_generator.ranges@ == rc_11_ranges()
        &&& self.rc_12_trace_generator.wf()
        &&& self.rc_12_trace_generator.ranges@ == rc_12_ranges()
        &&& self.rc_18_trace_generator.wf()
        &&& self.rc_20_trace_generator.wf()
        &&& self.rc_4_3_trace_generator.wf()
        &&& self.rc_4_4_trace_generator.wf()
        &&& self.rc_4_4_trace_generator.ranges@ == rc_4_4_ranges()
        &&& self.rc_9_9_trace_generator.wf()
        &&& self.rc_9_9_trace_generator.ranges@ == rc_9_9_ranges()
        &&& self.rc_7_2_5_trace_generator.wf()
        &&& self.rc_7_2_5_trace_generator.ranges@ == rc_7_2_5_ranges()
        &&& self.rc_3_6_6_3_trace_generator.wf()
        &&& self.rc_3_6_6_3_trace_generator.ranges@ == rc_3_6_6_3_ranges()
        &&& self.rc_4_4_4_4_trace_generator.wf()
        &&& self.rc_4_4_4_4_trace_generator.ranges@ == rc_4_4_4_4_ranges()
        &&& self.rc_3_3_3_3_3_trace_generator.wf()
        &&& self.rc_3_3_3_3_3_trace_generator.ranges@ == rc_3_3_3_3_3_ranges()
    }

    /// Returns a generator with all counters at zero.
    pub fn new() -> (r: Self)
        ensures
            r.wf(),
            r.rc_6_trace_generator.multiplicities@ == filled(0, pow2(6)),
            r.rc_8_trace_generator.multiplicities@ == filled(0, pow2(8)),
            r.rc_11_trace_generator.multiplicities@ == filled(0, pow2(11)),
            r.rc_12_trace_generator.multiplicities@ == filled(0, pow2(12)),
            r.rc_18_trace_generator.counters() == zero_columns(2, pow2(18)),
            r.rc_20_trace_generator.counters() == zero_columns(8, pow2(20)),
            r.rc_4_3_trace_generator.0.multiplicities@ == filled(0, pow2(7)),
            r.rc_4_4_trace_generator.multiplicities@ == filled(0, pow2(8)),
            columns(r.rc_9_9_trace_generator.multiplicities@) == zero_columns(8, pow2(18)),
            r.rc_7_2_5_trace_generator.multiplicities@ == filled(0, pow2(14)),
            r.rc_3_6_6_3_trace_generator.multiplicities@ == filled(0, pow2(18)),
            r.rc_4_4_4_4_trace_generator.multiplicities@ == filled(0, pow2(16)),
            r.rc_3_3_3_3_3_trace_generator.multiplicities@ == filled(0, pow2(15)),
    {
        proof {
            lemma_table_bits();
        }
        let bits_6: [u32; 1] = [6];
        assert(bits_6@ =~= rc_6_ranges());
        let bits_8: [u32; 1] = [8];
        assert(bits_8@ =~= rc_8_ranges());
        let bits_11: [u32; 1] = [11];
        assert(bits_11@ =~= rc_11_ranges());
        let bits_12: [u32; 1] = [12];
        assert(bits_12@ =~= rc_12_ranges());
        let bits_4_4: [u32; 2] = [4, 4];
        assert(bits_4_4@ =~= rc_4_4_ranges());
        let bits_9_9: [u32; 2] = [9, 9];
        assert(bits_9_9@ =~= rc_9_9_ranges());
        let bits_7_2_5: [u32; 3] = [7, 2, 5];
        assert(bits_7_2_5@ =~= rc_7_2_5_ranges());
        let bits_3_6_6_3: [u32; 4] = [3, 6, 6, 3];
        assert(bits_3_6_6_3@ =~= rc_3_6_6_3_ranges());
        let bits_4_4_4_4: [u32; 4] = [4, 4, 4, 4];
        assert(bits_4_4_4_4@ =~= rc_4_4_4_4_ranges());
        let bits_3_3_3_3_3: [u32; 5] = [3, 3, 3, 3, 3];
        assert(bits_3_3_3_3_3@ =~= rc_3_3_3_3_3_ranges());
        RangeChecksCudaClaimGenerator {
            rc_6_trace_generator: CudaRangeCheckGenerator::new(bits_6),
            rc_8_trace_generator: CudaRangeCheckGenerator::new(bits_8),
            rc_11_trace_generator: CudaRangeCheckGenerator::new(bits_11),
            rc_12_trace_generator: CudaRangeCheckGenerator::new(bits_12),
            rc_18_trace_generator: rc_18::CudaClaimGenerator::new(),
            rc_20_trace_generator: rc_20::CudaClaimGenerator::new(),
            rc_4_3_trace_generator: rc_4_3::CudaClaimGenerator::new(),
            rc_4_4_trace_generator: CudaRangeCheckGenerator::new(bits_4_4),
            rc_9_9_trace_generator: CudaMultiRelationRangeCheckGenerator::new(bits_9_9),
            rc_7_2_5_trace_generator: CudaRangeCheckGenerator::new(bits_7_2_5),
            rc_3_6_6_3_trace_generator: CudaRangeCheckGenerator::new(bits_3_6_6_3),
            rc_4_4_4_4_trace_generator: CudaRangeCheckGenerator::new(bits_4_4_4_4),
            rc_3_3_3_3_3_trace_generator: CudaRangeCheckGenerator::new(bits_3_3_3_3_3),
        }
    }

    /// The columns of counters of all tables, in the order in which they are committed.
    pub open spec fn columns_to_commit(self) -> Seq<Committed> {
        committed(6, seq![self.rc_6_trace_generator.multiplicities@])
            + committed(8, seq![self.rc_8_trace_generator.multiplicities@])
            + committed(11, seq![self.rc_11_trace_generator.multiplicities@])
            + committed(12, seq![self.rc_12_trace_generator.multiplicities@])
            + committed(18, self.rc_18_trace_generator.counters())
            + committed(20, self.rc_20_trace_generator.counters())
            + committed(7, seq![self.rc_4_3_trace_generator.0.multiplicities@])
            + committed(8, seq![self.rc_4_4_trace_generator.multiplicities@])
            + committed(18, columns(self.rc_9_9_trace_generator.multiplicities@))
            + committed(14, seq![self.rc_7_2_5_trace_generator.multiplicities@])
            + committed(18, seq![self.rc_3_6_6_3_trace_generator.multiplicities@])
            + committed(16, seq![self.rc_4_4_4_4_trace_generator.multiplicities@])
            + committed(15, seq![self.rc_3_3_3_3_3_trace_generator.multiplicities@])
    }

    /// Commits the columns of counters of all tables.
    pub fn write_trace(self, tree_builder: &mut TreeBuilder, ids: &RelationIds) -> (r: (
        RangeChecksClaim,
        RangeChecksCudaInteractionClaimGenerator,
    ))
        requires
            self.wf(),
            ids.wf(),
        ensures
            final(tree_builder)@ == old(tree_builder)@ + self.columns_to_commit(),
            r.1.wf(),
            r.1.rc_9_9_interaction_gen.relation_constants == ids.rc_9_9,
            r.1.rc_6_interaction_gen.multiplicities@
                == self.rc_6_trace_generator.multiplicities@,
            r.1.rc_8_interaction_gen.multiplicities@
                == self.rc_8_trace_generator.multiplicities@,
            r.1.rc_11_interaction_gen.multiplicities@
                == self.rc_11_trace_generator.multiplicities@,
            r.1.rc_12_interaction_gen.multiplicities@
                == self.rc_12_trace_generator.multiplicities@,
            columns(r.1.rc_18_interaction_gen.0.multiplicities@)
                == self.rc_18_trace_generator.counters(),
            columns(r.1.rc_20_interaction_gen.0.multiplicities@)
                == self.rc_20_trace_generator.counters(),
            r.1.rc_4_3_interaction_gen.0.multiplicities@
                == self.rc_4_3_trace_generator.0.multiplicities@,
            r.1.rc_4_4_interaction_gen.multiplicities@
                == self.rc_4_4_trace_generator.multiplicities@,
            columns(r.1.rc_9_9_interaction_gen.multiplicities@)
                == columns(self.rc_9_9_trace_generator.multiplicities@),
            r.1.rc_7_2_5_interaction_gen.multiplicities@
                == self.rc_7_2_5_trace_generator.multiplicities@,
            r.1.rc_3_6_6_3_interaction_gen.multiplicities@
                == self.rc_3_6_6_3_trace_generator.multiplicities@,
            r.1.rc_4_4_4_4_interaction_gen.multiplicities@
                == self.rc_4_4_4_4_trace_generator.multiplicities@,
            r.1.rc_3_3_3_3_3_interaction_gen.multiplicities@
                == self.rc_3_3_3_3_3_trace_generator.multiplicities@,
    {
        let ghost before = tree_builder@;
        let ghost commits = self.columns_to_commit();
        proof {
            lemma_table_bits();
        }
        let rc_6_interaction_gen = self.rc_6_trace_generator.write_trace_cuda(tree_builder);
        let rc_8_interaction_gen = self.rc_8_trace_generator.write_trace_cuda(tree_builder);
        let rc_11_interaction_gen = self.rc_11_trace_generator.write_trace_cuda(tree_builder);
        let rc_12_interaction_gen = self.rc_12_trace_generator.write_trace_cuda(tree_builder);
        let (rc_18, rc_18_interaction_gen) = self.rc_18_trace_generator.write_trace_cuda(
            tree_builder,
        );
        let (rc_20, rc_20_interaction_gen) = self.rc_20_trace_generator.write_trace_cuda(
            tree_builder,
        );
        let (rc_4_3, rc_4_3_interaction_gen) = self.rc_4_3_trace_generator.write_trace_cuda(
            tree_builder,
        );
        let rc_4_4_interaction_gen = self.rc_4_4_trace_generator.write_trace_cuda(tree_builder);
        let rc_9_9_interaction_gen = self.rc_9_9_trace_generator.write_trace_cuda(
            tree_builder,
            ids.rc_9_9,
        );
        let rc_7_2_5_interaction_gen = self.rc_7_2_5_trace_generator.write_trace_cuda(
            tree_builder,
        );
        let rc_3_6_6_3_interaction_gen = self.rc_3_6_6_3_trace_generator.write_trace_cuda(
            tree_builder,
        );
        let rc_4_4_4_4_interaction_gen = self.rc_4_4_4_4_trace_generator.write_trace_cuda(
            tree_builder,
        );
        let rc_3_3_3_3_3_interaction_gen = self.rc_3_3_3_3_3_trace_generator.write_trace_cuda(
            tree_builder,
        );
        assert(tree_builder@ =~= before + commits);
        (
            RangeChecksClaim {
                rc_6: TableClaim {},
                rc_8: TableClaim {},
                rc_11: TableClaim {},
                rc_12: TableClaim {},
                rc_18,
                rc_20,
                rc_4_3,
                rc_4_4: TableClaim {},
                rc_9_9: TableClaim {},
                rc_7_2_5: TableClaim {},
                rc_3_6_6_3: TableClaim {},
                rc_4_4_4_4: TableClaim {},
                rc_3_3_3_3_3: TableClaim {},
            },
            RangeChecksCudaInteractionClaimGenerator {
                rc_6_interaction_gen,
                rc_8_interaction_gen,
                rc_11_interaction_gen,
                rc_12_interaction_gen,
                rc_18_interaction_gen,
                rc_20_interaction_gen,
                rc_4_3_interaction_gen,
                rc_4_4_interaction_gen,
                rc_9_9_interaction_gen,
                rc_7_2_5_interaction_gen,
                rc_3_6_6_3_interaction_gen,
                rc_4_4_4_4_interaction_gen,
                rc_3_3_3_3_3_interaction_gen,
            },
        )
    }
}

/// Writes the interaction traces of all tables.
pub struct RangeChecksCudaInteractionClaimGenerator {
    pub rc_6_interaction_gen: CudaInteractionClaimGeneratorCuda<1>,
    pub rc_8_interaction_gen: CudaInteractionClaimGeneratorCuda<1>,
    pub rc_11_interaction_gen: CudaInteractionClaimGeneratorCuda<1>,
    pub rc_12_interaction_gen: CudaInteractionClaimGeneratorCuda<1>,
    pub rc_18_interaction_gen: rc_18::InteractionClaimGeneratorCuda,
    pub rc_20_interaction_gen: rc_20::InteractionClaimGeneratorCuda,
    pub rc_4_3_interaction_gen: rc_4_3::InteractionClaimGeneratorCuda,
    pub rc_4_4_interaction_gen: CudaInteractionClaimGeneratorCuda<2>,
    pub rc_9_9_interaction_gen: CudaMultiRelationInteractionGen<2, 8>,
    pub rc_7_2_5_interaction_gen: CudaInteractionClaimGeneratorCuda<3>,
    pub rc_3_6_6_3_interaction_gen: CudaInteractionClaimGeneratorCuda<4>,
    pub rc_4_4_4_4_interaction_gen: CudaInteractionClaimGeneratorCuda<4>,
    pub rc_3_3_3_3_3_interaction_gen: CudaInteractionClaimGeneratorCuda<5>,
}

/// What the interaction kernels of all tables wrote.
pub struct RangeChecksOutcomes {
    pub rc_6: InteractionOutcome,
    pub rc_8: InteractionOutcome,
    pub rc_11: InteractionOutcome,
    pub rc_12: InteractionOutcome,
    pub rc_18: InteractionOutcome,
    pub rc_20: InteractionOutcome,
    pub rc_4_3: InteractionOutcome,
    pub rc_4_4: InteractionOutcome,
    pub rc_9_9: InteractionOutcome,
    pub rc_7_2_5: InteractionOutcome,
    pub rc_3_6_6_3: InteractionOutcome,
    pub rc_4_4_4_4: InteractionOutcome,
    pub rc_3_3_3_3_3: InteractionOutcome,
}

impl RangeChecksOutcomes {
    /// The columns have the sizes of the tables.
    pub open spec fn wf(self) -> bool {
        &&& is_shape(columns(self.rc_6.columns@), 4, pow2(6))
        &&& is_shape(columns(self.rc_8.columns@), 4, pow2(8))
        &&& is_shape(columns(self.rc_11.columns@), 4, pow2(11))
        &&& is_shape(columns(self.rc_12.columns@), 4, pow2(12))
        &&& is_shape(columns(self.rc_18.columns@), 4, pow2(18))
        &&& is_shape(columns(self.rc_20.columns@), 16, pow2(20))
        &&& is_shape(columns(self.rc_4_3.columns@), 4, pow2(7))
        &&& is_shape(columns(self.rc_4_4.columns@), 4, pow2(8))
        &&& is_shape(columns(self.rc_9_9.columns@), 16, pow2(18))
        &&& is_shape(columns(self.rc_7_2_5.columns@), 4, pow2(14))
        &&& is_shape(columns(self.rc_3_6_6_3.columns@), 4, pow2(18))
        &&& is_shape(columns(self.rc_4_4_4_4.columns@), 4, pow2(16))
        &&& is_shape(columns(self.rc_3_3_3_3_3.columns@), 4, pow2(15))
    }

    /// The columns of all tables, in the order in which they are committed.
    pub open spec fn columns_to_commit(self) -> Seq<Committed> {
        committed(6, columns(self.rc_6.columns@))
            + committed(8, columns(self.rc_8.columns@))
            + committed(11, columns(self.rc_11.columns@))
            + committed(12, columns(self.rc_12.columns@))
            + committed(18, columns(self.rc_18.columns@))
            + committed(20, columns(self.rc_20.columns@))
            + committed(7, columns(self.rc_4_3.columns@))
            + committed(8, columns(self.rc_4_4.columns@))
            + committed(18, columns(self.rc_9_9.columns@))
            + committed(14, columns(self.rc_7_2_5.columns@))
            + committed(18, columns(self.rc_3_6_6_3.columns@))
            + committed(16, columns(self.rc_4_4_4_4.columns@))
            + committed(15, columns(self.rc_3_3_3_3_3.columns@))
    }
}

impl RangeChecksCudaInteractionClaimGenerator {
    /// Every table has counters for its own tuples.
    pub open spec fn wf(self) -> bool {
        &&& self.rc_6_interaction_gen.wf()
        &&& self.rc_6_interaction_gen.ranges@ == rc_6_ranges()
        &&& self.rc_8_interaction_gen.wf()
        &&& self.rc_8_interaction_gen.ranges@ == rc_8_ranges()
        &&& self.rc_11_interaction_gen.wf()
        &&& self.rc_11_interaction_gen.ranges@ == rc_11_ranges()
        &&& self.rc_12_interaction_gen.wf()
        &&& self.rc_12_interaction_gen.ranges@ == rc_12_ranges()
        &&& self.rc_18_interaction_gen.wf()
        &&& self.rc_20_interaction_gen.wf()
        &&& self.rc_4_3_interaction_gen.wf()
        &&& self.rc_4_4_interaction_gen.wf()
        &&& self.rc_4_4_interaction_gen.ranges@ == rc_4_4_ranges()
        &&& self.rc_9_9_interaction_gen.wf()
        &&& self.rc_9_9_interaction_gen.ranges@ == rc_9_9_ranges()
        &&& self.rc_7_2_5_interaction_gen.wf()
        &&& self.rc_7_2_5_interaction_gen.ranges@ == rc_7_2_5_ranges()
        &&& self.rc_3_6_6_3_interaction_gen.wf()
        &&& self.rc_3_6_6_3_interaction_gen.ranges@ == rc_3_6_6_3_ranges()
        &&& self.rc_4_4_4_4_interaction_gen.wf()
        &&& self.rc_4_4_4_4_interaction_gen.ranges@ == rc_4_4_4_4_ranges()
        &&& self.rc_3_3_3_3_3_interaction_gen.wf()
        &&& self.rc_3_3_3_3_3_interaction_gen.ranges@ == rc_3_3_3_3_3_ranges()
    }

    /// Commits the interaction traces of all tables, in the order of the tables.
    pub fn write_interaction_trace(
        self,
        tree_builder: &mut TreeBuilder,
        outcomes: RangeChecksOutcomes,
    ) -> (r: RangeChecksInteractionClaim)
        requires
            self.wf(),
            outcomes.wf(),
        ensures
            final(tree_builder)@ == old(tree_builder)@ + outcomes.columns_to_commit(),
            r.rc_6.claimed_sum == secure_of(outcomes.rc_6.claimed_sum@),
            r.rc_8.claimed_sum == secure_of(outcomes.rc_8.claimed_sum@),
            r.rc_11.claimed_sum == secure_of(outcomes.rc_11.claimed_sum@),
            r.rc_12.claimed_sum == secure_of(outcomes.rc_12.claimed_sum@),
            r.rc_18.claimed_sum == secure_of(outcomes.rc_18.claimed_sum@),
            r.rc_20.claimed_sum == secure_of(outcomes.rc_20.claimed_sum@),
            r.rc_4_3.claimed_sum == secure_of(outcomes.rc_4_3.claimed_sum@),
            r.rc_4_4.claimed_sum == secure_of(outcomes.rc_4_4.claimed_sum@),
            r.rc_9_9.claimed_sum == secure_of(outcomes.rc_9_9.claimed_sum@),
            r.rc_7_2_5.claimed_sum == secure_of(outcomes.rc_7_2_5.claimed_sum@),
            r.rc_3_6_6_3.claimed_sum == secure_of(outcomes.rc_3_6_6_3.claimed_sum@),
            r.rc_4_4_4_4.claimed_sum == secure_of(outcomes.rc_4_4_4_4.claimed_sum@),
            r.rc_3_3_3_3_3.claimed_sum == secure_of(outcomes.rc_3_3_3_3_3.claimed_sum@),
    {
        let ghost before = tree_builder@;
        let ghost commits = outcomes.columns_to_commit();
        proof {
            lemma_table_bits();
        }
        let rc_6 = self.rc_6_interaction_gen.write_interaction_trace(
            tree_builder,
            outcomes.rc_6.columns,
            outcomes.rc_6.claimed_sum,
        );
        let rc_8 = self.rc_8_interaction_gen.write_interaction_trace(
            tree_builder,
            outcomes.rc_8.columns,
            outcomes.rc_8.claimed_sum,
        );
        let rc_11 = self.rc_11_interaction_gen.write_interaction_trace(
            tree_builder,
            outcomes.rc_11.columns,
            outcomes.rc_11.claimed_sum,
        );
        let rc_12 = self.rc_12_interaction_gen.write_interaction_trace(
            tree_builder,
            outcomes.rc_12.columns,
            outcomes.rc_12.claimed_sum,
        );
        let rc_18 = self.rc_18_interaction_gen.write_interaction_trace(
            tree_builder,
            outcomes.rc_18.columns,
            outcomes.rc_18.claimed_sum,
        );
        let rc_20 = self.rc_20_interaction_gen.write_interaction_trace(
            tree_builder,
            outcomes.rc_20.columns,
            outcomes.rc_20.claimed_sum,
        );
        let rc_4_3 = self.rc_4_3_interaction_gen.write_interaction_trace(
            tree_builder,
            outcomes.rc_4_3.columns,
            outcomes.rc_4_3.claimed_sum,
        );
        let rc_4_4 = self.rc_4_4_interaction_gen.write_interaction_trace(
            tree_builder,
            outcomes.rc_4_4.columns,
            outcomes.rc_4_4.claimed_sum,
        );
        let rc_9_9 = self.rc_9_9_interaction_gen.write_interaction_trace(
            tree_builder,
            outcomes.rc_9_9.columns,
            outcomes.rc_9_9.claimed_sum,
        );
        let rc_7_2_5 = self.rc_7_2_5_interaction_gen.write_interaction_trace(
            tree_builder,
            outcomes.rc_7_2_5.columns,
            outcomes.rc_7_2_5.claimed_sum,
        );
        let rc_3_6_6_3 = self.rc_3_6_6_3_interaction_gen.write_interaction_trace(
            tree_builder,
            outcomes.rc_3_6_6_3.columns,
            outcomes.rc_3_6_6_3.claimed_sum,
        );
        let rc_4_4_4_4 = self.rc_4_4_4_4_interaction_gen.write_interaction_trace(
            tree_builder,
            outcomes.rc_4_4_4_4.columns,
            outcomes.rc_4_4_4_4.claimed_sum,
        );
        let rc_3_3_3_3_3 = self.rc_3_3_3_3_3_interaction_gen.write_interaction_trace(
            tree_builder,
            outcomes.rc_3_3_3_3_3.columns,
            outcomes.rc_3_3_3_3_3.claimed_sum,
        );
        assert(tree_builder@ =~= before + commits);
        RangeChecksInteractionClaim {
            rc_6: InteractionClaim { claimed_sum: rc_6 },
            rc_8: InteractionClaim { claimed_sum: rc_8 },
            rc_11: InteractionClaim { claimed_sum: rc_11 },
            rc_12: InteractionClaim { claimed_sum: rc_12 },
            rc_18,
            rc_20,
            rc_4_3,
            rc_4_4: InteractionClaim { claimed_sum: rc_4_4 },
            rc_9_9: InteractionClaim { claimed_sum: rc_9_9 },
            rc_7_2_5: InteractionClaim { claimed_sum: rc_7_2_5 },
            rc_3_6_6_3: InteractionClaim { claimed_sum: rc_3_6_6_3 },
            rc_4_4_4_4: InteractionClaim { claimed_sum: rc_4_4_4_4 },
            rc_3_3_3_3_3: InteractionClaim { claimed_sum: rc_3_3_3_3_3 },
        }
    }
}

/// Every table is committed over the domain of its own size, in this order: four of single numbers,
/// the two relations of 18-bit numbers, the eight of 20-bit numbers, two of pairs, the eight
/// relations of 9-bit pairs, and the four of longer tuples.
pub proof fn law_tables_are_committed_in_order(tables: RangeChecksCudaClaimGenerator, r: int)
    requires
        tables.wf(),
        0 <= r < 8,
    ensures
        ({
            let all = tables.columns_to_commit();
            &&& all.len() == 28
            &&& all[0] == (
                total_bits(rc_6_ranges()) as u32,
                tables.rc_6_trace_generator.multiplicities@,
            )
            &&& all[1] == (
                total_bits(rc_8_ranges()) as u32,
                tables.rc_8_trace_generator.multiplicities@,
            )
            &&& all[2] == (
                total_bits(rc_11_ranges()) as u32,
                tables.rc_11_trace_generator.multiplicities@,
            )
            &&& all[3] == (
                total_bits(rc_12_ranges()) as u32,
                tables.rc_12_trace_generator.multiplicities@,
            )
            &&& r < 2 ==> all[4 + r] == (
                total_bits(rc_18::ranges()) as u32,
                tables.rc_18_trace_generator.counters()[r],
            )
            &&& all[6 + r] == (
                total_bits(rc_20::ranges()) as u32,
                tables.rc_20_trace_generator.counters()[r],
            )
            &&& all[14] == (
                total_bits(rc_4_3::ranges()) as u32,
                tables.rc_4_3_trace_generator.0.multiplicities@,
            )
            &&& all[15] == (
                total_bits(rc_4_4_ranges()) as u32,
                tables.rc_4_4_trace_generator.multiplicities@,
            )
            &&& all[16 + r] == (
                total_bits(rc_9_9_ranges()) as u32,
                columns(tables.rc_9_9_trace_generator.multiplicities@)[r],
            )
            &&& all[24] == (
                total_bits(rc_7_2_5_ranges()) as u32,
                tables.rc_7_2_5_trace_generator.multiplicities@,
            )
            &&& all[25] == (
                total_bits(rc_3_6_6_3_ranges()) as u32,
                tables.rc_3_6_6_3_trace_generator.multiplicities@,
            )
            &&& all[26] == (
                total_bits(rc_4_4_4_4_ranges()) as u32,
                tables.rc_4_4_4_4_trace_generator.multiplicities@,
            )
            &&& all[27] == (
                total_bits(rc_3_3_3_3_3_ranges()) as u32,
                tables.rc_3_3_3_3_3_trace_generator.multiplicities@,
            )
        }),
{
    lemma_table_bits();
    lemma_total_bits_of_tables();
}

proof fn lemma_total_bits_of_tables()
    ensures
        total_bits(rc_18::ranges()) == 18,
        total_bits(rc_20::ranges()) == 20,
        total_bits(rc_4_3::ranges()) == 7,
{
    reveal_with_fuel(total_bits, 3);
    assert(rc_18::ranges().drop_last() =~= Seq::<u32>::empty());
    assert(rc_20::ranges().drop_last() =~= Seq::<u32>::empty());
    assert(rc_4_3::ranges().drop_last() =~= seq![4u32]);
    assert(rc_4_3::ranges().drop_last().drop_last() =~= Seq::<u32>::empty());
}

/// The interaction traces stand in the order of the tables: four columns for one relation or for
/// two relations of a table.
pub proof fn law_interactions_are_committed_in_order(
    outcomes: RangeChecksOutcomes,
    c: int,
)
    requires
        outcomes.wf(),
        0 <= c < 4,
    ensures
        ({
            let all = outcomes.columns_to_commit();
            &&& all.len() == 11 * 4 + 2 * 16
            &&& all[c] == (6u32, columns(outcomes.rc_6.columns@)[c])
            &&& all[4 + c] == (8u32, columns(outcomes.rc_8.columns@)[c])
            &&& all[8 + c] == (11u32, columns(outcomes.rc_11.columns@)[c])
            &&& all[12 + c] == (12u32, columns(outcomes.rc_12.columns@)[c])
            &&& all[16 + c] == (18u32, columns(outcomes.rc_18.columns@)[c])
            &&& all[20 + c] == (20u32, columns(outcomes.rc_20.columns@)[c])
            &&& all[32 + c] == (20u32, columns(outcomes.rc_20.columns@)[12 + c])
            &&& all[36 + c] == (7u32, columns(outcomes.rc_4_3.columns@)[c])
            &&& all[40 + c] == (8u32, columns(outcomes.rc_4_4.columns@)[c])
            &&& all[44 + c] == (18u32, columns(outcomes.rc_9_9.columns@)[c])
            &&& all[56 + c] == (18u32, columns(outcomes.rc_9_9.columns@)[12 + c])
            &&& all[60 + c] == (14u32, columns(outcomes.rc_7_2_5.columns@)[c])
            &&& all[64 + c] == (18u32, columns(outcomes.rc_3_6_6_3.columns@)[c])
            &&& all[68 + c] == (16u32, columns(outcomes.rc_4_4_4_4.columns@)[c])
            &&& all[72 + c] == (15u32, columns(outcomes.rc_3_3_3_3_3.columns@)[c])
        }),
{
}

} // verus!

//! The table of the exclusive or of two 12-bit numbers.
//!
//! The table is too long for one column: its counters are spread over several columns. A kernel
//! does the counting; this component keeps what it counts, and what comes of it.

use crate::column::{
    batches, columns, duplicate_columns, is_shape, new_zero_columns, zero_columns, BaseFieldVec,
    Uint32Vec,
};
use crate::inputs::ComponentInputs;
use crate::launch::TableClaim;
use crate::launch::{finish_interaction, secure_of, InteractionClaim};
use crate::tree_builder::{committed, TreeBuilder};
use vstd::arithmetic::power2::pow2;
use vstd::prelude::*;

verus! {

pub const N_MULT_COLUMNS: usize = 16;

pub const LOG_SIZE: u32 = 20;

/// Columns of counters, and the batches that the kernel has yet to count.
pub struct CudaClaimGenerator {
    pub multiplicities: Vec<Uint32Vec>,
    pub pending: ComponentInputs,
}

impl CudaClaimGenerator {
    /// Every column of counters has its full length.
    pub open spec fn wf(self) -> bool {
        is_shape(columns(self.multiplicities@), N_MULT_COLUMNS as nat, pow2(LOG_SIZE as nat))
    }

    /// Returns a generator with all counters at zero and nothing to count.
    pub fn new() -> (r: Self)
        ensures
            r.wf(),
            columns(r.multiplicities@) == zero_columns(
                N_MULT_COLUMNS as nat,
                pow2(LOG_SIZE as nat),
            ),
            r.pending@ == Seq::<Seq<Seq<u32>>>::empty(),
    {
        CudaClaimGenerator {
            multiplicities: new_zero_columns(N_MULT_COLUMNS, crate::bits::exp2(LOG_SIZE)),
            pending: ComponentInputs::new(),
        }
    }

    /// Leaves the batches to the kernel, which counts them one after the other.
    pub fn add_cuda_inputs(&mut self, cuda_inputs: &Vec<Vec<BaseFieldVec>>)
        requires
            old(self).wf(),
            forall|b: int|
                0 <= b < cuda_inputs@.len() ==> (#[trigger] batches(cuda_inputs@)[b]).len() == 3,
        ensures
            final(self).wf(),
            columns(final(self).multiplicities@) == columns(old(self).multiplicities@),
            final(self).pending@ == old(self).pending@ + batches(cuda_inputs@),
    {
        self.pending.add_cuda_inputs(cuda_inputs);
    }

    /// Takes over the counters after the kernel has counted everything that it was left.
    pub fn set_counted(&mut self, counted: Vec<Uint32Vec>)
        requires
            is_shape(columns(counted@), N_MULT_COLUMNS as nat, pow2(LOG_SIZE as nat)),
        ensures
            final(self).wf(),
            columns(final(self).multiplicities@) == columns(counted@),
            final(self).pending@ == Seq::<Seq<Seq<u32>>>::empty(),
    {
        self.multiplicities = counted;
        self.pending = ComponentInputs::new();
    }

    /// Commits the columns of counters; nothing may be left to count.
    pub fn write_trace_cuda(self, tree_builder: &mut TreeBuilder) -> (r: (
        TableClaim,
        CudaInteractionClaimGenerator,
    ))
        requires
            self.wf(),
            self.pending@.len() == 0,
        ensures
            r.1.wf(),
            columns(r.1.multiplicities@) == columns(self.multiplicities@),
            final(tree_builder)@ == old(tree_builder)@ + committed(
                LOG_SIZE,
                columns(self.multiplicities@),
            ),
    {
        let cols = duplicate_columns(&self.multiplicities);
        tree_builder.extend_evals(LOG_SIZE, cols);
        (TableClaim {}, CudaInteractionClaimGenerator { multiplicities: self.multiplicities })
    }
}

impl Default for CudaClaimGenerator {
    fn default() -> (r: Self)
        ensures
            r.wf(),
            columns(r.multiplicities@) == zero_columns(
                N_MULT_COLUMNS as nat,
                pow2(LOG_SIZE as nat),
            ),
            r.pending@ == Seq::<Seq<Seq<u32>>>::empty(),
    {
        CudaClaimGenerator::new()
    }
}

/// Writes the interaction trace: one secure column for each pair of columns of counters.
pub struct CudaInteractionClaimGenerator {
    pub multiplicities: Vec<Uint32Vec>,
}

impl CudaInteractionClaimGenerator {
    /// Every column of counters has its full length.
    pub open spec fn wf(self) -> bool {
        is_shape(columns(self.multiplicities@), N_MULT_COLUMNS as nat, pow2(LOG_SIZE as nat))
    }

    /// Returns the columns of zeroes that the interaction kernel fills.
    pub fn interaction_columns(&self) -> (cols: Vec<BaseFieldVec>)
        ensures
            columns(cols@) == zero_columns(32, pow2(LOG_SIZE as nat)),
    {
        crate::launch::interaction_columns(N_MULT_COLUMNS / 2, LOG_SIZE)
    }

    /// Commits the columns that the interaction kernel filled.
    pub fn write_interaction_trace(
        self,
        tree_builder: &mut TreeBuilder,
        cols: Vec<BaseFieldVec>,
        claimed_sum: [u32; 4],
    ) -> (r: InteractionClaim)
        requires
            self.wf(),
            is_shape(columns(cols@), 32, pow2(LOG_SIZE as nat)),
        ensures
            final(tree_builder)@ == old(tree_builder)@ + committed(LOG_SIZE, columns(cols@)),
            r.claimed_sum == secure_of(claimed_sum@),
    {
        finish_interaction(tree_builder, cols, LOG_SIZE, claimed_sum)
    }
}

} // verus!

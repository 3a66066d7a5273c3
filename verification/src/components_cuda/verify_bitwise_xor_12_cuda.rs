//! The table of the exclusive or of two 12-bit numbers, whose lookups a kernel counts for all
//! batches at once.

use crate::column::{
    batches, columns, is_shape, new_zero_columns, zero_columns, BaseFieldVec, Uint32Vec,
};
use crate::components_cuda::verify_bitwise_xor::vbx_12::{LOG_SIZE, N_MULT_COLUMNS};
use crate::inputs::ComponentInputs;
use vstd::arithmetic::power2::pow2;
use vstd::prelude::*;

verus! {

/// Columns of counters, and the batches that the kernel has yet to count.
pub struct CudaClaimGenerator {
    pub mults: Vec<Uint32Vec>,
    pub pending: ComponentInputs,
}

impl CudaClaimGenerator {
    /// Every column of counters has its full length.
    pub open spec fn wf(self) -> bool {
        is_shape(columns(self.mults@), N_MULT_COLUMNS as nat, pow2(LOG_SIZE as nat))
    }

    /// Returns a generator with all counters at zero and nothing to count.
    pub fn new() -> (r: Self)
        ensures
            r.wf(),
            columns(r.mults@) == zero_columns(N_MULT_COLUMNS as nat, pow2(LOG_SIZE as nat)),
            r.pending@ == Seq::<Seq<Seq<u32>>>::empty(),
    {
        CudaClaimGenerator {
            mults: new_zero_columns(N_MULT_COLUMNS, crate::bits::exp2(LOG_SIZE)),
            pending: ComponentInputs::new(),
        }
    }

    /// Leaves the batches to the kernel.
    pub fn add_cuda_inputs(&mut self, cuda_inputs: &Vec<Vec<BaseFieldVec>>)
        requires
            old(self).wf(),
            cuda_inputs@.len() > 0,
            forall|b: int|
                0 <= b < cuda_inputs@.len() ==> (#[trigger] batches(cuda_inputs@)[b]).len() == 3,
        ensures
            final(self).wf(),
            columns(final(self).mults@) == columns(old(self).mults@),
            final(self).pending@ == old(self).pending@ + batches(cuda_inputs@),
    {
        self.pending.add_cuda_inputs(cuda_inputs);
    }

    /// Takes over the counters after the kernel has counted everything that it was left.
    pub fn set_counted(&mut self, counted: Vec<Uint32Vec>)
        requires
            is_shape(columns(counted@), N_MULT_COLUMNS as nat, pow2(LOG_SIZE as nat)),
        ensures
            final(self).wf(),
            columns(final(self).mults@) == columns(counted@),
            final(self).pending@ == Seq::<Seq<Seq<u32>>>::empty(),
    {
        self.mults = counted;
        self.pending = ComponentInputs::new();
    }
}

} // verus!

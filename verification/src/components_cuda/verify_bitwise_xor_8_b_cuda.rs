//! The second relation of the exclusive or of two 8-bit numbers. No kernel counts its lookups.

use crate::column::{columns, filled, new_zero_columns, zero_columns, BaseFieldVec, Uint32Vec};
use vstd::arithmetic::power2::pow2;
use vstd::prelude::*;

verus! {

pub const LOG_SIZE: u32 = 16;

/// Counters that stay at zero.
pub struct CudaClaimGenerator {
    pub mults: Uint32Vec,
}

impl CudaClaimGenerator {
    /// Returns a generator with all counters at zero.
    pub fn new() -> (r: Self)
        ensures
            r.mults@ == filled(0, pow2(LOG_SIZE as nat)),
    {
        CudaClaimGenerator { mults: Uint32Vec::new_zeroes(crate::bits::exp2(LOG_SIZE)) }
    }

    /// Takes inputs in without counting them.
    pub fn add_cuda_inputs(&mut self, _cuda_inputs: &Vec<Vec<BaseFieldVec>>)
        ensures
            *final(self) == *old(self),
    {
    }
}

/// What a row of the table looks up, column by column, and how often it was looked up.
pub struct CudaLookupData {
    pub verify_bitwise_xor_8_0: Vec<BaseFieldVec>,
    pub mults: BaseFieldVec,
}

/// Returns the columns that a trace kernel would fill, and those for what the rows look up.
pub fn write_trace_cuda(n_trace_columns: usize) -> (r: (Vec<BaseFieldVec>, CudaLookupData))
    ensures
        columns(r.0@) == zero_columns(n_trace_columns as nat, pow2(LOG_SIZE as nat)),
        columns(r.1.verify_bitwise_xor_8_0@) == zero_columns(3, pow2(LOG_SIZE as nat)),
        r.1.mults@ == filled(0, pow2(LOG_SIZE as nat)),
{
    let size = crate::bits::exp2(LOG_SIZE);
    (
        new_zero_columns(n_trace_columns, size),
        CudaLookupData {
            verify_bitwise_xor_8_0: new_zero_columns(3, size),
            mults: BaseFieldVec::new_zeroes(size),
        },
    )
}

} // verus!

//! A stand-in for the table of triples of 7, 2 and 5 bits, for callers that do not need its
//! counters.

use crate::column::BaseFieldVec;
use vstd::prelude::*;

verus! {

/// Takes inputs in and keeps nothing of them.
#[derive(Clone, Copy, Debug, PartialEq, Eq, Structural)]
pub struct CudaClaimGenerator {}

impl CudaClaimGenerator {
    /// Returns the stand-in.
    pub fn new() -> (r: Self)
        ensures
            r == (CudaClaimGenerator {}),
    {
        CudaClaimGenerator {  }
    }

    /// Takes inputs in without any effect.
    pub fn add_cuda_inputs(&mut self, _cuda_inputs: &Vec<Vec<BaseFieldVec>>)
        ensures
            *final(self) == *old(self),
    {
    }
}

} // verus!

//! Witness bookkeeping of the CUDA Cairo prover.
//!
//! Kernels that fill trace columns run on a device. Everything around them is here: how inputs
//! are packed and padded before a launch, how large every buffer is, which columns are fed to
//! which component, which multiplicities result, how the lookup elements of a relation are
//! derived, and in what order columns are committed.

pub mod bits;
pub mod checks;
pub mod column;
pub mod components_cuda;
pub mod field;
pub mod hash_checks;
pub mod inputs;
pub mod interpolation;
pub mod launch;
pub mod logup;
pub mod lookup;
pub mod opcode_checks;
pub mod opcodes_cuda;
pub mod preprocessed_columns;
pub mod preprocessed_ids;
pub mod preprocessed_trace_cuda;
pub mod range_checks_cuda;
pub mod relation_names;
pub mod sorting;
pub mod text;
pub mod tree_builder;

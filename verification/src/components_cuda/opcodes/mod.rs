pub mod blake_compress_opcode_cuda;
pub mod carries;
pub mod generic_opcode_cuda;
pub mod jump_opcode_cuda;
pub mod jump_opcode_double_deref_cuda;
pub mod mul_opcode_cuda;
pub mod mul_opcode_small_cuda;

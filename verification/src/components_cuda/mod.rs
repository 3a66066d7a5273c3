pub mod range_check;
pub mod verify_instruction_cuda;
pub mod verify_bitwise_xor;
pub mod triple_xor_32_cuda;
pub mod opcodes;
pub mod partial_ec_mul_cuda;
pub mod pedersen_points_table_cuda;
pub mod pedersen_points_table_wb9_cuda;
pub mod pedersen_aggregator_wb9_cuda;
pub mod pedersen_cuda;
pub mod pedersen_wb9_cuda;
pub mod range_check_252_width_27_cuda;
pub mod poseidon_full_round_chain_cuda;
pub mod poseidon_3_partial_rounds_chain_cuda;
pub mod poseidon_cuda;
pub mod poseidon_aggregator_native_cuda;
pub mod poseidon_aggregator_cuda;
pub mod range_check_cuda;
pub mod range_check_11_cuda;
pub mod range_check_7_2_5_cuda;
pub mod verify_bitwise_xor_7_cuda;
pub mod verify_bitwise_xor_8_b_cuda;
pub mod verify_bitwise_xor_9_cuda;
pub mod verify_bitwise_xor_12_cuda;

//! The instructions of a program and how often they are looked up.

use cairo_cuda_witness::column::BaseFieldVec;
use cairo_cuda_witness::components_cuda::range_check::base::CudaRangeCheckGenerator;
use cairo_cuda_witness::components_cuda::range_check::rc_4_3;
use cairo_cuda_witness::components_cuda::verify_instruction_cuda::{
    append_instruction_rows, pack_instructions, CudaClaimGenerator, DecodedInstruction,
    Instruction, InstructionInput,
};
use cairo_cuda_witness::inputs::ComponentInputs;
use cairo_cuda_witness::tree_builder::TreeBuilder;

fn column(values: &[u32]) -> BaseFieldVec {
    BaseFieldVec::from_vec(values.to_vec())
}

fn input(pc: u32) -> InstructionInput {
    InstructionInput { pc, offsets: [1, 2, 3], flags: [4, 5], opcode_extension: 6 }
}

fn decoded(seed: u32) -> DecodedInstruction {
    DecodedInstruction {
        offsets: [seed, seed + 1, seed + 2],
        flags: [seed + 3, seed + 4],
        opcode_extension: seed + 5,
    }
}

#[test]
fn instructions_are_listed_by_place() {
    let program = CudaClaimGenerator::new(vec![(7, 70), (3, 30), (7, 71)]);
    assert_eq!(
        program.sorted_instructions(),
        vec![
            Instruction { pc: 3, word: 30, multiplicity: 0 },
            Instruction { pc: 7, word: 71, multiplicity: 0 },
        ]
    );
}

#[test]
fn lookups_are_counted_and_unknown_places_ignored() {
    let mut program = CudaClaimGenerator::new(vec![(1, 10), (2, 20)]);
    program.add_input(&input(2));
    program.add_packed_inputs(&vec![input(1), input(2), input(2)]);
    program.add_cuda_inputs(&vec![vec![column(&[1, 1, 99])], vec![column(&[2])]]);
    let listing = program.sorted_instructions();
    assert_eq!(listing[0].multiplicity, 3);
    assert_eq!(listing[1].multiplicity, 4);
}

#[test]
fn rows_of_batches_become_instructions() {
    let batch: Vec<BaseFieldVec> = (0..7).map(|k| column(&[k, 10 + k])).collect();
    let mut rows = vec![input(9)];
    append_instruction_rows(&mut rows, &vec![batch]);
    assert_eq!(rows.len(), 3);
    assert_eq!(rows[1].pc, 0);
    assert_eq!(rows[2].offsets, [11, 12, 13]);
    assert_eq!(rows[2].flags, [14, 15]);
    assert_eq!(rows[2].opcode_extension, 16);
}

#[test]
fn instructions_are_padded_with_the_first() {
    let listing = vec![
        Instruction { pc: 3, word: 30, multiplicity: 5 },
        Instruction { pc: 7, word: 71, multiplicity: 6 },
    ];
    let packed = pack_instructions(&listing, &vec![decoded(100), decoded(200)]);
    assert_eq!(packed.log_size, 4);
    assert_eq!(packed.inputs.len(), 7);
    assert_eq!(packed.inputs[0].to_vec()[..4], [3, 7, 3, 3]);
    assert_eq!(packed.inputs[3].to_vec()[..3], [102, 202, 102]);
    assert_eq!(packed.inputs[5].to_vec()[..3], [104, 204, 104]);
    assert_eq!(packed.inputs[6].to_vec()[15], 105);
    assert_eq!(packed.multiplicities.to_vec()[..4], [5, 6, 0, 0]);
}

#[test]
fn the_trace_feeds_memory_and_range_checks() {
    let mut program = CudaClaimGenerator::new(vec![(2, 20), (1, 10)]);
    program.add_input(&input(2));
    let packed = program.pack(&vec![decoded(1), decoded(2)]);
    assert_eq!(packed.inputs[0].to_vec()[..2], [1, 2]);
    assert_eq!(packed.multiplicities.to_vec()[..3], [0, 1, 0]);
    let mut buffers = CudaClaimGenerator::trace_buffers(&packed, 17);
    buffers.sub_inputs[0][0][0].values[0] = 42;
    buffers.sub_inputs[2][0][2].values[1] = 31;
    buffers.sub_inputs[3][0][1].values[1] = 7;
    let mut tree = TreeBuilder::new();
    let mut addresses = ComponentInputs::new();
    let mut values = ComponentInputs::new();
    let mut rc_4_3 = rc_4_3::CudaClaimGenerator::new();
    let mut rc_7_2_5 = CudaRangeCheckGenerator::<3>::new([7, 2, 5]);
    let (claim, pending) = program.write_trace(
        packed,
        buffers,
        &mut tree,
        &mut addresses,
        &mut values,
        &mut rc_4_3,
        &mut rc_7_2_5,
    );
    assert_eq!(claim.log_size, 4);
    assert_eq!(tree.evals.len(), 17);
    assert_eq!(addresses.fed[0][0].values[0], 42);
    assert_eq!(values.fed.len(), 1);
    assert_eq!(rc_7_2_5.get_multiplicities()[31], 1);
    assert_eq!(rc_4_3.0.get_multiplicities()[7], 1);
    assert_eq!(rc_4_3.0.get_multiplicities()[0], 15);
    assert_eq!(pending.multiplicities.to_vec()[1], 1);
    assert_eq!(pending.interaction_columns().len(), 12);
}

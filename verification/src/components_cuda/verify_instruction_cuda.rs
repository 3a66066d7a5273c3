//! The instructions of a program, and how often each was executed.

use crate::bits::{ilog2, padded_rows, padded_size};
use crate::column::{batches, columns, is_shape, zero_columns, BaseFieldVec};
use crate::components_cuda::range_check::base::{
    all_occurrences, are_all_inputs, counted, lemma_wrapped_twice, tuple_at, wrapped,
    CudaRangeCheckGenerator,
};
use crate::components_cuda::range_check::rc_4_3;
use crate::components_cuda::range_check::tables::rc_7_2_5_ranges;
use crate::inputs::{resize, resized, ComponentInputs};
use crate::launch::{
    allocate, answer_all, entries_before, finish_interaction, groups, have_shapes,
    interaction_columns, law_answers_look_up, looks_up_request, modified_lookups, secure_of, shape,
    BufferShape, Claim, InteractionClaim, LookupRequest, TraceBuffers, N_INSTRUCTION_FIELDS,
    N_VALUE_LIMBS,
};
use crate::lookup::{looks_up, LookupElements, RelationIds};
use crate::sorting::{is_permutation, is_stable_order, stable_order};
use crate::tree_builder::{committed, TreeBuilder, MAX_LOG_SIZE};
use std::collections::HashMap;
use vstd::arithmetic::power2::pow2;
use vstd::prelude::*;

verus! {

/// An instruction as a row of lookups gives it: where it stands, its offsets, its flags, and its
/// opcode extension.
#[derive(Clone, Copy, Debug)]
pub struct InstructionInput {
    pub pc: u32,
    pub offsets: [u32; 3],
    pub flags: [u32; 2],
    pub opcode_extension: u32,
}

/// What an instruction word decodes into.
#[derive(Clone, Copy, Debug)]
pub struct DecodedInstruction {
    pub offsets: [u32; 3],
    pub flags: [u32; 2],
    pub opcode_extension: u32,
}

/// An instruction: where it stands, its word, and how often it was looked up.
#[derive(Clone, Copy, Debug, PartialEq, Eq, Structural)]
pub struct Instruction {
    pub pc: u32,
    pub word: u128,
    pub multiplicity: u32,
}

/// The instructions of a program, each with the number of times that it was looked up.
pub struct CudaClaimGenerator {
    pub instructions: Vec<Instruction>,
    pub positions: HashMap<u32, usize>,
}

/// The words by the places where they stand; of two words at one place, the later one.
pub open spec fn program(instructions: Seq<(u32, u128)>) -> Map<u32, u128>
    decreases instructions.len(),
{
    if instructions.len() == 0 {
        Map::empty()
    } else {
        program(instructions.drop_last()).insert(instructions.last().0, instructions.last().1)
    }
}

/// How many of the values are `pc`.
pub open spec fn count_of(values: Seq<u32>, pc: u32) -> nat
    decreases values.len(),
{
    if values.len() == 0 {
        0
    } else {
        count_of(values.drop_last(), pc) + if values.last() == pc {
            1nat
        } else {
            0nat
        }
    }
}

/// How often `pc` stands in the first columns of the batches.
pub open spec fn lookups_of(inputs: Seq<Seq<Seq<u32>>>, pc: u32) -> nat
    decreases inputs.len(),
{
    if inputs.len() == 0 {
        0
    } else {
        lookups_of(inputs.drop_last(), pc) + count_of(inputs.last()[0], pc)
    }
}

/// The counts with `more(pc)` added to the count of each instruction.
pub open spec fn counted_lookups(m: Map<u32, (u128, u32)>, more: spec_fn(u32) -> int) -> Map<
    u32,
    (u128, u32),
> {
    Map::new(|pc: u32| m.contains_key(pc), |pc: u32| (m[pc].0, wrapped(m[pc].1 as int, more(pc))))
}

/// `listing` holds the instructions of `m` by ascending place.
pub open spec fn is_listing(listing: Seq<Instruction>, m: Map<u32, (u128, u32)>) -> bool {
    &&& forall|i: int, j: int|
        0 <= i < j < listing.len() ==> (#[trigger] listing[i]).pc < (#[trigger] listing[j]).pc
    &&& forall|i: int|
        0 <= i < listing.len() ==> m.contains_key((#[trigger] listing[i]).pc) && m[listing[i].pc]
            == (listing[i].word, listing[i].multiplicity)
    &&& forall|pc: u32| #[trigger]
        m.contains_key(pc) ==> exists|i: int| 0 <= i < listing.len() && listing[i].pc == pc
}

impl View for CudaClaimGenerator {
    type V = Map<u32, (u128, u32)>;

    open spec fn view(&self) -> Map<u32, (u128, u32)> {
        Map::new(
            |pc: u32| self.positions@.contains_key(pc),
            |pc: u32|
                (
                    self.instructions@[self.positions@[pc] as int].word,
                    self.instructions@[self.positions@[pc] as int].multiplicity,
                ),
        )
    }
}

impl CudaClaimGenerator {
    /// No two instructions stand at one place, and the position of each is known.
    pub open spec fn wf(self) -> bool {
        &&& forall|pc: u32| #[trigger]
            self.positions@.contains_key(pc) ==> self.positions@[pc] < self.instructions@.len()
                && self.instructions@[self.positions@[pc] as int].pc == pc
        &&& forall|i: int|
            0 <= i < self.instructions@.len() ==> self.positions@.contains_key(
                (#[trigger] self.instructions@[i]).pc,
            ) && self.positions@[self.instructions@[i].pc] == i
    }

    /// Returns the instructions of a program, none of them looked up. Of two words at one place
    /// the later one counts.
    pub fn new(instructions: Vec<(u32, u128)>) -> (r: Self)
        ensures
            r.wf(),
            r@.dom() == program(instructions@).dom(),
            forall|pc: u32| #[trigger]
                r@.contains_key(pc) ==> r@[pc] == (program(instructions@)[pc], 0u32),
    {
        broadcast use vstd::std_specs::hash::group_hash_axioms;

        let mut r = CudaClaimGenerator { instructions: Vec::new(), positions: HashMap::new() };
        let mut i: usize = 0;
        assert(r@.dom() =~= program(instructions@.take(0)).dom());
        while i < instructions.len()
            invariant
                i <= instructions.len(),
                r.wf(),
                r.instructions@.len() <= i,
                r@.dom() == program(instructions@.take(i as int)).dom(),
                forall|pc: u32| #[trigger]
                    r@.contains_key(pc) ==> r@[pc] == (
                        program(instructions@.take(i as int))[pc],
                        0u32,
                    ),
            decreases instructions.len() - i,
        {
            let (pc, word) = instructions[i];
            let ghost before = r;
            let ghost taken = instructions@.take(i + 1);
            assert(taken.drop_last() =~= instructions@.take(i as int));
            let known: Option<usize> = match r.positions.get(&pc) {
                Some(position) => Some(*position),
                None => None,
            };
            match known {
                Some(position) => {
                    assert(before.positions@.contains_key(pc));
                    r.instructions.set(position, Instruction { pc, word, multiplicity: 0 });
                    assert(r.wf());
                },
                None => {
                    assert(!before.positions@.contains_key(pc));
                    let position = r.instructions.len();
                    r.instructions.push(Instruction { pc, word, multiplicity: 0 });
                    r.positions.insert(pc, position);
                    assert(r.positions@ == before.positions@.insert(pc, position));
                    assert(r.wf());
                },
            }
            i = i + 1;
            assert(r@.dom() =~= program(taken).dom());
            assert forall|q: u32| #[trigger] r@.contains_key(q) implies r@[q] == (
                program(taken)[q],
                0u32,
            ) by {
                if q != pc {
                    assert(before@.contains_key(q));
                    assert(before.positions@.contains_key(q));
                }
            }
        }
        assert(instructions@.take(i as int) =~= instructions@);
        r
    }

    fn count(&mut self, pc: u32)
        requires
            old(self).wf(),
        ensures
            final(self).wf(),
            final(self)@ == counted_lookups(
                old(self)@,
                |q: u32|
                    if q == pc {
                        1int
                    } else {
                        0int
                    },
            ),
    {
        broadcast use vstd::std_specs::hash::group_hash_axioms;

        let ghost before = *self;
        let known: Option<usize> = match self.positions.get(&pc) {
            Some(position) => Some(*position),
            None => None,
        };
        match known {
            Some(position) => {
                assert(before.positions@.contains_key(pc));
                let instruction = self.instructions[position];
                self.instructions.set(
                    position,
                    Instruction {
                        pc: instruction.pc,
                        word: instruction.word,
                        multiplicity: instruction.multiplicity.wrapping_add(1),
                    },
                );
            },
            None => {
                assert(!before.positions@.contains_key(pc));
            },
        }
        assert(self@ =~= counted_lookups(
            before@,
            |q: u32|
                if q == pc {
                    1int
                } else {
                    0int
                },
        ));
    }

    /// Counts a lookup of an instruction that the program has.
    pub fn add_input(&mut self, input: &InstructionInput)
        requires
            old(self).wf(),
            old(self)@.contains_key(input.pc),
        ensures
            final(self).wf(),
            final(self)@ == counted_lookups(
                old(self)@,
                |q: u32|
                    if q == input.pc {
                        1int
                    } else {
                        0int
                    },
            ),
    {
        self.count(input.pc);
    }

    fn count_column(&mut self, col: &BaseFieldVec)
        requires
            old(self).wf(),
        ensures
            final(self).wf(),
            final(self)@ == counted_lookups(old(self)@, |q: u32| count_of(col@, q) as int),
    {
        let ghost first = self@;
        let mut i: usize = 0;
        assert(self@ =~= counted_lookups(first, |q: u32| count_of(col@.take(0), q) as int));
        while i < col.values.len()
            invariant
                i <= col.values.len(),
                self.wf(),
                self@ == counted_lookups(first, |q: u32| count_of(col@.take(i as int), q) as int),
            decreases col.values.len() - i,
        {
            let ghost before = self@;
            let pc = col.values[i];
            self.count(pc);
            i = i + 1;
            let ghost taken = col@.take(i as int);
            proof {
                assert(taken.drop_last() =~= col@.take(i - 1));
                lemma_counted_twice(
                    first,
                    |q: u32| count_of(col@.take(i - 1), q) as int,
                    |q: u32|
                        if q == pc {
                            1int
                        } else {
                            0int
                        },
                    |q: u32| count_of(taken, q) as int,
                );
            }
        }
        assert(col@.take(i as int) =~= col@);
    }

    /// Counts the lookups of several rows.
    pub fn add_packed_inputs(&mut self, inputs: &Vec<InstructionInput>)
        requires
            old(self).wf(),
            forall|i: int|
                0 <= i < inputs@.len() ==> old(self)@.contains_key((#[trigger] inputs@[i]).pc),
        ensures
            final(self).wf(),
            final(self)@ == counted_lookups(
                old(self)@,
                |q: u32| count_of(inputs@.map_values(|x: InstructionInput| x.pc), q) as int,
            ),
    {
        let ghost pcs = inputs@.map_values(|x: InstructionInput| x.pc);
        let mut col: Vec<u32> = Vec::new();
        let mut i: usize = 0;
        while i < inputs.len()
            invariant
                i <= inputs.len(),
                pcs == inputs@.map_values(|x: InstructionInput| x.pc),
                col@ == pcs.take(i as int),
            decreases inputs.len() - i,
        {
            col.push(inputs[i].pc);
            i = i + 1;
            assert(col@ =~= pcs.take(i as int));
        }
        assert(pcs.take(i as int) =~= pcs);
        self.count_column(&BaseFieldVec::from_vec(col));
    }

    /// Counts the lookups of all batches: the first column of a batch tells which instructions
    /// were looked up. Places without an instruction are passed over.
    pub fn add_cuda_inputs(&mut self, cuda_inputs: &Vec<Vec<BaseFieldVec>>)
        requires
            old(self).wf(),
            forall|b: int|
                0 <= b < cuda_inputs@.len() ==> (#[trigger] batches(cuda_inputs@)[b]).len() > 0,
        ensures
            final(self).wf(),
            final(self)@ == counted_lookups(
                old(self)@,
                |q: u32| lookups_of(batches(cuda_inputs@), q) as int,
            ),
    {
        let ghost all = batches(cuda_inputs@);
        let ghost first = self@;
        let mut b: usize = 0;
        assert(self@ =~= counted_lookups(first, |q: u32| lookups_of(all.take(0), q) as int));
        while b < cuda_inputs.len()
            invariant
                b <= cuda_inputs.len(),
                all == batches(cuda_inputs@),
                forall|b: int| 0 <= b < cuda_inputs@.len() ==> (#[trigger] all[b]).len() > 0,
                self.wf(),
                self@ == counted_lookups(first, |q: u32| lookups_of(all.take(b as int), q) as int),
            decreases cuda_inputs.len() - b,
        {
            assert(all[b as int].len() > 0);
            self.count_column(&cuda_inputs[b][0]);
            b = b + 1;
            proof {
                let taken = all.take(b as int);
                assert(taken.drop_last() =~= all.take(b - 1));
                lemma_counted_twice(
                    first,
                    |q: u32| lookups_of(all.take(b - 1), q) as int,
                    |q: u32| count_of(all[b - 1][0], q) as int,
                    |q: u32| lookups_of(taken, q) as int,
                );
            }
        }
        assert(all.take(b as int) =~= all);
    }

    /// Returns the instructions by ascending place.
    pub fn sorted_instructions(&self) -> (listing: Vec<Instruction>)
        requires
            self.wf(),
        ensures
            is_listing(listing@, self@),
            listing@.len() == self.instructions@.len(),
    {
        let mut keys: Vec<u64> = Vec::new();
        let mut i: usize = 0;
        while i < self.instructions.len()
            invariant
                i <= self.instructions.len(),
                keys@.len() == i,
                forall|k: int| 0 <= k < i ==> #[trigger] keys@[k] == self.instructions@[k].pc,
            decreases self.instructions.len() - i,
        {
            keys.push(self.instructions[i].pc as u64);
            i = i + 1;
        }
        let order = stable_order(&keys);
        let ghost mapped = order@.map_values(|x: usize| x as int);
        let mut listing: Vec<Instruction> = Vec::new();
        let mut j: usize = 0;
        while j < order.len()
            invariant
                j <= order.len(),
                keys@.len() == self.instructions@.len(),
                mapped == order@.map_values(|x: usize| x as int),
                is_permutation(mapped, keys@.len()),
                listing@.len() == j,
                forall|k: int|
                    0 <= k < j ==> #[trigger] listing@[k] == self.instructions@[order@[k] as int],
            decreases order.len() - j,
        {
            assert(mapped[j as int] < keys@.len());
            listing.push(self.instructions[order[j]]);
            j = j + 1;
        }
        proof {
            self.lemma_listing(keys@, order@, listing@);
        }
        listing
    }

    proof fn lemma_listing(&self, keys: Seq<u64>, order: Seq<usize>, listing: Seq<Instruction>)
        requires
            self.wf(),
            keys.len() == self.instructions@.len(),
            forall|k: int| 0 <= k < keys.len() ==> #[trigger] keys[k] == self.instructions@[k].pc,
            is_stable_order(keys, order),
            listing.len() == order.len(),
            forall|k: int|
                0 <= k < listing.len() ==> #[trigger] listing[k] == self.instructions@[order[k] as
                int],
        ensures
            is_listing(listing, self@),
    {
        let mapped = order.map_values(|x: usize| x as int);
        assert forall|i: int, j: int| 0 <= i < j < listing.len() implies (#[trigger] listing[i]).pc
            < (#[trigger] listing[j]).pc by {
            assert(mapped[i] != mapped[j]);
            let a = order[i] as int;
            let b = order[j] as int;
            assert(mapped[i] < keys.len() && mapped[j] < keys.len());
            assert(keys[a] == self.instructions@[a].pc);
            assert(keys[b] == self.instructions@[b].pc);
            if keys[a] == keys[b] {
                assert(self.positions@[self.instructions@[a].pc] == a);
                assert(self.positions@[self.instructions@[b].pc] == b);
            }
        }
        assert forall|i: int| 0 <= i < listing.len() implies self@.contains_key(
            (#[trigger] listing[i]).pc,
        ) && self@[listing[i].pc] == (listing[i].word, listing[i].multiplicity) by {
            assert(mapped[i] < keys.len());
            let a = order[i] as int;
            assert(self.positions@.contains_key(self.instructions@[a].pc));
            assert(self.positions@[self.instructions@[a].pc] == a);
        }
        assert forall|pc: u32| #[trigger] self@.contains_key(pc) implies exists|i: int|
            0 <= i < listing.len() && listing[i].pc == pc by {
            let a = self.positions@[pc] as int;
            assert(self.positions@.contains_key(pc));
            assert(mapped.contains(a));
            let i = choose|i: int| 0 <= i < mapped.len() && mapped[i] == a;
            assert(listing[i] == self.instructions@[order[i] as int]);
            assert(listing[i].pc == pc);
        }
    }
}

/// Adding counts in two steps is adding their sums.
proof fn lemma_counted_twice(
    m: Map<u32, (u128, u32)>,
    a: spec_fn(u32) -> int,
    b: spec_fn(u32) -> int,
    c: spec_fn(u32) -> int,
)
    requires
        forall|q: u32| #[trigger] c(q) == a(q) + b(q),
    ensures
        counted_lookups(counted_lookups(m, a), b) == counted_lookups(m, c),
{
    assert forall|q: u32| m.contains_key(q) implies #[trigger] counted_lookups(
        counted_lookups(m, a),
        b,
    )[q] == counted_lookups(m, c)[q] by {
        lemma_wrapped_twice(m[q].1 as int, a(q), b(q));
        assert(c(q) == a(q) + b(q));
    }
    assert(counted_lookups(counted_lookups(m, a), b) =~= counted_lookups(m, c));
}

/// The seven fields of an instruction, in order.
pub open spec fn fields(input: InstructionInput) -> Seq<u32> {
    seq![
        input.pc,
        input.offsets@[0],
        input.offsets@[1],
        input.offsets@[2],
        input.flags@[0],
        input.flags@[1],
        input.opcode_extension,
    ]
}

/// The rows of batches with one column for each field of an instruction, batch after batch.
pub open spec fn instruction_rows(inputs: Seq<Seq<Seq<u32>>>) -> Seq<Seq<u32>>
    decreases inputs.len(),
{
    if inputs.len() == 0 {
        Seq::empty()
    } else {
        instruction_rows(inputs.drop_last()) + Seq::new(
            inputs.last()[0].len(),
            |i: int| Seq::new(7, |k: int| inputs.last()[k][i]),
        )
    }
}

/// Appends the instructions in the rows of the batches.
pub fn append_instruction_rows(
    rows: &mut Vec<InstructionInput>,
    inputs: &Vec<Vec<BaseFieldVec>>,
)
    requires
        forall|b: int|
            0 <= b < inputs@.len() ==> is_shape(
                #[trigger] batches(inputs@)[b],
                7,
                batches(inputs@)[b][0].len(),
            ),
    ensures
        final(rows)@.map_values(|x: InstructionInput| fields(x)) == old(rows)@.map_values(
            |x: InstructionInput| fields(x),
        ) + instruction_rows(batches(inputs@)),
{
    let ghost all = batches(inputs@);
    let ghost view = |x: InstructionInput| fields(x);
    let ghost first = rows@.map_values(view);
    let mut b: usize = 0;
    assert(rows@.map_values(view) =~= first + instruction_rows(all.take(0)));
    while b < inputs.len()
        invariant
            b <= inputs.len(),
            all == batches(inputs@),
            view == (|x: InstructionInput| fields(x)),
            forall|b: int|
                0 <= b < all.len() ==> is_shape(#[trigger] all[b], 7, all[b][0].len()),
            rows@.map_values(view) == first + instruction_rows(all.take(b as int)),
        decreases inputs.len() - b,
    {
        let ghost batch = all[b as int];
        assert(is_shape(batch, 7, batch[0].len()));
        assert(batch == columns(inputs@[b as int]@));
        let ghost before = rows@.map_values(view);
        let n = inputs[b][0].size();
        let mut i: usize = 0;
        while i < n
            invariant
                i <= n,
                b < inputs.len(),
                view == (|x: InstructionInput| fields(x)),
                batch == columns(inputs@[b as int]@),
                is_shape(batch, 7, n as nat),
                rows@.map_values(view) == before + Seq::new(
                    i as nat,
                    |r: int| Seq::new(7, |k: int| batch[k][r]),
                ),
            decreases n - i,
        {
            let input = &inputs[b];
            assert(input@.len() == 7);
            assert(batch[0].len() == n && batch[1].len() == n && batch[2].len() == n
                && batch[3].len() == n && batch[4].len() == n && batch[5].len() == n
                && batch[6].len() == n);
            let row = InstructionInput {
                pc: input[0].values[i],
                offsets: [input[1].values[i], input[2].values[i], input[3].values[i]],
                flags: [input[4].values[i], input[5].values[i]],
                opcode_extension: input[6].values[i],
            };
            assert(fields(row) =~= Seq::new(7, |k: int| batch[k][i as int]));
            let ghost so_far = rows@;
            rows.push(row);
            i = i + 1;
            assert(rows@.map_values(view) =~= so_far.map_values(view).push(fields(row)));
            assert(rows@.map_values(view) =~= before + Seq::new(
                i as nat,
                |r: int| Seq::new(7, |k: int| batch[k][r]),
            ));
        }
        b = b + 1;
        assert(all.take(b as int).drop_last() =~= all.take(b - 1));
        assert(rows@.map_values(view) =~= first + instruction_rows(all.take(b as int)));
    }
    assert(all.take(b as int) =~= all);
}

/// One of the seven fields of an instruction.
pub open spec fn instruction_field(pc: u32, decoded: DecodedInstruction, field: int) -> u32 {
    if field == 0 {
        pc
    } else if field <= 3 {
        decoded.offsets@[field - 1]
    } else if field <= 5 {
        decoded.flags@[field - 4]
    } else {
        decoded.opcode_extension
    }
}

/// The column of one field: a row for each instruction, padded with the first row.
pub open spec fn field_column(
    listing: Seq<Instruction>,
    decoded: Seq<DecodedInstruction>,
    field: int,
) -> Seq<u32> {
    resized(
        Seq::new(listing.len(), |i: int| instruction_field(listing[i].pc, decoded[i], field)),
        padded_rows(listing.len()),
        instruction_field(listing[0].pc, decoded[0], field),
    )
}

/// The column of multiplicities: a row for each instruction, padded with zero.
pub open spec fn multiplicity_column(listing: Seq<Instruction>) -> Seq<u32> {
    resized(
        Seq::new(listing.len(), |i: int| listing[i].multiplicity),
        padded_rows(listing.len()),
        0,
    )
}

/// What the trace kernel is launched with.
pub struct PackedInstructions {
    pub inputs: Vec<BaseFieldVec>,
    pub multiplicities: BaseFieldVec,
    pub log_size: u32,
}

impl PackedInstructions {
    /// The columns hold the listed instructions, padded for a trace.
    pub open spec fn holds(
        self,
        listing: Seq<Instruction>,
        decoded: Seq<DecodedInstruction>,
    ) -> bool {
        &&& columns(self.inputs@) == Seq::new(7, |f: int| field_column(listing, decoded, f))
        &&& self.multiplicities@ == multiplicity_column(listing)
        &&& pow2(self.log_size as nat) == padded_rows(listing.len())
        &&& 0 < self.log_size < 32
    }
}

fn read_field(pc: u32, decoded: &DecodedInstruction, field: usize) -> (r: u32)
    requires
        field < 7,
    ensures
        r == instruction_field(pc, *decoded, field as int),
{
    if field == 0 {
        pc
    } else if field <= 3 {
        decoded.offsets[field - 1]
    } else if field <= 5 {
        decoded.flags[field - 4]
    } else {
        decoded.opcode_extension
    }
}

fn pack_field(listing: &Vec<Instruction>, decoded: &Vec<DecodedInstruction>, field: usize) -> (r:
    BaseFieldVec)
    requires
        0 < listing@.len() <= 0x8000_0000,
        decoded@.len() == listing@.len(),
        field < 7,
    ensures
        r@ == field_column(listing@, decoded@, field as int),
{
    let mut values: Vec<u32> = Vec::new();
    let mut i: usize = 0;
    while i < listing.len()
        invariant
            i <= listing.len(),
            decoded@.len() == listing@.len(),
            field < 7,
            values@ == Seq::new(
                i as nat,
                |k: int| instruction_field(listing@[k].pc, decoded@[k], field as int),
            ),
        decreases listing.len() - i,
    {
        values.push(read_field(listing[i].pc, &decoded[i], field));
        i = i + 1;
        assert(values@ =~= Seq::new(
            i as nat,
            |k: int| instruction_field(listing@[k].pc, decoded@[k], field as int),
        ));
    }
    proof {
        crate::bits::lemma_padded_rows(listing@.len());
    }
    let size = padded_size(listing.len());
    let first = values[0];
    resize(&mut values, size, first);
    BaseFieldVec::from_vec(values)
}

/// Packs the listed instructions, with what their words decode into, for the trace kernel.
pub fn pack_instructions(listing: &Vec<Instruction>, decoded: &Vec<DecodedInstruction>) -> (r:
    PackedInstructions)
    requires
        0 < listing@.len() <= 0x8000_0000,
        decoded@.len() == listing@.len(),
    ensures
        r.holds(listing@, decoded@),
{
    let mut inputs: Vec<BaseFieldVec> = Vec::new();
    let mut field: usize = 0;
    while field < 7
        invariant
            field <= 7,
            0 < listing@.len() <= 0x8000_0000,
            decoded@.len() == listing@.len(),
            columns(inputs@) == Seq::new(
                field as nat,
                |f: int| field_column(listing@, decoded@, f),
            ),
        decreases 7 - field,
    {
        let ghost before = columns(inputs@);
        inputs.push(pack_field(listing, decoded, field));
        field = field + 1;
        assert(columns(inputs@) =~= before.push(field_column(listing@, decoded@, field - 1)));
        assert(columns(inputs@) =~= Seq::new(
            field as nat,
            |f: int| field_column(listing@, decoded@, f),
        ));
    }
    let mut mults: Vec<u32> = Vec::new();
    let mut i: usize = 0;
    while i < listing.len()
        invariant
            i <= listing.len(),
            mults@ == Seq::new(i as nat, |k: int| listing@[k].multiplicity),
        decreases listing.len() - i,
    {
        mults.push(listing[i].multiplicity);
        i = i + 1;
        assert(mults@ =~= Seq::new(i as nat, |k: int| listing@[k].multiplicity));
    }
    proof {
        crate::bits::lemma_padded_rows(listing@.len());
    }
    let size = padded_size(listing.len());
    resize(&mut mults, size, 0);
    let log_size = ilog2(size);
    PackedInstructions { inputs, multiplicities: BaseFieldVec::from_vec(mults), log_size }
}

proof fn lemma_log_is_unique(a: nat, b: nat)
    requires
        pow2(a) == pow2(b),
    ensures
        a == b,
{
    if a < b {
        vstd::arithmetic::power2::lemma_pow2_strictly_increases(a, b);
    }
    if b < a {
        vstd::arithmetic::power2::lemma_pow2_strictly_increases(b, a);
    }
}

pub const N_INTERACTION_TRACE_COLUMNS: usize = 3;

/// The groups of lookups: memory addresses, memory values, the two range checks, and the
/// instructions themselves.
pub open spec fn lookup_shapes() -> Seq<BufferShape> {
    seq![shape(1, 2), shape(1, 29), shape(1, 3), shape(1, 2), shape(1, 7)]
}

/// The groups that other components are fed with: memory addresses, memory ids, and the two range
/// checks.
pub open spec fn sub_input_shapes() -> Seq<BufferShape> {
    seq![shape(1, 1), shape(1, 1), shape(1, 3), shape(1, 2)]
}

/// Returns the shapes of the groups of lookups.
pub fn lookup_layout() -> (r: Vec<BufferShape>)
    ensures
        r@ == lookup_shapes(),
{
    let r = vec![
        BufferShape { entries: 1, width: 2 },
        BufferShape { entries: 1, width: 29 },
        BufferShape { entries: 1, width: 3 },
        BufferShape { entries: 1, width: 2 },
        BufferShape { entries: 1, width: 7 },
    ];
    assert(r@ =~= lookup_shapes());
    r
}

/// Returns the shapes of the groups that other components are fed with.
pub fn sub_input_layout() -> (r: Vec<BufferShape>)
    ensures
        r@ == sub_input_shapes(),
{
    let r = vec![
        BufferShape { entries: 1, width: 1 },
        BufferShape { entries: 1, width: 1 },
        BufferShape { entries: 1, width: 3 },
        BufferShape { entries: 1, width: 2 },
    ];
    assert(r@ =~= sub_input_shapes());
    r
}

impl CudaClaimGenerator {
    /// There are instructions, and the columns hold them by ascending place, with what their words
    /// decode into.
    pub open spec fn is_packed(self, packed: PackedInstructions) -> bool {
        exists|listing: Seq<Instruction>, decoded: Seq<DecodedInstruction>|
            #![trigger packed.holds(listing, decoded)]
            is_listing(listing, self@) && listing.len() > 0 && decoded.len() == listing.len()
                && packed.holds(listing, decoded)
    }

    /// Packs the instructions for the trace kernel. What the words decode into is given in the
    /// order of the sorted instructions.
    pub fn pack(&self, decoded: &Vec<DecodedInstruction>) -> (r: PackedInstructions)
        requires
            self.wf(),
            0 < self.instructions@.len() <= 0x4000_0000,
            decoded@.len() == self.instructions@.len(),
        ensures
            self.is_packed(r),
            exists|listing: Seq<Instruction>| #[trigger]
                is_listing(listing, self@) && r.holds(listing, decoded@),
            0 < r.log_size <= MAX_LOG_SIZE,
    {
        let listing = self.sorted_instructions();
        let packed = pack_instructions(&listing, decoded);
        proof {
            crate::bits::lemma_padded_log(listing@.len());
            lemma_log_is_unique(
                packed.log_size as nat,
                crate::bits::padded_log(listing@.len()) as nat,
            );
            assert(packed.holds(listing@, decoded@));
            assert(is_listing(listing@, self@));
        }
        packed
    }

    /// Returns the buffers that the trace kernel fills.
    pub fn trace_buffers(packed: &PackedInstructions, n_trace_columns: usize) -> (b: TraceBuffers)
        requires
            packed.log_size < 32,
        ensures
            b.fit(n_trace_columns as nat, lookup_shapes(), sub_input_shapes(), packed.log_size),
    {
        allocate(n_trace_columns, &lookup_layout(), &sub_input_layout(), packed.log_size)
    }

    /// Feeds the other components with what the trace kernel wrote and commits the trace.
    pub fn write_trace(
        self,
        packed: PackedInstructions,
        buffers: TraceBuffers,
        tree_builder: &mut TreeBuilder,
        memory_address_to_id_state: &mut ComponentInputs,
        memory_id_to_big_state: &mut ComponentInputs,
        range_check_4_3_state: &mut rc_4_3::CudaClaimGenerator,
        range_check_7_2_5_state: &mut CudaRangeCheckGenerator<3>,
    ) -> (r: (Claim, CudaInteractionClaimGenerator))
        requires
            self.instructions@.len() > 0,
            self.is_packed(packed),
            0 < packed.log_size <= MAX_LOG_SIZE,
            buffers.fit(
                buffers.trace@.len(),
                lookup_shapes(),
                sub_input_shapes(),
                packed.log_size,
            ),
            old(range_check_4_3_state).wf(),
            old(range_check_7_2_5_state).wf(),
            old(range_check_7_2_5_state).ranges@ == rc_7_2_5_ranges(),
            are_all_inputs(rc_7_2_5_ranges(), groups(buffers.sub_inputs@)[2]),
            are_all_inputs(rc_4_3::ranges(), groups(buffers.sub_inputs@)[3]),
        ensures
            r.0.log_size == packed.log_size,
            r.1.log_size == packed.log_size,
            groups(r.1.lookup_data@) == groups(buffers.lookups@),
            r.1.multiplicities@ == packed.multiplicities@,
            r.1.wf(),
            final(tree_builder)@ == old(tree_builder)@ + committed(
                packed.log_size,
                columns(buffers.trace@),
            ),
            final(memory_address_to_id_state)@ == old(memory_address_to_id_state)@ + groups(
                buffers.sub_inputs@,
            )[0],
            final(memory_id_to_big_state)@ == old(memory_id_to_big_state)@ + groups(
                buffers.sub_inputs@,
            )[1],
            final(range_check_7_2_5_state).wf(),
            final(range_check_7_2_5_state).ranges == old(range_check_7_2_5_state).ranges,
            final(range_check_7_2_5_state).multiplicities@ == counted(
                old(range_check_7_2_5_state).multiplicities@,
                |i: int|
                    all_occurrences(
                        rc_7_2_5_ranges(),
                        groups(buffers.sub_inputs@)[2],
                        i,
                    ) as int,
            ),
            final(range_check_4_3_state).wf(),
            final(range_check_4_3_state).0.multiplicities@ == counted(
                old(range_check_4_3_state).0.multiplicities@,
                |i: int|
                    all_occurrences(
                        rc_4_3::ranges(),
                        groups(buffers.sub_inputs@)[3],
                        i,
                    ) as int,
            ),
    {
        memory_address_to_id_state.add_cuda_inputs(&buffers.sub_inputs[0]);
        memory_id_to_big_state.add_cuda_inputs(&buffers.sub_inputs[1]);
        range_check_7_2_5_state.add_each(&buffers.sub_inputs[2]);
        range_check_4_3_state.add_cuda_inputs(&buffers.sub_inputs[3]);
        tree_builder.extend_evals(packed.log_size, buffers.trace);
        (
            Claim { log_size: packed.log_size },
            CudaInteractionClaimGenerator {
                log_size: packed.log_size,
                lookup_data: buffers.lookups,
                multiplicities: packed.multiplicities,
            },
        )
    }
}

/// Writes the interaction trace.
pub struct CudaInteractionClaimGenerator {
    pub log_size: u32,
    pub lookup_data: Vec<Vec<Vec<BaseFieldVec>>>,
    pub multiplicities: BaseFieldVec,
}

/// The elements that the interaction kernel is handed, in order.
pub open spec fn requests(ids: RelationIds) -> Seq<LookupRequest> {
    seq![
        LookupRequest::Plain(ids.rc_7_2_5),
        LookupRequest::Plain(ids.rc_4_3),
        LookupRequest::Plain(ids.memory_address_to_id),
        LookupRequest::Plain(ids.memory_id_to_big),
        LookupRequest::Plain(ids.verify_instruction),
    ]
}

/// Every group of lookups is handed the elements of its own relation.
pub proof fn law_groups_are_looked_up_in_their_relations(
    ms: Seq<LookupElements>,
    common: LookupElements,
    ids: RelationIds,
)
    requires
        common.is_common(),
        answer_all(ms, common, requests(ids)),
    ensures
        ms.len() == 5,
        looks_up(ms[0], common, ids.rc_7_2_5),
        looks_up(ms[1], common, ids.rc_4_3),
        looks_up(ms[2], common, ids.memory_address_to_id),
        looks_up(ms[3], common, ids.memory_id_to_big),
        looks_up(ms[4], common, ids.verify_instruction),
{
    law_answers_look_up(ms, common, requests(ids));
    assert(looks_up_request(ms[0], common, requests(ids)[0]));
    assert(looks_up_request(ms[1], common, requests(ids)[1]));
    assert(looks_up_request(ms[2], common, requests(ids)[2]));
    assert(looks_up_request(ms[3], common, requests(ids)[3]));
    assert(looks_up_request(ms[4], common, requests(ids)[4]));
}

/// A column of the interaction trace holds two fractions, so there is one for every two entries;
/// an address is looked up with its identifier, an identifier with the limbs of its value, and
/// the tables are fed with what is looked up in them.
pub proof fn law_lookups_match_feeds()
    ensures
        (entries_before(lookup_shapes(), 5) + 1) / 2 == N_INTERACTION_TRACE_COLUMNS,
        lookup_shapes().len() == 5,
        lookup_shapes()[0].entries == sub_input_shapes()[0].entries,
        lookup_shapes()[0].width == sub_input_shapes()[0].width + 1,
        lookup_shapes()[1].entries == sub_input_shapes()[1].entries,
        lookup_shapes()[1].width == sub_input_shapes()[1].width + N_VALUE_LIMBS,
        lookup_shapes()[2] == sub_input_shapes()[2],
        lookup_shapes()[2].width == rc_7_2_5_ranges().len(),
        lookup_shapes()[3] == sub_input_shapes()[3],
        lookup_shapes()[3].width == rc_4_3::ranges().len(),
        lookup_shapes()[4] == shape(1, N_INSTRUCTION_FIELDS),
{
    reveal_with_fuel(entries_before, 6);
}

impl CudaInteractionClaimGenerator {
    /// The lookups are those of a trace of the given size.
    pub open spec fn wf(self) -> bool {
        &&& 0 < self.log_size <= MAX_LOG_SIZE
        &&& have_shapes(groups(self.lookup_data@), lookup_shapes(), pow2(self.log_size as nat))
    }

    /// Returns the elements that the interaction kernel is handed.
    pub fn relation_elements(&self, common: &LookupElements, ids: &RelationIds) -> (ms: Vec<
        LookupElements,
    >)
        requires
            common.is_common(),
            ids.wf(),
        ensures
            answer_all(ms@, *common, requests(*ids)),
    {
        let asked = vec![
            LookupRequest::Plain(ids.rc_7_2_5),
            LookupRequest::Plain(ids.rc_4_3),
            LookupRequest::Plain(ids.memory_address_to_id),
            LookupRequest::Plain(ids.memory_id_to_big),
            LookupRequest::Plain(ids.verify_instruction),
        ];
        assert(asked@ =~= requests(*ids));
        modified_lookups(common, &asked)
    }

    /// Returns the columns of zeroes that the interaction kernel fills.
    pub fn interaction_columns(&self) -> (cols: Vec<BaseFieldVec>)
        requires
            self.wf(),
        ensures
            columns(cols@) == zero_columns(
                4 * N_INTERACTION_TRACE_COLUMNS as nat,
                pow2(self.log_size as nat),
            ),
    {
        interaction_columns(N_INTERACTION_TRACE_COLUMNS, self.log_size)
    }

    /// Commits the columns that the interaction kernel filled and claims its sum.
    pub fn write_interaction_trace(
        self,
        tree_builder: &mut TreeBuilder,
        cols: Vec<BaseFieldVec>,
        claimed_sum: [u32; 4],
    ) -> (r: InteractionClaim)
        requires
            self.wf(),
            is_shape(
                columns(cols@),
                4 * N_INTERACTION_TRACE_COLUMNS as nat,
                pow2(self.log_size as nat),
            ),
        ensures
            final(tree_builder)@ == old(tree_builder)@ + committed(self.log_size, columns(cols@)),
            r.claimed_sum == secure_of(claimed_sum@),
    {
        finish_interaction(tree_builder, cols, self.log_size, claimed_sum)
    }
}

/// An instruction is looked up by its place, then its offsets, its flags and its extension, each in
/// order.
pub proof fn law_fields_are_in_order(input: InstructionInput)
    ensures
        fields(input) == seq![input.pc] + input.offsets@ + input.flags@ + seq![
            input.opcode_extension,
        ],
        fields(input).len() == N_INSTRUCTION_FIELDS,
{
    assert(fields(input) =~= seq![input.pc] + input.offsets@ + input.flags@ + seq![
        input.opcode_extension,
    ]);
}

/// A row of the packed columns is what an opcode looks the instruction up by; its multiplicity is
/// that of the instruction. The rows behind the last instruction are the first one's, which nothing
/// looked up.
pub proof fn law_packed_rows_are_looked_up(
    packed: PackedInstructions,
    listing: Seq<Instruction>,
    decoded: Seq<DecodedInstruction>,
    i: int,
)
    requires
        packed.holds(listing, decoded),
        0 < listing.len() == decoded.len(),
        0 <= i < padded_rows(listing.len()),
    ensures
        ({
            let at = if i < listing.len() {
                i
            } else {
                0
            };
            &&& tuple_at(columns(packed.inputs@), i) == fields(
                InstructionInput {
                    pc: listing[at].pc,
                    offsets: decoded[at].offsets,
                    flags: decoded[at].flags,
                    opcode_extension: decoded[at].opcode_extension,
                },
            )
            &&& packed.multiplicities@[i] == (if i < listing.len() {
                listing[i].multiplicity
            } else {
                0
            })
        }),
        is_shape(columns(packed.inputs@), 7, pow2(packed.log_size as nat)),
        packed.multiplicities@.len() == pow2(packed.log_size as nat),
{
    let at = if i < listing.len() {
        i
    } else {
        0
    };
    let entry = fields(
        InstructionInput {
            pc: listing[at].pc,
            offsets: decoded[at].offsets,
            flags: decoded[at].flags,
            opcode_extension: decoded[at].opcode_extension,
        },
    );
    let row = tuple_at(columns(packed.inputs@), i);
    assert forall|f: int| 0 <= f < 7 implies row[f] == entry[f] by {
        assert(columns(packed.inputs@)[f] == field_column(listing, decoded, f));
    }
    assert(row =~= entry);
}

/// Rows of lookups are listed batch by batch: the rows of two lists follow each other, and row `i`
/// of a single batch holds what its seven columns hold there.
pub proof fn law_instruction_rows_follow_each_other(
    a: Seq<Seq<Seq<u32>>>,
    b: Seq<Seq<Seq<u32>>>,
)
    ensures
        instruction_rows(a + b) == instruction_rows(a) + instruction_rows(b),
        a.len() == 1 && a[0].len() == 7 ==> instruction_rows(a) == Seq::new(
            a[0][0].len(),
            |i: int| tuple_at(a[0], i),
        ),
    decreases b.len(),
{
    if a.len() == 1 && a[0].len() == 7 {
        assert(a.drop_last() =~= Seq::empty());
        let rows = Seq::new(a[0][0].len(), |i: int| tuple_at(a[0], i));
        assert(instruction_rows(a.drop_last()) =~= Seq::<Seq<u32>>::empty());
        assert forall|i: int| 0 <= i < rows.len() implies instruction_rows(a)[i] == rows[i] by {
            assert(instruction_rows(a)[i] =~= rows[i]);
        }
        assert(instruction_rows(a) =~= rows);
    }
    if b.len() == 0 {
        assert(a + b =~= a);
        assert(instruction_rows(a + b) =~= instruction_rows(a) + instruction_rows(b));
    } else {
        assert((a + b).drop_last() =~= a + b.drop_last());
        law_instruction_rows_follow_each_other(a, b.drop_last());
        assert(instruction_rows(a + b) =~= instruction_rows(a) + instruction_rows(b));
    }
}

/// Lookups are counted batch by batch, by the places in the first column; a column without the
/// place counts nothing, and one more row with it counts one more.
pub proof fn law_lookups_are_counted_by_place(
    inputs: Seq<Seq<Seq<u32>>>,
    more: Seq<Seq<Seq<u32>>>,
    values: Seq<u32>,
    pc: u32,
    other: u32,
)
    ensures
        lookups_of(inputs + more, pc) == lookups_of(inputs, pc) + lookups_of(more, pc),
        inputs.len() == 1 ==> lookups_of(inputs, pc) == count_of(inputs[0][0], pc),
        count_of(values.push(pc), pc) == count_of(values, pc) + 1,
        pc != other ==> count_of(values.push(other), pc) == count_of(values, pc),
        !values.contains(pc) ==> count_of(values, pc) == 0,
    decreases more.len(), values.len(),
{
    assert(values.push(pc).drop_last() =~= values);
    assert(values.push(other).drop_last() =~= values);
    if inputs.len() == 1 {
        assert(inputs.drop_last() =~= Seq::empty());
        assert(lookups_of(inputs.drop_last(), pc) == 0);
    }
    if !values.contains(pc) {
        lemma_count_of_missing(values, pc);
    }
    if more.len() == 0 {
        assert(inputs + more =~= inputs);
    } else {
        assert((inputs + more).drop_last() =~= inputs + more.drop_last());
        law_lookups_are_counted_by_place(inputs, more.drop_last(), values, pc, other);
    }
}

proof fn lemma_count_of_missing(values: Seq<u32>, pc: u32)
    requires
        !values.contains(pc),
    ensures
        count_of(values, pc) == 0,
    decreases values.len(),
{
    if values.len() > 0 {
        let front = values.drop_last();
        assert(values[values.len() - 1] == values.last());
        assert forall|k: int| 0 <= k < front.len() implies front[k] != pc by {
            assert(values[k] == front[k]);
        }
        lemma_count_of_missing(front, pc);
    }
}

/// Counting changes nothing but the multiplicities of the instructions, each by the number of its
/// own lookups.
pub proof fn law_counting_keeps_the_program(
    m: Map<u32, (u128, u32)>,
    more: spec_fn(u32) -> int,
    pc: u32,
)
    requires
        m.contains_key(pc),
        0 <= m[pc].1 + more(pc) <= u32::MAX,
    ensures
        counted_lookups(m, more).dom() == m.dom(),
        counted_lookups(m, more)[pc].0 == m[pc].0,
        counted_lookups(m, more)[pc].1 == m[pc].1 + more(pc),
{
    assert(counted_lookups(m, more).dom() =~= m.dom());
}

/// A program holds the last word that is given for a place, and nothing at other places.
pub proof fn law_program_holds_the_last_word(instructions: Seq<(u32, u128)>, i: int)
    requires
        0 <= i < instructions.len(),
        forall|j: int| i < j < instructions.len() ==> (#[trigger] instructions[j]).0
            != instructions[i].0,
    ensures
        program(instructions).contains_key(instructions[i].0),
        program(instructions)[instructions[i].0] == instructions[i].1,
    decreases instructions.len(),
{
    if i < instructions.len() - 1 {
        let front = instructions.drop_last();
        assert(instructions[instructions.len() - 1].0 != instructions[i].0);
        assert forall|j: int| i < j < front.len() implies (#[trigger] front[j]).0 != front[i].0 by {
            assert(instructions[j].0 != instructions[i].0);
        }
        law_program_holds_the_last_word(front, i);
    }
}

} // verus!

//! The table of 20-bit numbers, which eight relations look into.

use crate::column::{batches, columns, is_canonical, is_shape, zero_columns, BaseFieldVec};
use crate::field::{m31_sum, P};
use crate::launch::TableClaim;
use crate::launch::{secure_of, InteractionClaim};
use crate::lookup::{is_per_relation, LookupElements};
use crate::tree_builder::{committed, TreeBuilder};
use super::base::{
    are_all_inputs, fed_relation, CudaMultiRelationInteractionGen,
    CudaMultiRelationRangeCheckGenerator,
};
use vstd::arithmetic::power2::pow2;
use vstd::prelude::*;

verus! {

pub const N_RELATIONS: usize = 8;

pub const LOG_SIZE: u32 = 20;

/// The numbers of bits of the segments.
pub open spec fn ranges() -> Seq<u32> {
    seq![LOG_SIZE]
}

/// The constants that identify the relations.
pub open spec fn relation_constants() -> Seq<u32> {
    seq![
        1410849886u32,
        514232941u32,
        531010560u32,
        480677703u32,
        497455322u32,
        447122465u32,
        463900084u32,
        682009131u32,
    ]
}

/// The values with `offset` added to each in the base field.
pub open spec fn shifted(values: Seq<u32>, offset: u32) -> Seq<u32> {
    Seq::new(values.len(), |i: int| ((values[i] + offset) % (P as int)) as u32)
}

/// The batches, of one column each, with `offset` added to each value.
pub open spec fn shifted_batches(inputs: Seq<Seq<Seq<u32>>>, offset: u32) -> Seq<Seq<Seq<u32>>> {
    Seq::new(inputs.len(), |b: int| seq![shifted(inputs[b][0], offset)])
}

/// Every batch has one column of base field elements.
pub open spec fn are_shiftable(inputs: Seq<Seq<Seq<u32>>>) -> bool {
    forall|b: int|
        0 <= b < inputs.len() ==> (#[trigger] inputs[b]).len() == 1 && is_canonical(inputs[b][0])
}

/// Returns the column with `offset` added to each value.
pub fn shift_column(col: &BaseFieldVec, offset: u32) -> (r: BaseFieldVec)
    requires
        offset < P,
        is_canonical(col@),
    ensures
        r@ == shifted(col@, offset),
{
    let mut values: Vec<u32> = Vec::new();
    let mut i: usize = 0;
    while i < col.values.len()
        invariant
            i <= col.values.len(),
            offset < P,
            is_canonical(col@),
            values@ == shifted(col@.take(i as int), offset),
        decreases col.values.len() - i,
    {
        assert(col@[i as int] < P);
        values.push(m31_sum(col.values[i], offset));
        i = i + 1;
        assert(values@ =~= shifted(col@.take(i as int), offset));
    }
    assert(col@.take(i as int) =~= col@);
    BaseFieldVec::from_vec(values)
}

/// Returns the batches, of one column each, with `offset` added to each value.
pub fn shift_batches(inputs: &Vec<Vec<BaseFieldVec>>, offset: u32) -> (r: Vec<Vec<BaseFieldVec>>)
    requires
        offset < P,
        are_shiftable(batches(inputs@)),
    ensures
        batches(r@) == shifted_batches(batches(inputs@), offset),
{
    let ghost all = batches(inputs@);
    let mut r: Vec<Vec<BaseFieldVec>> = Vec::new();
    let mut b: usize = 0;
    while b < inputs.len()
        invariant
            b <= inputs.len(),
            offset < P,
            all == batches(inputs@),
            are_shiftable(all),
            batches(r@) == shifted_batches(all.take(b as int), offset),
        decreases inputs.len() - b,
    {
        let ghost before = r@;
        assert(all[b as int].len() == 1);
        let mut batch: Vec<BaseFieldVec> = Vec::new();
        batch.push(shift_column(&inputs[b][0], offset));
        assert(columns(batch@) =~= seq![shifted(all[b as int][0], offset)]);
        r.push(batch);
        b = b + 1;
        assert(batches(r@) =~= batches(before).push(seq![shifted(all[b - 1][0], offset)]));
        assert(batches(r@) =~= shifted_batches(all.take(b as int), offset));
    }
    assert(all.take(b as int) =~= all);
    r
}

/// Counts lookups into the table.
pub struct CudaClaimGenerator(pub CudaMultiRelationRangeCheckGenerator<1, N_RELATIONS>);

impl CudaClaimGenerator {
    /// There are counters for the rows of this table.
    pub open spec fn wf(self) -> bool {
        &&& self.0.wf()
        &&& self.0.ranges@ == ranges()
    }

    /// The counters of the relations.
    pub open spec fn counters(self) -> Seq<Seq<u32>> {
        columns(self.0.multiplicities@)
    }

    /// Returns a generator with all counters at zero.
    pub fn new() -> (r: Self)
        ensures
            r.wf(),
            r.0.log_size == LOG_SIZE,
            r.counters() == zero_columns(N_RELATIONS as nat, pow2(LOG_SIZE as nat)),
    {
        let bits: [u32; 1] = [LOG_SIZE];
        assert(bits@ =~= ranges());
        proof {
            lemma_total_bits();
        }
        CudaClaimGenerator(CudaMultiRelationRangeCheckGenerator::new(bits))
    }

    /// Counts, for one relation, the numbers in all batches.
    pub fn add_cuda_inputs_for_relation(
        &mut self,
        cuda_inputs: &Vec<Vec<BaseFieldVec>>,
        relation_index: usize,
    )
        requires
            old(self).wf(),
            relation_index < N_RELATIONS,
            are_all_inputs(ranges(), batches(cuda_inputs@)),
        ensures
            final(self).wf(),
            final(self).counters() == fed_relation(
                old(self).counters(),
                ranges(),
                batches(cuda_inputs@),
                relation_index as int,
            ),
    {
        self.0.add_each_for_relation(cuda_inputs, relation_index);
    }

    /// Counts, for one relation, the numbers in all batches after adding `offset` to each.
    pub fn add_cuda_inputs_for_relation_with_offset(
        &mut self,
        cuda_inputs: &Vec<Vec<BaseFieldVec>>,
        relation_index: usize,
        offset: u32,
    )
        requires
            old(self).wf(),
            relation_index < N_RELATIONS,
            offset < P,
            are_shiftable(batches(cuda_inputs@)),
            are_all_inputs(ranges(), shifted_batches(batches(cuda_inputs@), offset)),
        ensures
            final(self).wf(),
            final(self).counters() == fed_relation(
                old(self).counters(),
                ranges(),
                shifted_batches(batches(cuda_inputs@), offset),
                relation_index as int,
            ),
    {
        let corrected = shift_batches(cuda_inputs, offset);
        self.0.add_each_for_relation(&corrected, relation_index);
    }

    /// Commits one column of counters for each relation.
    pub fn write_trace_cuda(self, tree_builder: &mut TreeBuilder) -> (r: (
        TableClaim,
        InteractionClaimGeneratorCuda,
    ))
        requires
            self.wf(),
        ensures
            r.1.wf(),
            columns(r.1.0.multiplicities@) == self.counters(),
            final(tree_builder)@ == old(tree_builder)@ + committed(LOG_SIZE, self.counters()),
    {
        proof {
            lemma_total_bits();
        }
        let constants: [u32; 8] = [
            1410849886,
            514232941,
            531010560,
            480677703,
            497455322,
            447122465,
            463900084,
            682009131,
        ];
        assert(constants@ =~= relation_constants());
        (
            TableClaim {},
            InteractionClaimGeneratorCuda(self.0.write_trace_cuda(tree_builder, constants)),
        )
    }

    /// Returns the logarithm of the number of rows of the table.
    pub fn log_size(&self) -> (n: u32)
        requires
            self.wf(),
        ensures
            n == LOG_SIZE,
    {
        proof {
            lemma_total_bits();
        }
        self.0.log_size()
    }

    /// Adds counters that were kept elsewhere, relation by relation.
    pub fn merge_simd_multiplicities(&mut self, simd_mults: &Vec<Vec<u32>>)
        requires
            old(self).wf(),
            simd_mults@.len() == N_RELATIONS,
            forall|i: int|
                0 <= i < simd_mults@.len() ==> (#[trigger] simd_mults@[i])@.len() == pow2(
                    LOG_SIZE as nat,
                ),
        ensures
            final(self).wf(),
            forall|r: int|
                0 <= r < N_RELATIONS ==> (#[trigger] final(self).counters()[r])
                    == super::base::counted(
                    old(self).counters()[r],
                    |i: int| simd_mults@[r]@[i] as int,
                ),
    {
        proof {
            lemma_total_bits();
        }
        self.0.merge_simd_multiplicities(simd_mults);
    }
}

impl Default for CudaClaimGenerator {
    fn default() -> (r: Self)
        ensures
            r.wf(),
            r.counters() == zero_columns(N_RELATIONS as nat, pow2(LOG_SIZE as nat)),
    {
        CudaClaimGenerator::new()
    }
}

/// The table's tuples have as many bits as its only segment.
pub proof fn lemma_total_bits()
    ensures
        super::base::total_bits(ranges()) == LOG_SIZE,
{
    reveal_with_fuel(super::base::total_bits, 2);
    assert(ranges().drop_last() =~= Seq::<u32>::empty());
}

/// Writes the interaction trace.
pub struct InteractionClaimGeneratorCuda(pub CudaMultiRelationInteractionGen<1, N_RELATIONS>);

impl InteractionClaimGeneratorCuda {
    /// There are counters and constants for the relations of this table.
    pub open spec fn wf(self) -> bool {
        &&& self.0.wf()
        &&& self.0.ranges@ == ranges()
        &&& self.0.relation_constants@ == relation_constants()
    }

    /// Returns the elements that the interaction kernel is handed, relation by relation.
    pub fn relation_elements(&self, common: &LookupElements) -> (ms: Vec<LookupElements>)
        requires
            self.wf(),
            common.is_common(),
        ensures
            ms@.len() == N_RELATIONS,
            forall|i: int|
                0 <= i < N_RELATIONS ==> (#[trigger] ms@[i]).wf() && is_per_relation(
                    ms@[i],
                    *common,
                    relation_constants()[i],
                    1,
                ),
    {
        self.0.relation_elements(common)
    }

    /// Commits the columns that the interaction kernel filled: one secure column for each pair of
    /// relations.
    pub fn write_interaction_trace(
        self,
        tree_builder: &mut TreeBuilder,
        cols: Vec<BaseFieldVec>,
        claimed_sum: [u32; 4],
    ) -> (r: InteractionClaim)
        requires
            self.wf(),
            is_shape(columns(cols@), 4 * (N_RELATIONS / 2) as nat, pow2(LOG_SIZE as nat)),
        ensures
            final(tree_builder)@ == old(tree_builder)@ + committed(LOG_SIZE, columns(cols@)),
            r.claimed_sum == secure_of(claimed_sum@),
    {
        proof {
            lemma_total_bits();
        }
        InteractionClaim {
            claimed_sum: self.0.write_interaction_trace(tree_builder, cols, claimed_sum),
        }
    }
}

/// A shifted value is the canonical one that differs from the value and the offset by a multiple of
/// the modulus, and what is shifted on and back is what it was.
pub proof fn law_shifting_adds(values: Seq<u32>, offset: u32, i: int)
    requires
        0 <= i < values.len(),
        values[i] < P,
        offset < P,
    ensures
        shifted(values, offset).len() == values.len(),
        shifted(values, offset)[i] < P,
        shifted(values, offset)[i] == values[i] + offset || shifted(values, offset)[i] + P
            == values[i] + offset,
        shifted(shifted(values, offset), ((P - offset) % (P as int)) as u32)[i] == values[i],
{
    let s = values[i] + offset;
    if s >= P {
        vstd::arithmetic::div_mod::lemma_fundamental_div_mod_converse(s, P as int, 1, s - P);
    } else {
        vstd::arithmetic::div_mod::lemma_small_mod(s as nat, P as nat);
    }
    if offset == 0 {
        vstd::arithmetic::div_mod::lemma_fundamental_div_mod_converse(
            P as int,
            P as int,
            1,
            0,
        );
        vstd::arithmetic::div_mod::lemma_small_mod(values[i] as nat, P as nat);
    } else {
        vstd::arithmetic::div_mod::lemma_small_mod((P - offset) as nat, P as nat);
        if s >= P {
            vstd::arithmetic::div_mod::lemma_small_mod(values[i] as nat, P as nat);
        } else {
            vstd::arithmetic::div_mod::lemma_fundamental_div_mod_converse(
                values[i] + P,
                P as int,
                1,
                values[i] as int,
            );
        }
    }
}

/// Every batch is shifted by itself: its single column is the shifted one.
pub proof fn law_batches_are_shifted_apart(
    inputs: Seq<Seq<Seq<u32>>>,
    offset: u32,
    b: int,
    i: int,
)
    requires
        0 <= b < inputs.len(),
        0 <= i < inputs[b][0].len(),
    ensures
        shifted_batches(inputs, offset).len() == inputs.len(),
        shifted_batches(inputs, offset)[b].len() == 1,
        shifted_batches(inputs, offset)[b][0].len() == inputs[b][0].len(),
        shifted_batches(inputs, offset)[b][0][i] as int % P as int == (inputs[b][0][i] + offset)
            % P as int,
{
    vstd::arithmetic::div_mod::lemma_mod_twice(inputs[b][0][i] + offset, P as int);
}

} // verus!

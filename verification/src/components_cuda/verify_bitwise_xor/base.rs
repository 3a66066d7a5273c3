//! Tables of the exclusive or of two numbers, and how often each row was looked up.
//!
//! The table for numbers of `n` bits has a row for each pair: the first number, the second, and
//! their exclusive or. The two numbers, the first one more significant, make up the row's index.

use crate::column::{batches, columns, filled, is_shape, zero_columns, BaseFieldVec, Uint32Vec};
use crate::components_cuda::range_check::base::{
    add_counters, all_occurrences, are_all_inputs, are_inputs, batch_occurrences, count_batches,
    count_batches_of, counted, in_range, total_bits, tuple_at,
};
use crate::field::SecureField;
use crate::launch::{finish_interaction, secure_of};
use crate::tree_builder::{committed, TreeBuilder, MAX_LOG_SIZE};
use vstd::arithmetic::power2::pow2;
use vstd::prelude::*;

verus! {

/// The pair of numbers makes up the index: these are its segments.
pub open spec fn pair_ranges(n_bits: u32) -> Seq<u32> {
    seq![n_bits, n_bits]
}

/// The columns of the two numbers in every batch.
pub open spec fn pairs(inputs: Seq<Seq<Seq<u32>>>) -> Seq<Seq<Seq<u32>>> {
    Seq::new(inputs.len(), |b: int| inputs[b].take(2))
}

/// There are kernels for numbers of so many bits.
pub open spec fn is_supported(n_bits: u32) -> bool {
    n_bits == 4 || n_bits == 7 || n_bits == 8 || n_bits == 9
}

/// Every batch has three columns, and the first two hold numbers of `n_bits` bits.
pub open spec fn are_xor_inputs(n_bits: u32, inputs: Seq<Seq<Seq<u32>>>) -> bool {
    &&& forall|b: int| 0 <= b < inputs.len() ==> (#[trigger] inputs[b]).len() == 3
    &&& are_all_inputs(pair_ranges(n_bits), pairs(inputs))
}

/// A pair of numbers has twice as many bits as a number.
pub proof fn lemma_pair_bits(n_bits: u32)
    ensures
        total_bits(pair_ranges(n_bits)) == 2 * n_bits,
{
    reveal_with_fuel(total_bits, 3);
    assert(pair_ranges(n_bits).drop_last() =~= seq![n_bits]);
    assert(seq![n_bits].drop_last() =~= Seq::<u32>::empty());
}

/// Tells whether there are kernels for numbers of so many bits.
pub fn supported(n_bits: u32) -> (r: bool)
    ensures
        r == is_supported(n_bits),
{
    n_bits == 4 || n_bits == 7 || n_bits == 8 || n_bits == 9
}

/// Returns the columns of the two numbers in every batch.
pub fn take_pairs(inputs: &Vec<Vec<BaseFieldVec>>) -> (taken: Vec<Vec<BaseFieldVec>>)
    requires
        forall|b: int| 0 <= b < inputs@.len() ==> (#[trigger] batches(inputs@)[b]).len() == 3,
    ensures
        batches(taken@) == pairs(batches(inputs@)),
{
    let ghost all = batches(inputs@);
    let mut taken: Vec<Vec<BaseFieldVec>> = Vec::new();
    let mut b: usize = 0;
    while b < inputs.len()
        invariant
            b <= inputs.len(),
            all == batches(inputs@),
            forall|b: int| 0 <= b < all.len() ==> (#[trigger] all[b]).len() == 3,
            batches(taken@) == pairs(all).take(b as int),
        decreases inputs.len() - b,
    {
        let ghost before = batches(taken@);
        assert(all[b as int].len() == 3);
        let mut pair: Vec<BaseFieldVec> = Vec::new();
        pair.push(inputs[b][0].duplicate());
        pair.push(inputs[b][1].duplicate());
        assert(columns(pair@) =~= all[b as int].take(2));
        taken.push(pair);
        b = b + 1;
        assert(batches(taken@) =~= before.push(all[b - 1].take(2)));
        assert(batches(taken@) =~= pairs(all).take(b as int));
    }
    assert(pairs(all).take(b as int) =~= pairs(all));
    taken
}

/// Counts the rows that the batches look up.
pub fn count_pairs(mults: &mut Uint32Vec, n_bits: u32, inputs: &Vec<Vec<BaseFieldVec>>)
    requires
        2 * n_bits <= MAX_LOG_SIZE,
        old(mults)@.len() == pow2((2 * n_bits) as nat),
        are_xor_inputs(n_bits, batches(inputs@)),
    ensures
        final(mults)@ == counted(
            old(mults)@,
            |i: int|
                all_occurrences(pair_ranges(n_bits), pairs(batches(inputs@)), i) as int,
        ),
{
    let taken = take_pairs(inputs);
    let ranges: [u32; 2] = [n_bits, n_bits];
    assert(ranges@ =~= pair_ranges(n_bits));
    proof {
        lemma_pair_bits(n_bits);
    }
    count_batches(mults, &ranges, &taken);
}

/// There is a batch, every batch has three columns, and in as many rows as the first batch has the
/// first two hold numbers of `n_bits` bits.
pub open spec fn are_even_xor_inputs(n_bits: u32, inputs: Seq<Seq<Seq<u32>>>) -> bool {
    &&& inputs.len() > 0
    &&& forall|b: int| 0 <= b < inputs.len() ==> (#[trigger] inputs[b]).len() == 3
    &&& forall|b: int|
        0 <= b < inputs.len() ==> are_inputs(
            pair_ranges(n_bits),
            #[trigger] pairs(inputs)[b],
            inputs[0][0].len(),
        )
}

/// Counts the rows that the batches look up, with as many rows as the first batch has.
pub fn count_even_pairs(mults: &mut Uint32Vec, n_bits: u32, inputs: &Vec<Vec<BaseFieldVec>>)
    requires
        2 * n_bits <= MAX_LOG_SIZE,
        old(mults)@.len() == pow2((2 * n_bits) as nat),
        are_even_xor_inputs(n_bits, batches(inputs@)),
    ensures
        final(mults)@ == counted(
            old(mults)@,
            |i: int|
                batch_occurrences(
                    pair_ranges(n_bits),
                    pairs(batches(inputs@)),
                    batches(inputs@)[0][0].len(),
                    i,
                ) as int,
        ),
{
    let taken = take_pairs(inputs);
    let ranges: [u32; 2] = [n_bits, n_bits];
    assert(ranges@ =~= pair_ranges(n_bits));
    proof {
        lemma_pair_bits(n_bits);
        assert(batches(inputs@)[0].len() == 3);
    }
    let n_rows = inputs[0][0].size();
    assert forall|b: int| 0 <= b < taken@.len() implies are_inputs(
        ranges@,
        #[trigger] batches(taken@)[b],
        n_rows as nat,
    ) by {
        assert(batches(taken@).len() == batches(inputs@).len());
        assert(batches(taken@)[b] == pairs(batches(inputs@))[b]);
    }
    count_batches_of(mults, &ranges, &taken, n_rows);
}

/// Counts lookups into one table.
pub struct CudaVerifyBitwiseXorGenerator {
    pub multiplicities: Uint32Vec,
    pub n_bits: u32,
    pub log_size: u32,
}

impl CudaVerifyBitwiseXorGenerator {
    /// There is one counter for each row of the table.
    pub open spec fn wf(self) -> bool {
        &&& self.log_size == 2 * self.n_bits <= MAX_LOG_SIZE
        &&& self.multiplicities@.len() == pow2(self.log_size as nat)
    }

    /// Returns a generator with all counters at zero.
    pub fn new(n_bits: u32) -> (r: Self)
        requires
            2 * n_bits <= MAX_LOG_SIZE,
        ensures
            r.wf(),
            r.n_bits == n_bits,
            r.multiplicities@ == filled(0, pow2((2 * n_bits) as nat)),
    {
        let log_size = 2 * n_bits;
        let size = crate::bits::exp2(log_size);
        CudaVerifyBitwiseXorGenerator {
            multiplicities: Uint32Vec::new_zeroes(size),
            n_bits,
            log_size,
        }
    }

    /// Counts the rows that the batches look up.
    pub fn add_inputs(&mut self, cuda_inputs: &Vec<Vec<BaseFieldVec>>)
        requires
            old(self).wf(),
            cuda_inputs@.len() > 0 ==> is_supported(old(self).n_bits),
            are_xor_inputs(old(self).n_bits, batches(cuda_inputs@)),
        ensures
            final(self).wf(),
            final(self).n_bits == old(self).n_bits,
            final(self).multiplicities@ == counted(
                old(self).multiplicities@,
                |i: int|
                    all_occurrences(
                        pair_ranges(old(self).n_bits),
                        pairs(batches(cuda_inputs@)),
                        i,
                    ) as int,
            ),
    {
        count_pairs(&mut self.multiplicities, self.n_bits, cuda_inputs);
    }

    /// Returns the counters.
    pub fn get_multiplicities(&self) -> (r: Vec<u32>)
        ensures
            r@ == self.multiplicities@,
    {
        self.multiplicities.to_vec()
    }

    /// Adds counters that were kept elsewhere.
    pub fn merge_simd_multiplicities(&mut self, simd_multiplicities: &Vec<u32>)
        requires
            old(self).wf(),
            simd_multiplicities@.len() == old(self).multiplicities@.len(),
        ensures
            final(self).wf(),
            final(self).n_bits == old(self).n_bits,
            final(self).multiplicities@ == counted(
                old(self).multiplicities@,
                |i: int| simd_multiplicities@[i] as int,
            ),
    {
        add_counters(&mut self.multiplicities, simd_multiplicities);
    }

    /// Returns the logarithm of the number of rows of the table.
    pub fn log_size(&self) -> (n: u32)
        ensures
            n == self.log_size,
    {
        self.log_size
    }

    /// Commits the column of counters.
    pub fn write_trace_cuda(self, tree_builder: &mut TreeBuilder) -> (r:
        CudaInteractionClaimGeneratorCuda)
        requires
            self.wf(),
            self.n_bits > 0,
        ensures
            final(tree_builder)@ == old(tree_builder)@ + committed(
                self.log_size,
                seq![self.multiplicities@],
            ),
            r.multiplicities@ == self.multiplicities@,
            r.n_bits == self.n_bits,
            r.log_size == self.log_size,
            r.wf(),
    {
        let mut cols: Vec<BaseFieldVec> = Vec::new();
        cols.push(self.multiplicities.duplicate());
        assert(columns(cols@) =~= seq![self.multiplicities@]);
        tree_builder.extend_evals(self.log_size, cols);
        CudaInteractionClaimGeneratorCuda {
            multiplicities: self.multiplicities,
            n_bits: self.n_bits,
            log_size: self.log_size,
        }
    }
}

/// Writes the interaction trace of one table. Its kernels know the relation's constant: they are
/// handed the elements that all relations share.
pub struct CudaInteractionClaimGeneratorCuda {
    pub multiplicities: Uint32Vec,
    pub n_bits: u32,
    pub log_size: u32,
}

impl CudaInteractionClaimGeneratorCuda {
    /// There is one counter for each row of the table.
    pub open spec fn wf(self) -> bool {
        &&& 0 < self.log_size == 2 * self.n_bits <= MAX_LOG_SIZE
        &&& self.multiplicities@.len() == pow2(self.log_size as nat)
    }

    /// Returns the columns of zeroes that the interaction kernel fills.
    pub fn interaction_columns(&self) -> (cols: Vec<BaseFieldVec>)
        requires
            self.wf(),
        ensures
            columns(cols@) == zero_columns(4, pow2(self.log_size as nat)),
    {
        crate::launch::interaction_columns(1, self.log_size)
    }

    /// Commits the columns that the interaction kernel filled and returns the sum that it claims.
    pub fn write_interaction_trace(
        self,
        tree_builder: &mut TreeBuilder,
        cols: Vec<BaseFieldVec>,
        claimed_sum: [u32; 4],
    ) -> (r: SecureField)
        requires
            self.wf(),
            is_supported(self.n_bits),
            is_shape(columns(cols@), 4, pow2(self.log_size as nat)),
        ensures
            final(tree_builder)@ == old(tree_builder)@ + committed(self.log_size, columns(cols@)),
            r == secure_of(claimed_sum@),
    {
        finish_interaction(tree_builder, cols, self.log_size, claimed_sum).claimed_sum
    }
}

/// A pair that is counted is the two operands of its row: the third column, their exclusive or, is
/// left out.
pub proof fn law_pairs_are_operands(inputs: Seq<Seq<Seq<u32>>>, b: int, r: int)
    requires
        0 <= b < inputs.len(),
        inputs[b].len() == 3,
    ensures
        pairs(inputs).len() == inputs.len(),
        tuple_at(pairs(inputs)[b], r) == seq![inputs[b][0][r], inputs[b][1][r]],
{
    assert(tuple_at(pairs(inputs)[b], r) =~= seq![inputs[b][0][r], inputs[b][1][r]]);
}

/// The operands of an xor table have as many bits as the table is for, so it has a row for every
/// pair of them.
pub proof fn law_xor_tables_have_all_pairs(n_bits: u32, x: u32, y: u32)
    ensures
        total_bits(pair_ranges(n_bits)) == 2 * n_bits,
        in_range(pair_ranges(n_bits), seq![x, y]) <==> x < pow2(n_bits as nat) && y < pow2(
            n_bits as nat,
        ),
{
    let bits = pair_ranges(n_bits);
    reveal_with_fuel(total_bits, 3);
    assert(bits.drop_last().drop_last() =~= Seq::<u32>::empty());
    let pair = seq![x, y];
    assert(pair[0] == x && pair[1] == y);
    assert(bits[0] == n_bits && bits[1] == n_bits);
}

} // verus!

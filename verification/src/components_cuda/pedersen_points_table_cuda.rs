//! The table of points for windows of eighteen bits.

use crate::bits::{exp2, ilog2, next_power_of_two};
use crate::column::{batches, columns, filled, is_shape, zero_columns, BaseFieldVec, Uint32Vec};
use crate::components_cuda::range_check::base::{
    all_occurrences, are_all_inputs, count_batches, counted, total_bits,
};
use crate::launch::TableClaim;
use crate::launch::{finish_interaction, interaction_columns, secure_of, InteractionClaim};
use crate::tree_builder::{committed, TreeBuilder};
use vstd::arithmetic::power2::pow2;
use vstd::prelude::*;

verus! {

/// The number of rows of the table before it is padded.
pub const PEDERSEN_TABLE_N_ROWS: usize = 7340032;

/// The logarithm of the number of rows of the padded table.
pub const LOG_SIZE: u32 = 23;

/// A row is looked up by its index, which has so many bits.
pub open spec fn index_ranges() -> Seq<u32> {
    seq![LOG_SIZE]
}

/// Counts lookups into the table.
pub struct CudaClaimGenerator {
    pub multiplicities: Uint32Vec,
    pub log_size: u32,
}

/// An index has as many bits as the table's size.
pub proof fn lemma_index_bits()
    ensures
        total_bits(index_ranges()) == LOG_SIZE,
{
    reveal_with_fuel(total_bits, 2);
    assert(index_ranges().drop_last() =~= Seq::<u32>::empty());
}

proof fn lemma_table_size()
    ensures
        crate::bits::ceil_log2(PEDERSEN_TABLE_N_ROWS as nat) == LOG_SIZE,
{
    let n = PEDERSEN_TABLE_N_ROWS as nat;
    crate::bits::lemma_ceil_log2(n);
    vstd::arithmetic::power2::lemma2_to64();
    let c = crate::bits::ceil_log2(n);
    if c < LOG_SIZE {
        vstd::arithmetic::power2::lemma_pow2_strictly_increases(c, LOG_SIZE as nat);
        if c < LOG_SIZE - 1 {
            vstd::arithmetic::power2::lemma_pow2_strictly_increases(c, (LOG_SIZE - 1) as nat);
        }
    } else if c > LOG_SIZE + 1 {
        vstd::arithmetic::power2::lemma_pow2_strictly_increases(LOG_SIZE as nat, (c - 1) as nat);
    }
}

impl CudaClaimGenerator {
    /// There is one counter for each row of the padded table.
    pub open spec fn wf(self) -> bool {
        &&& self.log_size == LOG_SIZE
        &&& self.multiplicities@.len() == pow2(LOG_SIZE as nat)
    }

    /// Returns a generator with all counters at zero.
    pub fn new() -> (r: Self)
        ensures
            r.wf(),
            r.multiplicities@ == filled(0, pow2(LOG_SIZE as nat)),
    {
        let size = next_power_of_two(PEDERSEN_TABLE_N_ROWS);
        proof {
            lemma_table_size();
            crate::bits::lemma_floor_log2_of_pow2(LOG_SIZE as nat);
            crate::bits::lemma_pow2_bound(LOG_SIZE as nat);
        }
        let log_size = ilog2(size);
        CudaClaimGenerator { multiplicities: Uint32Vec::new_zeroes(exp2(log_size)), log_size }
    }

    /// Returns the counters.
    pub fn get_multiplicities_cpu(&self) -> (r: Vec<u32>)
        ensures
            r@ == self.multiplicities@,
    {
        self.multiplicities.to_vec()
    }

    /// Adds counters that were kept elsewhere, as far as there are any.
    pub fn merge_simd_multiplicities(&mut self, simd_multiplicities: &Vec<u32>)
        requires
            old(self).wf(),
            forall|i: int|
                0 <= i < simd_multiplicities@.len() && i < old(self).multiplicities@.len()
                    ==> old(self).multiplicities@[i] + #[trigger] simd_multiplicities@[i]
                    <= u32::MAX,
        ensures
            final(self).wf(),
            final(self).multiplicities@ == Seq::new(
                old(self).multiplicities@.len(),
                |i: int|
                    if i < simd_multiplicities@.len() {
                        (old(self).multiplicities@[i] + simd_multiplicities@[i]) as u32
                    } else {
                        old(self).multiplicities@[i]
                    },
            ),
    {
        let ghost first = self.multiplicities@;
        let n = self.multiplicities.size();
        let min_len = if n < simd_multiplicities.len() {
            n
        } else {
            simd_multiplicities.len()
        };
        let mut i: usize = 0;
        while i < min_len
            invariant
                i <= min_len,
                min_len <= n == first.len(),
                min_len <= simd_multiplicities@.len(),
                self.log_size == LOG_SIZE,
                self.multiplicities@.len() == n,
                forall|j: int|
                    0 <= j < simd_multiplicities@.len() && j < first.len() ==> first[j]
                        + #[trigger] simd_multiplicities@[j] <= u32::MAX,
                forall|j: int|
                    0 <= j < n ==> #[trigger] self.multiplicities@[j] == (if j < i {
                        (first[j] + simd_multiplicities@[j]) as u32
                    } else {
                        first[j]
                    }),
            decreases min_len - i,
        {
            assert(self.multiplicities@[i as int] == first[i as int]);
            assert(first[i as int] + simd_multiplicities@[i as int] <= u32::MAX);
            let sum = self.multiplicities.values[i] + simd_multiplicities[i];
            self.multiplicities.values.set(i, sum);
            i = i + 1;
        }
        assert(self.multiplicities@ =~= Seq::new(
            first.len(),
            |i: int|
                if i < simd_multiplicities@.len() {
                    (first[i] + simd_multiplicities@[i]) as u32
                } else {
                    first[i]
                },
        ));
    }

    /// Counts the rows whose indices the batches hold.
    pub fn add_cuda_inputs(&mut self, cuda_inputs: &Vec<Vec<BaseFieldVec>>)
        requires
            old(self).wf(),
            are_all_inputs(index_ranges(), batches(cuda_inputs@)),
        ensures
            final(self).wf(),
            final(self).multiplicities@ == counted(
                old(self).multiplicities@,
                |i: int| all_occurrences(index_ranges(), batches(cuda_inputs@), i) as int,
            ),
    {
        let ranges: [u32; 1] = [LOG_SIZE];
        assert(ranges@ =~= index_ranges());
        proof {
            lemma_index_bits();
        }
        count_batches(&mut self.multiplicities, &ranges, cuda_inputs);
    }

    /// Commits the column of counters, in the order of the rows.
    pub fn write_trace_cuda(self, tree_builder: &mut TreeBuilder) -> (r: (
        TableClaim,
        CudaInteractionClaimGenerator,
    ))
        requires
            self.wf(),
        ensures
            r.1.wf(),
            r.1.multiplicities@ == self.multiplicities@,
            final(tree_builder)@ == old(tree_builder)@ + committed(
                LOG_SIZE,
                seq![self.multiplicities@],
            ),
    {
        let mut cols: Vec<BaseFieldVec> = Vec::new();
        cols.push(self.multiplicities.duplicate());
        assert(columns(cols@) =~= seq![self.multiplicities@]);
        tree_builder.extend_evals(self.log_size, cols);
        (TableClaim {}, CudaInteractionClaimGenerator {
            multiplicities: self.multiplicities,
            log_size: self.log_size,
        })
    }
}

impl Default for CudaClaimGenerator {
    fn default() -> (r: Self)
        ensures
            r.wf(),
            r.multiplicities@ == filled(0, pow2(LOG_SIZE as nat)),
    {
        CudaClaimGenerator::new()
    }
}

/// Writes the interaction trace. Its kernel knows the relation's constant: it is handed the
/// elements that all relations share.
pub struct CudaInteractionClaimGenerator {
    pub multiplicities: Uint32Vec,
    pub log_size: u32,
}

impl CudaInteractionClaimGenerator {
    /// There is one counter for each row of the padded table.
    pub open spec fn wf(self) -> bool {
        &&& self.log_size == LOG_SIZE
        &&& self.multiplicities@.len() == pow2(LOG_SIZE as nat)
    }

    /// Returns the columns of zeroes that the interaction kernel fills.
    pub fn interaction_columns(&self) -> (cols: Vec<BaseFieldVec>)
        requires
            self.wf(),
        ensures
            columns(cols@) == zero_columns(4, pow2(LOG_SIZE as nat)),
    {
        interaction_columns(1, self.log_size)
    }

    /// Commits the columns that the interaction kernel filled and claims its sum.
    pub fn write_interaction_trace(
        self,
        tree_builder: &mut TreeBuilder,
        cols: Vec<BaseFieldVec>,
        claimed_sum: [u32; 4],
    ) -> (r: InteractionClaim)
        requires
            self.wf(),
            is_shape(columns(cols@), 4, pow2(LOG_SIZE as nat)),
        ensures
            final(tree_builder)@ == old(tree_builder)@ + committed(LOG_SIZE, columns(cols@)),
            r.claimed_sum == secure_of(claimed_sum@),
    {
        finish_interaction(tree_builder, cols, self.log_size, claimed_sum)
    }
}

} // verus!

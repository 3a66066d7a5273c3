//! Range checks whose interaction trace is computed on the host, from packs of counters.

pub use super::range_check::base::CudaRangeCheckGenerator;

use crate::column::{columns, is_canonical, is_shape, BaseFieldVec};
use crate::components_cuda::range_check::base::total_bits;
use crate::field::SecureField;
use crate::inputs::Pack;
use crate::launch::{finish_interaction, secure_of};
use crate::logup::{tuple_fraction, tuple_fractions, Fraction};
use crate::lookup::{LookupElements, N_COMMON_POWERS};
use crate::tree_builder::{committed, TreeBuilder, MAX_LOG_SIZE};
use vstd::arithmetic::power2::{lemma_pow2_adds, pow2};
use vstd::prelude::*;

verus! {

/// Pack `p` of the counters; an incomplete one holds zeroes.
pub open spec fn counter_pack(values: Seq<u32>, p: int) -> Seq<u32> {
    Seq::new(
        16,
        |lane: int|
            if 16 * p + 16 <= values.len() {
                values[16 * p + lane]
            } else {
                0
            },
    )
}

/// The packs hold the counters.
pub open spec fn are_packs_of(packs: Seq<Pack>, values: Seq<u32>) -> bool {
    &&& packs.len() == (values.len() + 15) / 16
    &&& forall|p: int|
        0 <= p < packs.len() ==> (#[trigger] packs[p])@ == counter_pack(values, p)
}

/// The counters that packs hold, one after the other.
pub open spec fn unpacked(packs: Seq<Pack>) -> Seq<u32> {
    Seq::new(16 * packs.len(), |i: int| packs[i / 16]@[i % 16])
}

/// As long as the packs are complete, they hold the counters in order.
pub proof fn law_packs_hold_the_counters(packs: Seq<Pack>, values: Seq<u32>)
    requires
        are_packs_of(packs, values),
        values.len() % 16 == 0,
    ensures
        unpacked(packs) == values,
{
    assert forall|i: int| 0 <= i < values.len() implies #[trigger] unpacked(packs)[i]
        == values[i] by {
        assert(packs[i / 16]@ == counter_pack(values, i / 16));
    }
    assert(unpacked(packs) =~= values);
}

/// Packs the counters; an incomplete pack is filled with zeroes.
pub fn pack_counters(values: &Vec<u32>) -> (packs: Vec<Pack>)
    ensures
        are_packs_of(packs@, values@),
{
    let n = values.len();
    let mut packs: Vec<Pack> = Vec::new();
    let mut at: usize = 0;
    while at < n
        invariant
            at <= n == values@.len(),
            packs@.len() == (at + 15) / 16,
            at == n || at == 16 * packs@.len(),
            forall|p: int|
                0 <= p < packs@.len() ==> (#[trigger] packs@[p])@ == counter_pack(values@, p),
        decreases n - at,
    {
        let mut pack: Pack = [0; 16];
        let ghost p = packs@.len() as int;
        if n - at >= 16 {
            let mut lane: usize = 0;
            while lane < 16
                invariant
                    lane <= 16,
                    n == values@.len(),
                    at == 16 * p,
                    n - at >= 16,
                    forall|l: int|
                        0 <= l < lane ==> #[trigger] pack@[l] == values@[16 * p + l],
                decreases 16 - lane,
            {
                pack[lane] = values[at + lane];
                lane = lane + 1;
            }
            at = at + 16;
        } else {
            at = n;
        }
        assert(pack@ =~= counter_pack(values@, p));
        packs.push(pack);
    }
    packs
}

fn unpack_counters(packs: &Vec<Pack>) -> (values: Vec<u32>)
    ensures
        values@ == unpacked(packs@),
{
    let mut values: Vec<u32> = Vec::new();
    let mut p: usize = 0;
    while p < packs.len()
        invariant
            p <= packs@.len(),
            values@.len() == 16 * p,
            forall|i: int|
                0 <= i < values@.len() ==> #[trigger] values@[i] == packs@[i / 16]@[i % 16],
        decreases packs.len() - p,
    {
        let mut lane: usize = 0;
        while lane < 16
            invariant
                lane <= 16,
                p < packs@.len(),
                values@.len() == 16 * p + lane,
                forall|i: int|
                    0 <= i < values@.len() ==> #[trigger] values@[i] == packs@[i / 16]@[i % 16],
            decreases 16 - lane,
        {
            values.push(packs[p][lane]);
            lane = lane + 1;
        }
        p = p + 1;
    }
    assert(values@ =~= unpacked(packs@));
    values
}

proof fn lemma_sixteen_divides(log_size: nat)
    requires
        4 <= log_size,
    ensures
        pow2(log_size) % 16 == 0,
{
    lemma_pow2_adds(4, (log_size - 4) as nat);
    vstd::arithmetic::power2::lemma2_to64();
    let half = pow2((log_size - 4) as nat) as int;
    vstd::arithmetic::div_mod::lemma_mod_multiples_basic(half, 16);
}

impl<const N_RANGES: usize> CudaRangeCheckGenerator<N_RANGES> {
    /// Commits the column of counters, and keeps them in packs for the interaction trace.
    pub fn write_trace(&self, tree_builder: &mut TreeBuilder) -> (r: CudaInteractionClaimGenerator<
        N_RANGES,
    >)
        requires
            self.wf(),
            4 <= self.log_size,
        ensures
            final(tree_builder)@ == old(tree_builder)@ + committed(
                self.log_size,
                seq![self.multiplicities@],
            ),
            r.wf(),
            r.ranges == self.ranges,
            r.log_size == self.log_size,
            unpacked(r.multiplicities@) == self.multiplicities@,
    {
        let values = self.get_multiplicities();
        let multiplicities = pack_counters(&values);
        proof {
            lemma_sixteen_divides(self.log_size as nat);
            law_packs_hold_the_counters(multiplicities@, values@);
        }
        let mut cols: Vec<BaseFieldVec> = Vec::new();
        cols.push(BaseFieldVec::from_vec(unpack_counters(&multiplicities)));
        assert(columns(cols@) =~= seq![self.multiplicities@]);
        tree_builder.extend_evals(self.log_size, cols);
        CudaInteractionClaimGenerator {
            multiplicities,
            ranges: self.ranges,
            log_size: self.log_size,
        }
    }
}

/// Writes the interaction trace.
pub struct CudaInteractionClaimGenerator<const N_RANGES: usize> {
    pub multiplicities: Vec<Pack>,
    pub ranges: [u32; N_RANGES],
    pub log_size: u32,
}

impl<const N_RANGES: usize> CudaInteractionClaimGenerator<N_RANGES> {
    /// There is one counter for each row of the table.
    pub open spec fn wf(self) -> bool {
        &&& 4 <= self.log_size == total_bits(self.ranges@) <= MAX_LOG_SIZE
        &&& unpacked(self.multiplicities@).len() == pow2(self.log_size as nat)
    }

    /// Returns what the rows of the table contribute to the interaction trace.
    pub fn fractions(&self, lookup_elements: &LookupElements) -> (r: Vec<Fraction>)
        requires
            self.wf(),
            lookup_elements.wf(),
            N_RANGES <= lookup_elements.alpha_powers@.len() <= N_COMMON_POWERS,
            is_canonical(unpacked(self.multiplicities@)),
        ensures
            r@.len() == pow2(self.log_size as nat),
            forall|i: int|
                0 <= i < r@.len() ==> #[trigger] r@[i] == tuple_fraction(
                    *lookup_elements,
                    self.ranges@,
                    unpacked(self.multiplicities@),
                    i,
                ),
    {
        let mut ranges: Vec<u32> = Vec::new();
        let mut k: usize = 0;
        while k < N_RANGES
            invariant
                k <= N_RANGES,
                ranges@ == self.ranges@.take(k as int),
            decreases N_RANGES - k,
        {
            ranges.push(self.ranges[k]);
            k = k + 1;
            assert(ranges@ =~= self.ranges@.take(k as int));
        }
        assert(ranges@ =~= self.ranges@);
        tuple_fractions(lookup_elements, &ranges, &unpack_counters(&self.multiplicities))
    }

    /// Commits the columns that the fractions sum up to and returns the sum that is claimed.
    pub fn write_interaction_trace(
        &self,
        tree_builder: &mut TreeBuilder,
        cols: Vec<BaseFieldVec>,
        claimed_sum: [u32; 4],
    ) -> (r: SecureField)
        requires
            self.wf(),
            is_shape(columns(cols@), 4, pow2(self.log_size as nat)),
        ensures
            final(tree_builder)@ == old(tree_builder)@ + committed(self.log_size, columns(cols@)),
            r == secure_of(claimed_sum@),
    {
        finish_interaction(tree_builder, cols, self.log_size, claimed_sum).claimed_sum
    }
}

/// There are as many packs as the counters begin, a pack that they fill holds them, and one that
/// they do not fill holds nothing.
pub proof fn law_incomplete_packs_are_empty(packs: Seq<Pack>, values: Seq<u32>, p: int, lane: int)
    requires
        are_packs_of(packs, values),
        0 <= p < packs.len(),
        0 <= lane < 16,
    ensures
        16 * (packs.len() - 1) < values.len() <= 16 * packs.len(),
        16 * (p + 1) <= values.len() ==> packs[p]@[lane] == values[16 * p + lane],
        16 * (p + 1) > values.len() ==> packs[p]@[lane] == 0,
{
    assert(packs[p]@ == counter_pack(values, p));
}

} // verus!

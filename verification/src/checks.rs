//! Tests of what the components ask of the values that come from kernels.
//!
//! A caller that is handed columns by a kernel knows nothing of what they hold. These functions
//! decide whether columns are what a component can be fed with.

use crate::bits::exp2;
use crate::column::{batches, columns, duplicate_columns, is_canonical, BaseFieldVec};
use crate::components_cuda::opcodes::carries::{
    are_carries, group_of_relation, normalize_first_carry, normalized, serves, table_inputs,
    N_CARRY_GROUPS, OFFSET_CORRECTION,
};
use crate::components_cuda::range_check::base::{are_all_inputs, are_inputs, in_range, tuple_at};
use crate::components_cuda::range_check::rc_20;
use crate::components_cuda::triple_xor_32_cuda::{lemma_total_rows_take, total_rows};
use crate::components_cuda::verify_bitwise_xor::base::{are_xor_inputs, pair_ranges, take_pairs};
use crate::field::{SecureField, P};
use crate::launch::groups;
use crate::lookup::{LookupElements, RelationIds, N_COMMON_POWERS};
use vstd::arithmetic::power2::pow2;
use vstd::prelude::*;

verus! {

/// Tells whether every value of the column is a canonical base field element.
pub fn has_canonical_values(col: &BaseFieldVec) -> (r: bool)
    ensures
        r == is_canonical(col@),
{
    let mut i: usize = 0;
    while i < col.values.len()
        invariant
            i <= col.values.len(),
            forall|j: int| 0 <= j < i ==> #[trigger] col@[j] < P,
        decreases col.values.len() - i,
    {
        if col.values[i] >= P {
            assert(col@[i as int] >= P);
            return false;
        }
        i = i + 1;
    }
    true
}

/// Tells whether the value fits into so many bits.
pub fn fits_in_bits(value: u32, n_bits: u32) -> (r: bool)
    ensures
        r == (value < pow2(n_bits as nat)),
{
    if n_bits >= 32 {
        proof {
            vstd::arithmetic::power2::lemma2_to64();
            if n_bits > 32 {
                vstd::arithmetic::power2::lemma_pow2_strictly_increases(32, n_bits as nat);
            }
        }
        true
    } else {
        (value as usize) < exp2(n_bits)
    }
}

/// Tells whether there is a column for each segment of a table with the given numbers of bits, and
/// the first `n_rows` rows hold tuples of that table.
pub fn are_rows_of_table(ranges: &[u32], cols: &Vec<BaseFieldVec>, n_rows: usize) -> (r: bool)
    ensures
        r == are_inputs(ranges@, columns(cols@), n_rows as nat),
{
    let ghost all = columns(cols@);
    if cols.len() != ranges.len() {
        return false;
    }
    let mut k: usize = 0;
    while k < cols.len()
        invariant
            k <= cols.len() == ranges@.len(),
            all == columns(cols@),
            forall|c: int| 0 <= c < k ==> (#[trigger] all[c]).len() >= n_rows,
            forall|c: int, i: int|
                0 <= c < k && 0 <= i < n_rows ==> #[trigger] all[c][i] < pow2(ranges@[c] as nat),
        decreases cols.len() - k,
    {
        let col = &cols[k];
        assert(col@ == all[k as int]);
        if col.size() < n_rows {
            return false;
        }
        let mut i: usize = 0;
        while i < n_rows
            invariant
                i <= n_rows <= col@.len(),
                k < cols.len() == ranges@.len(),
                all == columns(cols@),
                col@ == all[k as int],
                forall|j: int| 0 <= j < i ==> #[trigger] col@[j] < pow2(ranges@[k as int] as nat),
            decreases n_rows - i,
        {
            if !fits_in_bits(col.values[i], ranges[k]) {
                proof {
                    let tuple = tuple_at(all, i as int);
                    assert(tuple[k as int] == col@[i as int]);
                    assert(!in_range(ranges@, tuple));
                }
                return false;
            }
            i = i + 1;
        }
        k = k + 1;
    }
    assert forall|i: int| 0 <= i < n_rows implies in_range(
        ranges@,
        #[trigger] tuple_at(all, i),
    ) by {
        let tuple = tuple_at(all, i);
        assert forall|c: int| 0 <= c < ranges@.len() implies #[trigger] tuple[c] < pow2(
            ranges@[c] as nat,
        ) by {
            assert(tuple[c] == all[c][i]);
        }
    }
    true
}

/// Tells whether all rows of every batch hold tuples of the table with the given numbers of bits.
pub fn are_batches_of_table(ranges: &[u32], inputs: &Vec<Vec<BaseFieldVec>>) -> (r: bool)
    ensures
        r == are_all_inputs(ranges@, batches(inputs@)),
{
    let ghost all = batches(inputs@);
    let mut b: usize = 0;
    while b < inputs.len()
        invariant
            b <= inputs.len(),
            all == batches(inputs@),
            forall|j: int|
                0 <= j < b ==> (#[trigger] all[j]).len() > 0 && are_inputs(
                    ranges@,
                    all[j],
                    all[j][0].len(),
                ),
        decreases inputs.len() - b,
    {
        assert(all[b as int] == columns(inputs@[b as int]@));
        if inputs[b].len() == 0 {
            return false;
        }
        let n_rows = inputs[b][0].size();
        if !are_rows_of_table(ranges, &inputs[b], n_rows) {
            assert(!are_inputs(ranges@, all[b as int], all[b as int][0].len()));
            return false;
        }
        b = b + 1;
    }
    true
}

/// Tells whether every batch has three columns, and the first two hold numbers of `n_bits` bits.
pub fn are_xor_batches(n_bits: u32, inputs: &Vec<Vec<BaseFieldVec>>) -> (r: bool)
    ensures
        r == are_xor_inputs(n_bits, batches(inputs@)),
{
    let ghost all = batches(inputs@);
    let mut b: usize = 0;
    while b < inputs.len()
        invariant
            b <= inputs.len(),
            all == batches(inputs@),
            forall|j: int| 0 <= j < b ==> (#[trigger] all[j]).len() == 3,
        decreases inputs.len() - b,
    {
        assert(all[b as int] == columns(inputs@[b as int]@));
        if inputs[b].len() != 3 {
            return false;
        }
        b = b + 1;
    }
    let ranges: [u32; 2] = [n_bits, n_bits];
    assert(ranges@ =~= pair_ranges(n_bits));
    are_batches_of_table(&ranges, &take_pairs(inputs))
}

/// Tells whether every batch has one column of base field elements.
pub fn are_shiftable_batches(inputs: &Vec<Vec<BaseFieldVec>>) -> (r: bool)
    ensures
        r == rc_20::are_shiftable(batches(inputs@)),
{
    let ghost all = batches(inputs@);
    let mut b: usize = 0;
    while b < inputs.len()
        invariant
            b <= inputs.len(),
            all == batches(inputs@),
            forall|j: int|
                0 <= j < b ==> (#[trigger] all[j]).len() == 1 && is_canonical(all[j][0]),
        decreases inputs.len() - b,
    {
        assert(all[b as int] == columns(inputs@[b as int]@));
        if inputs[b].len() != 1 || !has_canonical_values(&inputs[b][0]) {
            return false;
        }
        b = b + 1;
    }
    true
}

/// Tells whether the eight groups from `base` on hold carries.
pub fn are_carry_groups(lookups: &Vec<Vec<Vec<BaseFieldVec>>>, base: usize) -> (r: bool)
    requires
        base + N_CARRY_GROUPS <= lookups@.len(),
    ensures
        r == are_carries(groups(lookups@), base as int),
{
    let ghost gs = groups(lookups@);
    let n = lookups.len();
    let ranges: [u32; 1] = [rc_20::LOG_SIZE];
    assert(ranges@ =~= rc_20::ranges());
    let mut r: usize = 0;
    while r < N_CARRY_GROUPS
        invariant
            r <= N_CARRY_GROUPS,
            base + N_CARRY_GROUPS <= n == lookups@.len(),
            gs == groups(lookups@),
            ranges@ == rc_20::ranges(),
            forall|j: int| 0 <= j < r ==> #[trigger] serves(gs, base as int, j),
        decreases N_CARRY_GROUPS - r,
    {
        let group: usize = if r == 0 {
            base + 7
        } else {
            base + (r - 1)
        };
        assert(group == base + group_of_relation(r as int));
        assert(gs[group as int] == batches(lookups@[group as int]@));
        if !are_shiftable_batches(&lookups[group]) {
            assert(!serves(gs, base as int, r as int));
            return false;
        }
        let at_table = rc_20::shift_batches(&lookups[group], OFFSET_CORRECTION);
        assert(batches(at_table@) == table_inputs(gs, base as int)[r as int]);
        if !are_batches_of_table(&ranges, &at_table) {
            assert(!serves(gs, base as int, r as int));
            return false;
        }
        assert(serves(gs, base as int, r as int));
        r = r + 1;
    }
    true
}

/// Returns other groups with the same values.
fn duplicate_groups(gs: &Vec<Vec<Vec<BaseFieldVec>>>) -> (r: Vec<Vec<Vec<BaseFieldVec>>>)
    ensures
        groups(r@) == groups(gs@),
{
    let mut r: Vec<Vec<Vec<BaseFieldVec>>> = Vec::new();
    let mut g: usize = 0;
    while g < gs.len()
        invariant
            g <= gs.len(),
            r@.len() == g,
            forall|i: int| 0 <= i < g ==> batches((#[trigger] r@[i])@) == batches(gs@[i]@),
        decreases gs.len() - g,
    {
        let mut group: Vec<Vec<BaseFieldVec>> = Vec::new();
        let mut e: usize = 0;
        while e < gs[g].len()
            invariant
                g < gs.len(),
                e <= gs@[g as int]@.len(),
                group@.len() == e,
                forall|i: int|
                    0 <= i < e ==> columns((#[trigger] group@[i])@) == columns(
                        gs@[g as int]@[i]@,
                    ),
            decreases gs@[g as int]@.len() - e,
        {
            group.push(duplicate_columns(&gs[g][e]));
            e = e + 1;
        }
        assert(batches(group@) =~= batches(gs@[g as int]@));
        r.push(group);
        g = g + 1;
    }
    assert(groups(r@) =~= groups(gs@));
    r
}

/// Tells whether the eight groups from `base` on hold carries once the first one, the first entry
/// of group `last`, is lowered to the uniform offset.
pub fn are_raw_carry_groups(
    lookups: &Vec<Vec<Vec<BaseFieldVec>>>,
    last: usize,
    base: usize,
) -> (r: bool)
    requires
        base + N_CARRY_GROUPS <= lookups@.len(),
        last < lookups@.len(),
        lookups@[last as int]@.len() > 0,
        lookups@[last as int]@[0]@.len() > 0,
    ensures
        r == (is_canonical(groups(lookups@)[last as int][0][0]) && are_carries(
            normalized(groups(lookups@), last as int),
            base as int,
        )),
{
    assert(groups(lookups@)[last as int] == batches(lookups@[last as int]@));
    assert(groups(lookups@)[last as int][0] == columns(lookups@[last as int]@[0]@));
    if !has_canonical_values(&lookups[last][0][0]) {
        return false;
    }
    let mut lowered = duplicate_groups(lookups);
    proof {
        assert(groups(lowered@).len() == groups(lookups@).len());
        assert(groups(lowered@)[last as int] == batches(lowered@[last as int]@));
        assert(groups(lowered@)[last as int][0] == columns(lowered@[last as int]@[0]@));
        assert(groups(lowered@)[last as int][0][0] == lowered@[last as int]@[0]@[0]@);
    }
    normalize_first_carry(&mut lowered, last);
    are_carry_groups(&lowered, base)
}

/// All rows of the groups hold tuples of the table with the given numbers of bits.
pub open spec fn are_groups_of_table(ranges: Seq<u32>, gs: Seq<Seq<Seq<Seq<u32>>>>) -> bool {
    forall|k: int| 0 <= k < gs.len() ==> are_all_inputs(ranges, #[trigger] gs[k])
}

/// Tells whether all rows of `n` groups from `base` on hold tuples of the table with the given
/// numbers of bits.
pub fn are_table_groups(
    ranges: &[u32],
    lookups: &Vec<Vec<Vec<BaseFieldVec>>>,
    base: usize,
    n: usize,
) -> (r: bool)
    requires
        base + n <= lookups@.len(),
    ensures
        r == are_groups_of_table(
            ranges@,
            groups(lookups@).subrange(base as int, base + n),
        ),
{
    let ghost gs = groups(lookups@).subrange(base as int, base + n);
    let len = lookups.len();
    let mut k: usize = 0;
    while k < n
        invariant
            k <= n,
            base + n <= len == lookups@.len(),
            gs == groups(lookups@).subrange(base as int, base + n),
            forall|j: int| 0 <= j < k ==> are_all_inputs(ranges@, #[trigger] gs[j]),
        decreases n - k,
    {
        assert(gs[k as int] == batches(lookups@[base + k]@));
        if !are_batches_of_table(ranges, &lookups[base + k]) {
            assert(!are_all_inputs(ranges@, gs[k as int]));
            return false;
        }
        k = k + 1;
    }
    true
}

/// Tells whether every batch has a column.
pub fn have_a_column(inputs: &Vec<Vec<BaseFieldVec>>) -> (r: bool)
    ensures
        r == (forall|b: int|
            0 <= b < inputs@.len() ==> (#[trigger] batches(inputs@)[b]).len() > 0),
{
    let mut b: usize = 0;
    while b < inputs.len()
        invariant
            b <= inputs.len(),
            forall|j: int| 0 <= j < b ==> (#[trigger] batches(inputs@)[j]).len() > 0,
        decreases inputs.len() - b,
    {
        if inputs[b].len() == 0 {
            assert(batches(inputs@)[b as int].len() == 0);
            return false;
        }
        b = b + 1;
    }
    true
}

/// Tells whether the rows of the batches can be numbered together with `rows` other rows.
pub fn fit_on_top(rows: u32, inputs: &Vec<Vec<BaseFieldVec>>) -> (r: bool)
    requires
        forall|b: int| 0 <= b < inputs@.len() ==> (#[trigger] batches(inputs@)[b]).len() > 0,
    ensures
        r == (rows + total_rows(batches(inputs@)) <= u32::MAX),
{
    let ghost all = batches(inputs@);
    let mut total: u32 = rows;
    let mut b: usize = 0;
    assert(all.take(0) =~= Seq::empty());
    while b < inputs.len()
        invariant
            b <= inputs.len(),
            all == batches(inputs@),
            forall|b: int| 0 <= b < all.len() ==> (#[trigger] all[b]).len() > 0,
            total == rows + total_rows(all.take(b as int)),
        decreases inputs.len() - b,
    {
        assert(all[b as int].len() > 0);
        assert(all[b as int] == columns(inputs@[b as int]@));
        let size = inputs[b][0].size();
        proof {
            assert(all.take(b + 1).drop_last() =~= all.take(b as int));
            lemma_total_rows_take(all, b + 1);
        }
        if size > (u32::MAX - total) as usize {
            return false;
        }
        total = total + size as u32;
        b = b + 1;
    }
    assert(all.take(b as int) =~= all);
    true
}

impl SecureField {
    /// Tells whether the coordinates are canonical.
    pub fn is_wf(&self) -> (r: bool)
        ensures
            r == self.wf(),
    {
        self.a < P && self.b < P && self.c < P && self.d < P
    }
}

impl LookupElements {
    /// Tells whether these are elements that all relations share.
    pub fn are_common(&self) -> (r: bool)
        ensures
            r == self.is_common(),
    {
        if self.alpha_powers.len() != N_COMMON_POWERS || !self.z.is_wf() || !self.alpha.is_wf() {
            return false;
        }
        let mut i: usize = 0;
        while i < self.alpha_powers.len()
            invariant
                i <= self.alpha_powers.len(),
                forall|j: int| 0 <= j < i ==> (#[trigger] self.alpha_powers@[j]).wf(),
            decreases self.alpha_powers.len() - i,
        {
            if !self.alpha_powers[i].is_wf() {
                assert(!self.alpha_powers@[i as int].wf());
                return false;
            }
            i = i + 1;
        }
        true
    }
}

fn are_canonical(ids: &[u32; 8]) -> (r: bool)
    ensures
        r == (forall|i: int| 0 <= i < 8 ==> #[trigger] ids@[i] < P),
{
    let mut i: usize = 0;
    while i < 8
        invariant
            i <= 8,
            forall|j: int| 0 <= j < i ==> #[trigger] ids@[j] < P,
        decreases 8 - i,
    {
        if ids[i] >= P {
            assert(ids@[i as int] >= P);
            return false;
        }
        i = i + 1;
    }
    true
}

impl RelationIds {
    /// Tells whether all constants are canonical.
    pub fn is_wf(&self) -> (r: bool)
        ensures
            r == self.wf(),
    {
        self.memory_address_to_id < P && self.memory_id_to_big < P && self.opcodes < P
            && self.verify_instruction < P && self.rc_18 < P && self.rc_18_b < P && self.rc_11 < P
            && self.rc_7_2_5 < P && self.rc_4_3 < P && self.rc_4_4 < P && self.rc_4_4_4_4 < P
            && self.rc_3_3_3_3_3 < P && self.range_check_252_width_27 < P
            && self.verify_bitwise_xor_8 < P && self.verify_bitwise_xor_8_b < P
            && self.triple_xor_32 < P && self.blake_round < P && self.partial_ec_mul < P
            && self.pedersen_points_table < P && self.cube_252 < P && self.poseidon_round_keys < P
            && self.poseidon_full_round_chain < P && self.poseidon_3_partial_rounds_chain < P
            && are_canonical(&self.rc_19) && are_canonical(&self.rc_9_9)
    }
}

} // verus!

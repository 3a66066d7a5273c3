//! The carries of a multiplication of long numbers.
//!
//! A kernel lists the carries of a multiplication in eight groups. It stores a carry with an offset
//! added, so that no stored value is negative; the table of 20-bit numbers, which the carries are
//! looked up in, stands at another offset. The groups serve the eight relations of that table, but
//! not in the order in which they are listed: the last group serves the first relation, and the
//! others serve the relations after it in order.

use crate::column::{columns, is_canonical, BaseFieldVec};
use crate::components_cuda::range_check::base::{are_all_inputs, fed_relations};
use crate::components_cuda::range_check::rc_20;
use crate::field::{m31_difference, P};
use crate::launch::groups;
use vstd::arithmetic::power2::pow2;
use vstd::prelude::*;

verus! {

/// The offset that a kernel adds to a carry.
pub const KERNEL_OFFSET: u32 = 131072;

/// The offset that a kernel adds to the very first carry, before it is made uniform.
pub const FIRST_KERNEL_OFFSET: u32 = 262144;

/// The offset at which the table expects a carry.
pub const TABLE_OFFSET: u32 = 524288;

/// What is missing to the table's offset.
pub const OFFSET_CORRECTION: u32 = 393216;

/// The number of relations of the table.
pub const N_CARRY_GROUPS: usize = 8;

/// Which of the groups serves a relation.
pub open spec fn group_of_relation(relation: int) -> int {
    if relation == 0 {
        7
    } else {
        relation - 1
    }
}

/// The values lowered by the kernel's offset in the base field.
pub open spec fn lowered(values: Seq<u32>) -> Seq<u32> {
    Seq::new(values.len(), |i: int| ((values[i] - KERNEL_OFFSET) % (P as int)) as u32)
}

/// The lookups with the first carry, the first entry of `group`, lowered to the uniform offset.
pub open spec fn normalized(lookups: Seq<Seq<Seq<Seq<u32>>>>, group: int) -> Seq<
    Seq<Seq<Seq<u32>>>,
> {
    lookups.update(
        group,
        lookups[group].update(0, lookups[group][0].update(0, lowered(lookups[group][0][0]))),
    )
}

/// What the relations of the table are fed with: the groups from `base` on, in the order of the
/// relations, at the table's offset.
pub open spec fn table_inputs(lookups: Seq<Seq<Seq<Seq<u32>>>>, base: int) -> Seq<
    Seq<Seq<Seq<u32>>>,
> {
    Seq::new(
        N_CARRY_GROUPS as nat,
        |r: int| rc_20::shifted_batches(lookups[base + group_of_relation(r)], OFFSET_CORRECTION),
    )
}

/// The group that serves a relation holds carries: at the table's offset they are 20-bit numbers.
pub open spec fn serves(lookups: Seq<Seq<Seq<Seq<u32>>>>, base: int, relation: int) -> bool {
    &&& rc_20::are_shiftable(lookups[base + group_of_relation(relation)])
    &&& are_all_inputs(rc_20::ranges(), table_inputs(lookups, base)[relation])
}

/// The eight groups from `base` on hold carries.
pub open spec fn are_carries(lookups: Seq<Seq<Seq<Seq<u32>>>>, base: int) -> bool {
    forall|r: int| 0 <= r < N_CARRY_GROUPS ==> #[trigger] serves(lookups, base, r)
}

/// A carry that a kernel stored, corrected, stands at the table's offset.
pub proof fn law_carry_offset(carry: int)
    ensures
        ((carry + KERNEL_OFFSET) % (P as int) + OFFSET_CORRECTION) % (P as int) == (carry
            + TABLE_OFFSET) % (P as int),
{
    vstd::arithmetic::div_mod::lemma_add_mod_noop_right(
        OFFSET_CORRECTION as int,
        carry + KERNEL_OFFSET,
        P as int,
    );
}

/// The very first carry, lowered, stands at the offset of all others.
pub proof fn law_first_carry_offset(carry: int)
    ensures
        ((carry + FIRST_KERNEL_OFFSET) % (P as int) - KERNEL_OFFSET) % (P as int) == (carry
            + KERNEL_OFFSET) % (P as int),
{
    vstd::arithmetic::div_mod::lemma_sub_mod_noop_right(0, KERNEL_OFFSET as int, P as int);
    vstd::arithmetic::div_mod::lemma_add_mod_noop_right(
        -(KERNEL_OFFSET as int),
        carry + FIRST_KERNEL_OFFSET,
        P as int,
    );
}

/// Lowering by the kernel's offset is adding its negative.
pub proof fn law_lowered_is_shifted(values: Seq<u32>)
    ensures
        lowered(values) == rc_20::shifted(values, (P - KERNEL_OFFSET) as u32),
{
    assert forall|i: int| 0 <= i < values.len() implies lowered(values)[i] == rc_20::shifted(
        values,
        (P - KERNEL_OFFSET) as u32,
    )[i] by {
        vstd::arithmetic::div_mod::lemma_mod_multiples_vanish(
            1,
            values[i] - KERNEL_OFFSET,
            P as int,
        );
    }
    assert(lowered(values) =~= rc_20::shifted(values, (P - KERNEL_OFFSET) as u32));
}

fn lower_column(col: &BaseFieldVec) -> (r: BaseFieldVec)
    requires
        is_canonical(col@),
    ensures
        r@ == lowered(col@),
{
    let mut values: Vec<u32> = Vec::new();
    let mut i: usize = 0;
    while i < col.values.len()
        invariant
            i <= col.values.len(),
            is_canonical(col@),
            values@ == lowered(col@.take(i as int)),
        decreases col.values.len() - i,
    {
        assert(col@[i as int] < P);
        values.push(m31_difference(col.values[i], KERNEL_OFFSET));
        i = i + 1;
        assert(values@ =~= lowered(col@.take(i as int)));
    }
    assert(col@.take(i as int) =~= col@);
    BaseFieldVec::from_vec(values)
}

/// Lowers the first carry, the first entry of `group`, to the uniform offset.
pub fn normalize_first_carry(lookups: &mut Vec<Vec<Vec<BaseFieldVec>>>, group: usize)
    requires
        group < old(lookups)@.len(),
        old(lookups)@[group as int]@.len() > 0,
        old(lookups)@[group as int]@[0]@.len() > 0,
        is_canonical(old(lookups)@[group as int]@[0]@[0]@),
    ensures
        groups(final(lookups)@) == normalized(groups(old(lookups)@), group as int),
        final(lookups)@.len() == old(lookups)@.len(),
{
    let ghost before = groups(lookups@);
    let ghost g0 = lookups@[group as int]@;
    let mut entries: Vec<Vec<BaseFieldVec>> = Vec::new();
    lookups.set_and_swap(group, &mut entries);
    let mut entry: Vec<BaseFieldVec> = Vec::new();
    entries.set_and_swap(0, &mut entry);
    let ghost e0 = entry@;
    let lower = lower_column(&entry[0]);
    entry.set(0, lower);
    assert(columns(entry@) =~= columns(e0).update(0, lowered(e0[0]@)));
    entries.set(0, entry);
    assert(crate::column::batches(entries@) =~= crate::column::batches(g0).update(
        0,
        columns(entry@),
    ));
    lookups.set(group, entries);
    assert(groups(lookups@) =~= normalized(before, group as int));
}

/// Counts the carries of the groups from `base` on in the table of 20-bit numbers.
pub fn feed_carries(
    state: &mut rc_20::CudaClaimGenerator,
    lookups: &Vec<Vec<Vec<BaseFieldVec>>>,
    base: usize,
)
    requires
        old(state).wf(),
        base + N_CARRY_GROUPS <= lookups@.len(),
        are_carries(groups(lookups@), base as int),
    ensures
        final(state).wf(),
        final(state).counters() == fed_relations(
            old(state).counters(),
            rc_20::ranges(),
            table_inputs(groups(lookups@), base as int),
        ),
{
    let ghost gs = groups(lookups@);
    let ghost fed = table_inputs(gs, base as int);
    let n = lookups.len();
    let mut r: usize = 0;
    assert(fed.take(0) =~= Seq::empty());
    while r < N_CARRY_GROUPS
        invariant
            r <= N_CARRY_GROUPS,
            base + N_CARRY_GROUPS <= n == lookups@.len(),
            gs == groups(lookups@),
            fed == table_inputs(gs, base as int),
            are_carries(gs, base as int),
            state.wf(),
            state.counters() == fed_relations(
                old(state).counters(),
                rc_20::ranges(),
                fed.take(r as int),
            ),
        decreases N_CARRY_GROUPS - r,
    {
        assert(serves(gs, base as int, r as int));
        let group: usize = if r == 0 {
            base + 7
        } else {
            base + (r - 1)
        };
        assert(gs[group as int] == crate::column::batches(lookups@[group as int]@));
        state.add_cuda_inputs_for_relation_with_offset(&lookups[group], r, OFFSET_CORRECTION);
        r = r + 1;
        assert(fed.take(r as int).drop_last() =~= fed.take(r - 1));
    }
    assert(fed.take(r as int) =~= fed);
}

/// The groups serve the relations in turn: each serves the relation behind its own place, the last
/// one the first relation. So every group serves one relation and every relation has one group.
pub proof fn law_groups_serve_relations_in_turn(group: int)
    requires
        0 <= group < N_CARRY_GROUPS,
    ensures
        group_of_relation((group + 1) % (N_CARRY_GROUPS as int)) == group,
        forall|r: int|
            0 <= r < N_CARRY_GROUPS && group_of_relation(r) == group ==> r == (group + 1) % (
            N_CARRY_GROUPS as int),
{
}

/// The table's offset makes carries of either sign 20-bit numbers: as many below zero as from zero
/// on.
pub proof fn law_table_offset_centers_carries(carry: int)
    ensures
        0 <= carry + TABLE_OFFSET < pow2(rc_20::LOG_SIZE as nat) <==> -(TABLE_OFFSET as int)
            <= carry < TABLE_OFFSET,
        FIRST_KERNEL_OFFSET == 2 * KERNEL_OFFSET,
        KERNEL_OFFSET + OFFSET_CORRECTION == TABLE_OFFSET,
        KERNEL_OFFSET == pow2(17),
{
    vstd::arithmetic::power2::lemma2_to64();
}

/// Only the first carry is lowered, by the kernel's offset; all other lookups stay.
pub proof fn law_only_the_first_carry_is_lowered(
    lookups: Seq<Seq<Seq<Seq<u32>>>>,
    group: int,
    g: int,
    e: int,
    c: int,
    i: int,
)
    requires
        0 <= group < lookups.len(),
        lookups[group].len() > 0,
        lookups[group][0].len() > 0,
        0 <= g < lookups.len(),
        0 <= e < lookups[g].len(),
        0 <= c < lookups[g][e].len(),
        0 <= i < lookups[g][e][c].len(),
        lookups[g][e][c][i] < P,
    ensures
        normalized(lookups, group).len() == lookups.len(),
        normalized(lookups, group)[g].len() == lookups[g].len(),
        normalized(lookups, group)[g][e].len() == lookups[g][e].len(),
        normalized(lookups, group)[g][e][c].len() == lookups[g][e][c].len(),
        g == group && e == 0 && c == 0 ==> (normalized(lookups, group)[g][e][c][i] + KERNEL_OFFSET)
            % (P as int) == lookups[g][e][c][i],
        !(g == group && e == 0 && c == 0) ==> normalized(lookups, group)[g][e][c][i]
            == lookups[g][e][c][i],
{
    if g == group && e == 0 && c == 0 {
        let v = lookups[g][e][c][i] as int;
        vstd::arithmetic::div_mod::lemma_add_mod_noop_right(
            KERNEL_OFFSET as int,
            v - KERNEL_OFFSET,
            P as int,
        );
        vstd::arithmetic::div_mod::lemma_small_mod(v as nat, P as nat);
    }
}

} // verus!

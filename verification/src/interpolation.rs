//! How evaluations are interpolated in batches: columns of the same size go together.

use crate::bits::lemma_pow2_bound;
use crate::column::{batches, columns, BaseFieldVec};
use crate::sorting::{is_stable_order, stable_order};
use crate::tree_builder::MAX_LOG_SIZE;
use vstd::arithmetic::power2::pow2;
use vstd::prelude::*;

verus! {

/// The logarithm of the largest columns that are interpolated one by one on the host.
pub const MAX_HOST_LOG_SIZE: u32 = 3;

/// How the columns of a group are interpolated.
#[derive(Clone, Copy, Debug, PartialEq, Eq, Structural)]
pub enum Method {
    /// One by one on the host.
    Host,
    /// All at once by a transform on the device, which is told the number of columns and the size
    /// of half of their domain.
    Transform { num_poly: u32, eval_domain_size: u32 },
}

/// Columns of the same size.
pub struct InterpolationGroup {
    pub log_size: u32,
    pub members: Vec<usize>,
    pub method: Method,
}

/// Column `i` is member `k` of group `g`.
pub open spec fn is_member(groups: Seq<InterpolationGroup>, i: int, g: int, k: int) -> bool {
    &&& 0 <= g < groups.len()
    &&& 0 <= k < groups[g].members@.len()
    &&& groups[g].members@[k] == i
}

/// Column `i` is a member of a group.
pub open spec fn is_covered(groups: Seq<InterpolationGroup>, i: int) -> bool {
    exists|g: int, k: int| is_member(groups, i, g, k)
}

/// The group holds columns of its size, in their order.
pub open spec fn is_uniform(log_sizes: Seq<u32>, group: InterpolationGroup) -> bool {
    &&& group.members@.len() > 0
    &&& forall|k: int|
        0 <= k < group.members@.len() ==> #[trigger] group.members@[k] < log_sizes.len()
            && log_sizes[group.members@[k] as int] == group.log_size
    &&& forall|k: int, l: int|
        0 <= k < l < group.members@.len() ==> #[trigger] group.members@[k]
            < #[trigger] group.members@[l]
}

/// The method of a group.
pub open spec fn method_of(log_size: u32, n_members: nat) -> Method {
    if log_size <= MAX_HOST_LOG_SIZE {
        Method::Host
    } else {
        Method::Transform {
            num_poly: n_members as u32,
            eval_domain_size: pow2((log_size - 1) as nat) as u32,
        }
    }
}

/// The groups hold the columns of one size each, by ascending size, and every column is in one.
pub open spec fn is_grouping(log_sizes: Seq<u32>, groups: Seq<InterpolationGroup>) -> bool {
    &&& forall|g: int| 0 <= g < groups.len() ==> is_uniform(log_sizes, #[trigger] groups[g])
    &&& forall|g: int|
        0 <= g < groups.len() ==> (#[trigger] groups[g]).method == method_of(
            groups[g].log_size,
            groups[g].members@.len(),
        )
    &&& forall|g: int, h: int|
        0 <= g < h < groups.len() ==> (#[trigger] groups[g]).log_size < (
        #[trigger] groups[h]).log_size
    &&& forall|i: int| 0 <= i < log_sizes.len() ==> #[trigger] is_covered(groups, i)
}

/// Every column is in a single place of a single group, so nothing that is computed for a group is
/// lost or computed twice.
pub proof fn law_every_column_is_in_one_place(
    log_sizes: Seq<u32>,
    groups: Seq<InterpolationGroup>,
    i: int,
    g: int,
    k: int,
    h: int,
    l: int,
)
    requires
        is_grouping(log_sizes, groups),
        is_member(groups, i, g, k),
        is_member(groups, i, h, l),
    ensures
        g == h,
        k == l,
{
    assert(is_uniform(log_sizes, groups[g]));
    assert(is_uniform(log_sizes, groups[h]));
    assert(groups[g].members@[k] < log_sizes.len());
    assert(groups[h].members@[l] < log_sizes.len());
    assert(groups[g].log_size == groups[h].log_size);
    if g < h {
        assert(groups[g].log_size < groups[h].log_size);
    }
    if h < g {
        assert(groups[h].log_size < groups[g].log_size);
    }
    if k < l {
        assert(groups[g].members@[k] < groups[g].members@[l]);
    }
    if l < k {
        assert(groups[g].members@[l] < groups[g].members@[k]);
    }
}

/// `CanonicCoset::new`, `circle_domain` and `Coset::size` of `stwo`: half of the circle domain of
/// size two to the power of `log_size` is a coset with half as many points. `CanonicCoset::new`
/// refuses an empty domain, and the circle has no larger domain than the bound admits.
#[verifier::external_body]
pub(crate) fn half_coset_size(log_size: u32) -> (r: u32)
    requires
        0 < log_size <= MAX_LOG_SIZE,
    ensures
        r == pow2((log_size - 1) as nat),
{
    let domain = stwo::core::poly::circle::CanonicCoset::new(log_size).circle_domain();
    domain.half_coset.size() as u32
}

/// Groups columns with the given sizes for interpolation.
pub fn interpolation_groups(log_sizes: &Vec<u32>) -> (groups: Vec<InterpolationGroup>)
    requires
        log_sizes@.len() <= u32::MAX,
        forall|i: int| 0 <= i < log_sizes@.len() ==> 0 < #[trigger] log_sizes@[i] <= MAX_LOG_SIZE,
    ensures
        is_grouping(log_sizes@, groups@),
{
    let n = log_sizes.len();
    let mut keys: Vec<u64> = Vec::new();
    let mut i: usize = 0;
    while i < n
        invariant
            i <= n == log_sizes@.len(),
            keys@.len() == i,
            forall|j: int| 0 <= j < i ==> #[trigger] keys@[j] == log_sizes@[j],
        decreases n - i,
    {
        keys.push(log_sizes[i] as u64);
        i = i + 1;
    }
    let order = stable_order(&keys);
    let ghost ints = order@.map_values(|x: usize| x as int);
    proof {
        assert(ints.len() == n);
        assert forall|p: int| 0 <= p < order@.len() implies #[trigger] order@[p] < n by {
            assert(ints[p] == order@[p]);
        }
    }
    let mut groups: Vec<InterpolationGroup> = Vec::new();
    let mut start: usize = 0;
    while start < order.len()
        invariant
            start <= order@.len(),
            order@.len() == n == log_sizes@.len() == keys@.len(),
            n <= u32::MAX,
            forall|i: int|
                0 <= i < log_sizes@.len() ==> 0 < #[trigger] log_sizes@[i] <= MAX_LOG_SIZE,
            forall|j: int| 0 <= j < n ==> #[trigger] keys@[j] == log_sizes@[j],
            forall|p: int| 0 <= p < n ==> #[trigger] order@[p] < n,
            is_stable_order(keys@, order@),
            forall|g: int|
                0 <= g < groups@.len() ==> is_uniform(log_sizes@, #[trigger] groups@[g]),
            forall|g: int|
                0 <= g < groups@.len() ==> (#[trigger] groups@[g]).method == method_of(
                    groups@[g].log_size,
                    groups@[g].members@.len(),
                ),
            forall|g: int, h: int|
                0 <= g < h < groups@.len() ==> (#[trigger] groups@[g]).log_size < (
                #[trigger] groups@[h]).log_size,
            forall|g: int, p: int|
                0 <= g < groups@.len() && start <= p < n ==> (#[trigger] groups@[g]).log_size
                    < log_sizes@[#[trigger] order@[p] as int],
            forall|p: int| 0 <= p < start ==> is_covered(groups@, #[trigger] order@[p] as int),
        decreases order.len() - start,
    {
        assert(order@[start as int] < n);
        let log_size = log_sizes[order[start]];
        let mut members: Vec<usize> = Vec::new();
        let mut end: usize = start;
        while end < order.len() && log_sizes[order[end]] == log_size
            invariant
                start <= end <= order@.len(),
                order@.len() == n == log_sizes@.len() == keys@.len(),
                forall|j: int| 0 <= j < n ==> #[trigger] keys@[j] == log_sizes@[j],
                forall|p: int| 0 <= p < n ==> #[trigger] order@[p] < n,
                is_stable_order(keys@, order@),
                members@ == order@.subrange(start as int, end as int),
                forall|p: int|
                    start <= p < end ==> log_sizes@[#[trigger] order@[p] as int] == log_size,
            decreases order.len() - end,
        {
            members.push(order[end]);
            end = end + 1;
            assert(members@ =~= order@.subrange(start as int, end as int));
        }
        proof {
            assert(start < end);
            assert(log_sizes@[order@[start as int] as int] == log_size);
            assert(0 < log_size <= MAX_LOG_SIZE);
            lemma_pow2_bound((log_size - 1) as nat);
        }
        let method = if log_size <= MAX_HOST_LOG_SIZE {
            Method::Host
        } else {
            Method::Transform {
                num_poly: members.len() as u32,
                eval_domain_size: half_coset_size(log_size),
            }
        };
        let group = InterpolationGroup { log_size, members, method };
        let ghost before = groups@;
        let ghost listed = members@;
        groups.push(group);
        proof {
            let s = start as int;
            let e = end as int;
            assert forall|k: int| 0 <= k < listed.len() implies #[trigger] listed[k] < n
                && log_sizes@[listed[k] as int] == log_size by {
                assert(listed[k] == order@[s + k]);
            }
            assert forall|k: int, l: int| 0 <= k < l < listed.len() implies #[trigger] listed[k]
                < #[trigger] listed[l] by {
                assert(listed[k] == order@[s + k]);
                assert(listed[l] == order@[s + l]);
                assert(keys@[order@[s + k] as int] == log_sizes@[order@[s + k] as int]);
                assert(keys@[order@[s + l] as int] == log_sizes@[order@[s + l] as int]);
            }
            assert(is_uniform(log_sizes@, group));
            assert forall|g: int, h: int| 0 <= g < h < groups@.len() implies (
            #[trigger] groups@[g]).log_size < (#[trigger] groups@[h]).log_size by {
                if h == before.len() {
                    assert(groups@[g] == before[g]);
                    assert(before[g].log_size < log_sizes@[order@[s] as int]);
                }
            }
            assert forall|p: int| e <= p < n implies log_size < log_sizes@[
                #[trigger] order@[p] as int
            ] by {
                // The column at the end differs in size, and what follows is not smaller.
                assert(keys@[order@[s] as int] == log_sizes@[order@[s] as int]);
                assert(keys@[order@[e] as int] == log_sizes@[order@[e] as int]);
                assert(keys@[order@[p] as int] == log_sizes@[order@[p] as int]);
                assert(log_sizes@[order@[e] as int] != log_size);
                assert(keys@[order@[s] as int] <= keys@[order@[e] as int]);
                if e < p {
                    assert(keys@[order@[e] as int] <= keys@[order@[p] as int]);
                }
            }
            assert forall|g: int, p: int| 0 <= g < groups@.len() && e <= p < n implies (
            #[trigger] groups@[g]).log_size < log_sizes@[#[trigger] order@[p] as int] by {
                if g < before.len() {
                    assert(groups@[g] == before[g]);
                }
            }
            assert forall|p: int| 0 <= p < e implies is_covered(
                groups@,
                #[trigger] order@[p] as int,
            ) by {
                if p < s {
                    assert(is_covered(before, order@[p] as int));
                    let (g, k) = choose|g: int, k: int| is_member(before, order@[p] as int, g, k);
                    assert(is_member(groups@, order@[p] as int, g, k));
                } else {
                    assert(listed[p - s] == order@[p]);
                    assert(is_member(groups@, order@[p] as int, before.len() as int, p - s));
                }
            }
        }
        start = end;
    }
    proof {
        assert forall|i: int| 0 <= i < log_sizes@.len() implies #[trigger] is_covered(
            groups@,
            i,
        ) by {
            assert(ints.contains(i));
            let p = choose|p: int| 0 <= p < ints.len() && ints[p] == i;
            assert(order@[p] == i);
        }
    }
    groups
}

/// Returns the number of members of the largest group; zero if there is none.
pub fn largest_group(groups: &Vec<InterpolationGroup>) -> (r: usize)
    ensures
        forall|g: int| 0 <= g < groups@.len() ==> (#[trigger] groups@[g]).members@.len() <= r,
        groups@.len() == 0 ==> r == 0,
        groups@.len() > 0 ==> exists|g: int|
            0 <= g < groups@.len() && (#[trigger] groups@[g]).members@.len() == r,
{
    let mut r: usize = 0;
    let mut g: usize = 0;
    while g < groups.len()
        invariant
            g <= groups.len(),
            forall|h: int| 0 <= h < g ==> (#[trigger] groups@[h]).members@.len() <= r,
            g == 0 ==> r == 0,
            g > 0 ==> exists|h: int| 0 <= h < g && (#[trigger] groups@[h]).members@.len() == r,
        decreases groups.len() - g,
    {
        let size = groups[g].members.len();
        if g == 0 || size > r {
            r = size;
            assert(groups@[g as int].members@.len() == r);
        }
        g = g + 1;
    }
    r
}

/// Every group has an outcome for each of its members.
pub open spec fn are_outcomes(
    groups: Seq<InterpolationGroup>,
    outcomes: Seq<Seq<Seq<u32>>>,
) -> bool {
    &&& outcomes.len() == groups.len()
    &&& forall|g: int|
        0 <= g < groups.len() ==> (#[trigger] outcomes[g]).len() == groups[g].members@.len()
}

/// The outcomes of all groups are back in the order of the columns.
pub open spec fn is_in_order(
    log_sizes: Seq<u32>,
    groups: Seq<InterpolationGroup>,
    outcomes: Seq<Seq<Seq<u32>>>,
    polys: Seq<Seq<u32>>,
) -> bool {
    &&& polys.len() == log_sizes.len()
    &&& forall|i: int, g: int, k: int| #[trigger]
        is_member(groups, i, g, k) ==> polys[i] == outcomes[g][k]
}

/// The outcomes are what the transform makes of the members of the groups, of each on its own.
pub open spec fn are_transformed(
    transform: spec_fn(u32, Seq<u32>) -> Seq<u32>,
    cols: Seq<Seq<u32>>,
    groups: Seq<InterpolationGroup>,
    outcomes: Seq<Seq<Seq<u32>>>,
) -> bool {
    &&& are_outcomes(groups, outcomes)
    &&& forall|i: int, g: int, k: int| #[trigger]
        is_member(groups, i, g, k) ==> outcomes[g][k] == transform(groups[g].log_size, cols[i])
}

/// Grouping by size does not show in the result: it has one polynomial for each column, which is
/// what the transform makes of that column. No columns give no polynomials.
pub proof fn law_grouping_does_not_show(
    transform: spec_fn(u32, Seq<u32>) -> Seq<u32>,
    cols: Seq<Seq<u32>>,
    log_sizes: Seq<u32>,
    groups: Seq<InterpolationGroup>,
    outcomes: Seq<Seq<Seq<u32>>>,
    polys: Seq<Seq<u32>>,
)
    requires
        cols.len() == log_sizes.len(),
        is_grouping(log_sizes, groups),
        are_transformed(transform, cols, groups, outcomes),
        is_in_order(log_sizes, groups, outcomes, polys),
    ensures
        polys == Seq::new(cols.len(), |i: int| transform(log_sizes[i], cols[i])),
{
    assert forall|i: int| 0 <= i < cols.len() implies polys[i] == transform(
        log_sizes[i],
        cols[i],
    ) by {
        assert(is_covered(groups, i));
        let (g, k) = choose|g: int, k: int| is_member(groups, i, g, k);
        assert(is_uniform(log_sizes, groups[g]));
        assert(groups[g].members@[k] < log_sizes.len());
    }
    assert(polys =~= Seq::new(cols.len(), |i: int| transform(log_sizes[i], cols[i])));
}

/// A batch gives for every column what the column gives when it is interpolated alone.
pub proof fn law_a_batch_is_its_columns_one_by_one(
    transform: spec_fn(u32, Seq<u32>) -> Seq<u32>,
    cols: Seq<Seq<u32>>,
    log_sizes: Seq<u32>,
    groups: Seq<InterpolationGroup>,
    outcomes: Seq<Seq<Seq<u32>>>,
    polys: Seq<Seq<u32>>,
    i: int,
    alone_groups: Seq<InterpolationGroup>,
    alone_outcomes: Seq<Seq<Seq<u32>>>,
    alone: Seq<Seq<u32>>,
)
    requires
        cols.len() == log_sizes.len(),
        is_grouping(log_sizes, groups),
        are_transformed(transform, cols, groups, outcomes),
        is_in_order(log_sizes, groups, outcomes, polys),
        0 <= i < cols.len(),
        is_grouping(seq![log_sizes[i]], alone_groups),
        are_transformed(transform, seq![cols[i]], alone_groups, alone_outcomes),
        is_in_order(seq![log_sizes[i]], alone_groups, alone_outcomes, alone),
    ensures
        polys.len() == cols.len(),
        alone.len() == 1,
        polys[i] == alone[0],
{
    law_grouping_does_not_show(transform, cols, log_sizes, groups, outcomes, polys);
    law_grouping_does_not_show(
        transform,
        seq![cols[i]],
        seq![log_sizes[i]],
        alone_groups,
        alone_outcomes,
        alone,
    );
}

/// Brings the outcomes of all groups back into the order of the columns.
pub fn interpolate_columns_batched(
    log_sizes: &Vec<u32>,
    groups: &Vec<InterpolationGroup>,
    outcomes: &Vec<Vec<BaseFieldVec>>,
) -> (polys: Vec<BaseFieldVec>)
    requires
        is_grouping(log_sizes@, groups@),
        are_outcomes(groups@, batches(outcomes@)),
    ensures
        is_in_order(log_sizes@, groups@, batches(outcomes@), columns(polys@)),
{
    let n = log_sizes.len();
    let mut polys: Vec<BaseFieldVec> = Vec::new();
    while polys.len() < n
        invariant
            polys@.len() <= n,
        decreases n - polys@.len(),
    {
        polys.push(BaseFieldVec::new_zeroes(0));
    }
    let ghost all = batches(outcomes@);
    let mut g: usize = 0;
    while g < groups.len()
        invariant
            g <= groups@.len(),
            n == log_sizes@.len() == polys@.len(),
            all == batches(outcomes@),
            is_grouping(log_sizes@, groups@),
            are_outcomes(groups@, all),
            forall|i: int, h: int, l: int|
                h < g && #[trigger] is_member(groups@, i, h, l) ==> columns(polys@)[i]
                    == all[h][l],
        decreases groups.len() - g,
    {
        assert(all[g as int].len() == groups@[g as int].members@.len());
        assert(is_uniform(log_sizes@, groups@[g as int]));
        let mut k: usize = 0;
        while k < groups[g].members.len()
            invariant
                g < groups@.len(),
                k <= groups@[g as int].members@.len(),
                n == log_sizes@.len() == polys@.len(),
                all == batches(outcomes@),
                is_grouping(log_sizes@, groups@),
                are_outcomes(groups@, all),
                all[g as int].len() == groups@[g as int].members@.len(),
                is_uniform(log_sizes@, groups@[g as int]),
                forall|i: int, h: int, l: int|
                    (h < g || h == g && l < k) && #[trigger] is_member(groups@, i, h, l)
                        ==> columns(polys@)[i] == all[h][l],
            decreases groups@[g as int].members@.len() - k,
        {
            let i = groups[g].members[k];
            let ghost before = columns(polys@);
            assert(groups@[g as int].members@[k as int] < log_sizes@.len());
            polys.set(i, outcomes[g][k].duplicate());
            proof {
                assert(columns(polys@) =~= before.update(i as int, all[g as int][k as int]));
                assert(is_member(groups@, i as int, g as int, k as int));
                assert forall|j: int, h: int, l: int|
                    (h < g || h == g && l < k + 1) && #[trigger] is_member(
                        groups@,
                        j,
                        h,
                        l,
                    ) implies columns(polys@)[j] == all[h][l] by {
                    if j == i {
                        law_every_column_is_in_one_place(
                            log_sizes@,
                            groups@,
                            j,
                            g as int,
                            k as int,
                            h,
                            l,
                        );
                    } else {
                        assert(is_uniform(log_sizes@, groups@[h]));
                        assert(groups@[h].members@[l] < log_sizes@.len());
                    }
                }
            }
            k = k + 1;
        }
        g = g + 1;
    }
    polys
}

/// The transform is told as many columns as the group has, and half of the size of their domain;
/// columns of up to eight values are left to the host.
pub proof fn law_groups_are_described(log_sizes: Seq<u32>, groups: Seq<InterpolationGroup>, g: int)
    requires
        is_grouping(log_sizes, groups),
        log_sizes.len() <= u32::MAX,
        0 <= g < groups.len(),
        0 < groups[g].log_size <= MAX_LOG_SIZE,
        groups[g].members@.len() <= u32::MAX,
    ensures
        groups[g].method is Host <==> pow2(groups[g].log_size as nat) <= 8,
        groups[g].method matches Method::Transform { num_poly, eval_domain_size } ==> num_poly
            == groups[g].members@.len() && 2 * eval_domain_size == pow2(groups[g].log_size as nat),
{
    let n = groups[g].log_size as nat;
    assert(groups[g].method == method_of(groups[g].log_size, groups[g].members@.len()));
    lemma_pow2_bound((n - 1) as nat);
    vstd::arithmetic::power2::lemma_pow2_unfold(n);
    vstd::arithmetic::power2::lemma2_to64();
    if n < 3 {
        vstd::arithmetic::power2::lemma_pow2_strictly_increases(n, 3);
    }
    if n > 3 {
        vstd::arithmetic::power2::lemma_pow2_strictly_increases(3, n);
    }
}

} // verus!

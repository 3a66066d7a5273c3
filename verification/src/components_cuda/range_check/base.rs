//! Tables of tuples of small numbers, and how often each tuple was looked up.
//!
//! A table holds every tuple whose segments fit into given numbers of bits. The tuple's segments,
//! the first one most significant, make up the index of its row.

use crate::bits::exp2;
use crate::column::{batches, columns, filled, is_shape, zero_columns, BaseFieldVec, Uint32Vec};
use crate::field::{SecureField, P};
use crate::launch::{finish_interaction, groups, secure_of};
use crate::lookup::{create_per_relation_lookup_elements, is_per_relation, LookupElements};
use crate::tree_builder::{committed, TreeBuilder, MAX_LOG_SIZE};
use vstd::arithmetic::power2::{
    lemma_pow2_adds, lemma_pow2_pos, lemma_pow2_strictly_increases, pow2,
};
use vstd::prelude::*;

verus! {

/// The number of bits of a tuple.
pub open spec fn total_bits(ranges: Seq<u32>) -> nat
    decreases ranges.len(),
{
    if ranges.len() == 0 {
        0
    } else {
        total_bits(ranges.drop_last()) + ranges.last() as nat
    }
}

/// The index of the row that holds the tuple.
pub open spec fn table_index(ranges: Seq<u32>, tuple: Seq<u32>) -> nat
    decreases ranges.len(),
{
    if ranges.len() == 0 {
        0
    } else {
        table_index(ranges.drop_last(), tuple.drop_last()) * pow2(ranges.last() as nat)
            + tuple.last() as nat
    }
}

/// The tuple in the row with the given index.
pub open spec fn table_row(ranges: Seq<u32>, index: nat) -> Seq<u32>
    decreases ranges.len(),
{
    if ranges.len() == 0 {
        Seq::empty()
    } else {
        table_row(ranges.drop_last(), index / pow2(ranges.last() as nat)).push(
            (index % pow2(ranges.last() as nat)) as u32,
        )
    }
}

/// Every segment of the tuple fits into its number of bits.
pub open spec fn in_range(ranges: Seq<u32>, tuple: Seq<u32>) -> bool {
    &&& tuple.len() == ranges.len()
    &&& forall|k: int| 0 <= k < ranges.len() ==> #[trigger] tuple[k] < pow2(ranges[k] as nat)
}

/// The tuple in row `r` of columns that hold one segment each.
pub open spec fn tuple_at(cols: Seq<Seq<u32>>, r: int) -> Seq<u32> {
    Seq::new(cols.len(), |k: int| cols[k][r])
}

/// There is a column for each segment, with at least `n_rows` rows, and the tuples of these rows
/// are in the table.
pub open spec fn are_inputs(ranges: Seq<u32>, cols: Seq<Seq<u32>>, n_rows: nat) -> bool {
    &&& cols.len() == ranges.len()
    &&& forall|k: int| 0 <= k < cols.len() ==> (#[trigger] cols[k]).len() >= n_rows
    &&& forall|r: int| 0 <= r < n_rows ==> in_range(ranges, #[trigger] tuple_at(cols, r))
}

/// How many of the first `n_rows` tuples are the one in row `index` of the table.
pub open spec fn occurrences(ranges: Seq<u32>, cols: Seq<Seq<u32>>, n_rows: nat, index: int) -> nat
    decreases n_rows,
{
    if n_rows == 0 {
        0
    } else {
        occurrences(ranges, cols, (n_rows - 1) as nat, index) + if table_index(
            ranges,
            tuple_at(cols, n_rows - 1),
        ) == index {
            1nat
        } else {
            0nat
        }
    }
}

/// How many of the first `n_rows` tuples of every batch are the one in row `index` of the table.
pub open spec fn batch_occurrences(
    ranges: Seq<u32>,
    inputs: Seq<Seq<Seq<u32>>>,
    n_rows: nat,
    index: int,
) -> nat
    decreases inputs.len(),
{
    if inputs.len() == 0 {
        0
    } else {
        batch_occurrences(ranges, inputs.drop_last(), n_rows, index) + occurrences(
            ranges,
            inputs.last(),
            n_rows,
            index,
        )
    }
}

/// How many tuples of the batches, with as many rows as each batch has, are the one in row
/// `index` of the table.
pub open spec fn all_occurrences(ranges: Seq<u32>, inputs: Seq<Seq<Seq<u32>>>, index: int) -> nat
    decreases inputs.len(),
{
    if inputs.len() == 0 {
        0
    } else {
        all_occurrences(ranges, inputs.drop_last(), index) + occurrences(
            ranges,
            inputs.last(),
            inputs.last()[0].len(),
            index,
        )
    }
}

/// Two counters added, with the carry out of the word dropped.
pub open spec fn wrapped(a: int, b: int) -> u32 {
    ((a + b) % 0x1_0000_0000) as u32
}

/// The counters with `more(i)` added to counter `i`.
pub open spec fn counted(mults: Seq<u32>, more: spec_fn(int) -> int) -> Seq<u32> {
    Seq::new(mults.len(), |i: int| wrapped(mults[i] as int, more(i)))
}

proof fn lemma_index_bound(ranges: Seq<u32>, tuple: Seq<u32>)
    requires
        in_range(ranges, tuple),
    ensures
        table_index(ranges, tuple) < pow2(total_bits(ranges)),
    decreases ranges.len(),
{
    vstd::arithmetic::power::lemma_pow0(2);
    if ranges.len() > 0 {
        let r = ranges.drop_last();
        let t = tuple.drop_last();
        let b = ranges.last() as nat;
        assert(in_range(r, t)) by {
            assert forall|k: int| 0 <= k < r.len() implies #[trigger] t[k] < pow2(r[k] as nat) by {
                assert(tuple[k] < pow2(ranges[k] as nat));
            }
        }
        lemma_index_bound(r, t);
        lemma_pow2_adds(total_bits(r), b);
        assert(tuple[ranges.len() - 1] < pow2(ranges[ranges.len() - 1] as nat));
        let x = table_index(r, t);
        let n = pow2(total_bits(r));
        let m = pow2(b);
        let v = tuple.last() as nat;
        assert(x * m + v < n * m) by (nonlinear_arith)
            requires
                x < n,
                v < m,
        ;
    }
}

/// The table holds each tuple in one row: the row at the index of a tuple holds that tuple.
pub proof fn law_row_of_index(ranges: Seq<u32>, tuple: Seq<u32>)
    requires
        in_range(ranges, tuple),
    ensures
        table_index(ranges, tuple) < pow2(total_bits(ranges)),
        table_row(ranges, table_index(ranges, tuple)) == tuple,
    decreases ranges.len(),
{
    lemma_index_bound(ranges, tuple);
    if ranges.len() > 0 {
        let r = ranges.drop_last();
        let t = tuple.drop_last();
        assert(in_range(r, t)) by {
            assert forall|k: int| 0 <= k < r.len() implies #[trigger] t[k] < pow2(r[k] as nat) by {
                assert(tuple[k] < pow2(ranges[k] as nat));
            }
        }
        law_row_of_index(r, t);
        let m = pow2(ranges.last() as nat);
        let v = tuple.last() as nat;
        assert(tuple[ranges.len() - 1] < pow2(ranges[ranges.len() - 1] as nat));
        vstd::arithmetic::div_mod::lemma_fundamental_div_mod_converse(
            table_index(ranges, tuple) as int,
            m as int,
            table_index(r, t) as int,
            v as int,
        );
        assert(table_row(ranges, table_index(ranges, tuple)) =~= tuple);
    } else {
        assert(table_row(ranges, table_index(ranges, tuple)) =~= tuple);
    }
}

/// Every row of the table holds a tuple whose segments fit, and the index of that tuple is the
/// row's.
pub proof fn law_index_of_row(ranges: Seq<u32>, index: nat)
    requires
        index < pow2(total_bits(ranges)),
        forall|k: int| 0 <= k < ranges.len() ==> #[trigger] ranges[k] <= 32,
    ensures
        in_range(ranges, table_row(ranges, index)),
        table_index(ranges, table_row(ranges, index)) == index,
    decreases ranges.len(),
{
    vstd::arithmetic::power::lemma_pow0(2);
    if ranges.len() > 0 {
        let r = ranges.drop_last();
        let b = ranges.last() as nat;
        let m = pow2(b);
        lemma_pow2_pos(b);
        lemma_pow2_adds(total_bits(r), b);
        let n = pow2(total_bits(r));
        assert(index / m < n) by {
            vstd::arithmetic::div_mod::lemma_fundamental_div_mod(index as int, m as int);
            vstd::arithmetic::div_mod::lemma_mod_bound(index as int, m as int);
            let q = (index / m) as int;
            assert(q < n) by (nonlinear_arith)
                requires
                    m * q <= index,
                    index < n * m,
                    m > 0,
            ;
        }
        assert forall|k: int| 0 <= k < r.len() implies #[trigger] r[k] <= 32 by {
            assert(ranges[k] <= 32);
        }
        law_index_of_row(r, index / m);
        vstd::arithmetic::div_mod::lemma_fundamental_div_mod(index as int, m as int);
        vstd::arithmetic::div_mod::lemma_mod_bound(index as int, m as int);
        vstd::arithmetic::power2::lemma2_to64();
        assert(ranges[ranges.len() - 1] <= 32);
        if b < 32 {
            lemma_pow2_strictly_increases(b, 32);
        }
        let row = table_row(ranges, index);
        let sub = table_row(r, index / m);
        assert(row.drop_last() =~= sub);
        assert(row.last() == index % m);
        assert((index / m) * m + index % m == index) by (nonlinear_arith)
            requires
                index == m * (index / m) + index % m,
        ;
        assert forall|k: int| 0 <= k < ranges.len() implies #[trigger] row[k] < pow2(
            ranges[k] as nat,
        ) by {
            if k < r.len() {
                assert(sub[k] < pow2(r[k] as nat));
            }
        }
    }
}

/// How many of the first `n_rows` tuples are the given one.
pub open spec fn rows_with(cols: Seq<Seq<u32>>, n_rows: nat, tuple: Seq<u32>) -> nat
    decreases n_rows,
{
    if n_rows == 0 {
        0
    } else {
        rows_with(cols, (n_rows - 1) as nat, tuple) + if tuple_at(cols, n_rows - 1) == tuple {
            1nat
        } else {
            0nat
        }
    }
}

/// A row of the table is counted as often as its tuple is looked up.
pub proof fn law_counter_counts_its_row(
    ranges: Seq<u32>,
    cols: Seq<Seq<u32>>,
    n_rows: nat,
    index: nat,
)
    requires
        are_inputs(ranges, cols, n_rows),
        index < pow2(total_bits(ranges)),
        forall|k: int| 0 <= k < ranges.len() ==> #[trigger] ranges[k] <= 32,
    ensures
        occurrences(ranges, cols, n_rows, index as int) == rows_with(
            cols,
            n_rows,
            table_row(ranges, index),
        ),
    decreases n_rows,
{
    if n_rows > 0 {
        let m = (n_rows - 1) as nat;
        let tuple = tuple_at(cols, n_rows - 1);
        assert(are_inputs(ranges, cols, m)) by {
            assert forall|k: int| 0 <= k < cols.len() implies (#[trigger] cols[k]).len() >= m by {
                assert(cols[k].len() >= n_rows);
            }
        }
        law_counter_counts_its_row(ranges, cols, m, index);
        assert(in_range(ranges, tuple));
        law_row_of_index(ranges, tuple);
        law_index_of_row(ranges, index);
    }
}

/// The number of lookups that the first `n` rows of the table count.
pub open spec fn counted_up_to(
    ranges: Seq<u32>,
    cols: Seq<Seq<u32>>,
    n_rows: nat,
    n: nat,
) -> nat
    decreases n,
{
    if n == 0 {
        0
    } else {
        counted_up_to(ranges, cols, n_rows, (n - 1) as nat) + occurrences(
            ranges,
            cols,
            n_rows,
            n - 1,
        )
    }
}

proof fn lemma_one_row_counts_once(
    ranges: Seq<u32>,
    cols: Seq<Seq<u32>>,
    n_rows: nat,
    n: nat,
)
    requires
        n_rows > 0,
    ensures
        counted_up_to(ranges, cols, n_rows, n) == counted_up_to(
            ranges,
            cols,
            (n_rows - 1) as nat,
            n,
        ) + if table_index(ranges, tuple_at(cols, n_rows - 1)) < n {
            1nat
        } else {
            0nat
        },
    decreases n,
{
    if n > 0 {
        lemma_one_row_counts_once(ranges, cols, n_rows, (n - 1) as nat);
    }
}

/// Every lookup is counted once: the counters of all rows of the table together count as many
/// lookups as there are rows of inputs.
pub proof fn law_every_lookup_is_counted_once(
    ranges: Seq<u32>,
    cols: Seq<Seq<u32>>,
    n_rows: nat,
)
    requires
        are_inputs(ranges, cols, n_rows),
    ensures
        counted_up_to(ranges, cols, n_rows, pow2(total_bits(ranges))) == n_rows,
    decreases n_rows,
{
    let size = pow2(total_bits(ranges));
    if n_rows == 0 {
        lemma_no_rows_count(ranges, cols, size);
    } else {
        let m = (n_rows - 1) as nat;
        assert(are_inputs(ranges, cols, m)) by {
            assert forall|k: int| 0 <= k < cols.len() implies (#[trigger] cols[k]).len() >= m by {
                assert(cols[k].len() >= n_rows);
            }
        }
        law_every_lookup_is_counted_once(ranges, cols, m);
        assert(in_range(ranges, tuple_at(cols, n_rows - 1)));
        lemma_index_bound(ranges, tuple_at(cols, n_rows - 1));
        lemma_one_row_counts_once(ranges, cols, n_rows, size);
    }
}

proof fn lemma_no_rows_count(ranges: Seq<u32>, cols: Seq<Seq<u32>>, n: nat)
    ensures
        counted_up_to(ranges, cols, 0, n) == 0,
    decreases n,
{
    if n > 0 {
        lemma_no_rows_count(ranges, cols, (n - 1) as nat);
    }
}

/// It does not matter in which order lookups are counted.
pub proof fn law_counting_commutes(
    mults: Seq<u32>,
    f: spec_fn(int) -> int,
    g: spec_fn(int) -> int,
)
    ensures
        counted(counted(mults, f), g) == counted(counted(mults, g), f),
{
    assert forall|i: int| 0 <= i < mults.len() implies counted(counted(mults, f), g)[i]
        == counted(counted(mults, g), f)[i] by {
        lemma_wrapped_twice(mults[i] as int, f(i), g(i));
        lemma_wrapped_twice(mults[i] as int, g(i), f(i));
    }
    assert(counted(counted(mults, f), g) =~= counted(counted(mults, g), f));
}

/// Lookups may be counted elsewhere, from zero on, and merged later: the counters end up the same.
pub proof fn law_merging_is_counting(mults: Seq<u32>, f: spec_fn(int) -> int)
    ensures
        counted(mults, |i: int| counted(filled(0, mults.len()), f)[i] as int) == counted(mults, f),
{
    let elsewhere = counted(filled(0, mults.len()), f);
    let merged = counted(mults, |i: int| elsewhere[i] as int);
    assert forall|i: int| 0 <= i < mults.len() implies merged[i] == counted(mults, f)[i] by {
        vstd::arithmetic::div_mod::lemma_add_mod_noop(mults[i] as int, f(i), 0x1_0000_0000);
        vstd::arithmetic::div_mod::lemma_add_mod_noop(
            mults[i] as int,
            f(i) % 0x1_0000_0000,
            0x1_0000_0000,
        );
        assert(elsewhere[i] as int == f(i) % 0x1_0000_0000);
        vstd::arithmetic::div_mod::lemma_mod_twice(f(i), 0x1_0000_0000);
    }
    assert(merged =~= counted(mults, f));
}

proof fn lemma_total_bits_take(ranges: Seq<u32>, k: int)
    requires
        0 <= k <= ranges.len(),
    ensures
        total_bits(ranges.take(k)) <= total_bits(ranges),
    decreases ranges.len() - k,
{
    if k < ranges.len() {
        lemma_total_bits_take(ranges, k + 1);
        assert(ranges.take(k + 1).drop_last() =~= ranges.take(k));
    } else {
        assert(ranges.take(k) =~= ranges);
    }
}

/// Returns the number of bits of a tuple.
pub fn sum_of_ranges<const N_RANGES: usize>(ranges: &[u32; N_RANGES]) -> (n: u32)
    requires
        total_bits(ranges@) <= MAX_LOG_SIZE,
    ensures
        n == total_bits(ranges@),
{
    let mut n: u32 = 0;
    let mut k: usize = 0;
    while k < N_RANGES
        invariant
            k <= N_RANGES,
            total_bits(ranges@) <= MAX_LOG_SIZE,
            n == total_bits(ranges@.take(k as int)),
        decreases N_RANGES - k,
    {
        proof {
            lemma_total_bits_take(ranges@, k + 1);
            assert(ranges@.take(k + 1).drop_last() =~= ranges@.take(k as int));
        }
        n = n + ranges[k];
        k = k + 1;
    }
    assert(ranges@.take(k as int) =~= ranges@);
    n
}

/// Returns the index of the row that holds the tuple in row `r` of the columns.
pub fn row_index<const N_RANGES: usize>(
    ranges: &[u32; N_RANGES],
    inputs: &Vec<BaseFieldVec>,
    r: usize,
) -> (index: usize)
    requires
        total_bits(ranges@) <= MAX_LOG_SIZE,
        inputs@.len() == N_RANGES,
        forall|k: int| 0 <= k < inputs@.len() ==> r < (#[trigger] columns(inputs@)[k]).len(),
        in_range(ranges@, tuple_at(columns(inputs@), r as int)),
    ensures
        index == table_index(ranges@, tuple_at(columns(inputs@), r as int)),
        index < pow2(total_bits(ranges@)),
{
    let ghost tuple = tuple_at(columns(inputs@), r as int);
    let mut index: usize = 0;
    let mut k: usize = 0;
    while k < N_RANGES
        invariant
            k <= N_RANGES,
            inputs@.len() == N_RANGES,
            total_bits(ranges@) <= MAX_LOG_SIZE,
            tuple == tuple_at(columns(inputs@), r as int),
            in_range(ranges@, tuple),
            forall|k: int| 0 <= k < inputs@.len() ==> r < (#[trigger] columns(inputs@)[k]).len(),
            index == table_index(ranges@.take(k as int), tuple.take(k as int)),
        decreases N_RANGES - k,
    {
        let ghost rs = ranges@.take(k + 1);
        let ghost ts = tuple.take(k + 1);
        proof {
            lemma_total_bits_take(ranges@, k + 1);
            assert(rs.drop_last() =~= ranges@.take(k as int));
            assert(ts.drop_last() =~= tuple.take(k as int));
            assert forall|j: int| 0 <= j < rs.len() implies #[trigger] ts[j] < pow2(
                rs[j] as nat,
            ) by {
                assert(tuple[j] < pow2(ranges@[j] as nat));
            }
            lemma_index_bound(rs, ts);
            if total_bits(rs) < 31 {
                lemma_pow2_strictly_increases(total_bits(rs), 31);
            }
            vstd::arithmetic::power2::lemma2_to64();
            assert(r < columns(inputs@)[k as int].len());
        }
        let factor = exp2(ranges[k]);
        let value = inputs[k].values[r];
        assert(value == ts.last());
        assert(index * factor + value < 0x8000_0000);
        proof {
            assert(index * factor >= 0) by (nonlinear_arith);
        }
        index = index * factor + value as usize;
        k = k + 1;
    }
    proof {
        assert(ranges@.take(k as int) =~= ranges@);
        assert(tuple.take(k as int) =~= tuple);
        lemma_index_bound(ranges@, tuple);
    }
    index
}

/// Counts the tuples in the first `n_rows` rows of the columns.
pub fn count_rows<const N_RANGES: usize>(
    mults: &mut Uint32Vec,
    ranges: &[u32; N_RANGES],
    inputs: &Vec<BaseFieldVec>,
    n_rows: usize,
)
    requires
        total_bits(ranges@) <= MAX_LOG_SIZE,
        old(mults)@.len() == pow2(total_bits(ranges@)),
        are_inputs(ranges@, columns(inputs@), n_rows as nat),
    ensures
        final(mults)@ == counted(
            old(mults)@,
            |i: int| occurrences(ranges@, columns(inputs@), n_rows as nat, i) as int,
        ),
{
    let ghost cols = columns(inputs@);
    let ghost first = mults@;
    let mut r: usize = 0;
    assert(mults@ =~= counted(first, |i: int| occurrences(ranges@, cols, 0, i) as int));
    while r < n_rows
        invariant
            r <= n_rows,
            cols == columns(inputs@),
            total_bits(ranges@) <= MAX_LOG_SIZE,
            first.len() == pow2(total_bits(ranges@)),
            are_inputs(ranges@, cols, n_rows as nat),
            mults@ == counted(first, |i: int| occurrences(ranges@, cols, r as nat, i) as int),
        decreases n_rows - r,
    {
        assert(in_range(ranges@, tuple_at(cols, r as int)));
        assert forall|k: int| 0 <= k < inputs@.len() implies r < (#[trigger] cols[k]).len() by {
            assert(cols[k].len() >= n_rows);
        }
        let ghost before = mults@;
        let index = row_index(ranges, inputs, r);
        let count = mults.values[index].wrapping_add(1);
        mults.values.set(index, count);
        r = r + 1;
        assert forall|i: int| 0 <= i < first.len() implies mults@[i] == wrapped(
            first[i] as int,
            occurrences(ranges@, cols, r as nat, i) as int,
        ) by {
            let o = occurrences(ranges@, cols, (r - 1) as nat, i) as int;
            assert(before[i] == wrapped(first[i] as int, o));
            if i == index {
                lemma_wrapped_step(first[i] as int, o);
            }
        }
        assert(mults@ =~= counted(first, |i: int| occurrences(ranges@, cols, r as nat, i) as int));
    }
}

proof fn lemma_wrapped_step(a: int, b: int)
    requires
        0 <= a,
        0 <= b,
    ensures
        wrapped(wrapped(a, b) as int, 1) == wrapped(a, b + 1),
{
    vstd::arithmetic::div_mod::lemma_add_mod_noop(a + b, 1, 0x1_0000_0000);
}

/// Adding counters in two steps is adding their sum.
pub proof fn lemma_wrapped_twice(a: int, b: int, c: int)
    ensures
        wrapped(wrapped(a, b) as int, c) == wrapped(a, b + c),
{
    let m: int = 0x1_0000_0000;
    vstd::arithmetic::div_mod::lemma_mod_bound(a + b, m);
    vstd::arithmetic::div_mod::lemma_add_mod_noop((a + b) % m, c, m);
    vstd::arithmetic::div_mod::lemma_add_mod_noop(a + b, c, m);
    vstd::arithmetic::div_mod::lemma_mod_twice(a + b, m);
}

/// Every batch has a column for each segment, all with as many rows as the first, and its tuples
/// are in the table.
pub open spec fn are_all_inputs(ranges: Seq<u32>, inputs: Seq<Seq<Seq<u32>>>) -> bool {
    forall|b: int|
        0 <= b < inputs.len() ==> (#[trigger] inputs[b]).len() > 0 && are_inputs(
            ranges,
            inputs[b],
            inputs[b][0].len(),
        )
}

/// Counts the tuples of all batches, with as many rows as each batch has.
pub fn count_batches<const N_RANGES: usize>(
    mults: &mut Uint32Vec,
    ranges: &[u32; N_RANGES],
    inputs: &Vec<Vec<BaseFieldVec>>,
)
    requires
        total_bits(ranges@) <= MAX_LOG_SIZE,
        old(mults)@.len() == pow2(total_bits(ranges@)),
        are_all_inputs(ranges@, batches(inputs@)),
    ensures
        final(mults)@ == counted(
            old(mults)@,
            |i: int| all_occurrences(ranges@, batches(inputs@), i) as int,
        ),
{
    let ghost all = batches(inputs@);
    let ghost first = mults@;
    let mut b: usize = 0;
    assert(mults@ =~= counted(first, |i: int| all_occurrences(ranges@, all.take(0), i) as int));
    while b < inputs.len()
        invariant
            b <= inputs.len(),
            all == batches(inputs@),
            total_bits(ranges@) <= MAX_LOG_SIZE,
            first.len() == pow2(total_bits(ranges@)),
            are_all_inputs(ranges@, all),
            mults@ == counted(
                first,
                |i: int| all_occurrences(ranges@, all.take(b as int), i) as int,
            ),
        decreases inputs.len() - b,
    {
        let ghost before = mults@;
        assert(all[b as int] == columns(inputs@[b as int]@));
        assert(all[b as int].len() > 0);
        let n_rows = inputs[b][0].size();
        count_rows(mults, ranges, &inputs[b], n_rows);
        b = b + 1;
        let ghost taken = all.take(b as int);
        assert(taken.drop_last() =~= all.take(b - 1));
        assert forall|i: int| 0 <= i < first.len() implies mults@[i] == wrapped(
            first[i] as int,
            all_occurrences(ranges@, taken, i) as int,
        ) by {
            let o = all_occurrences(ranges@, all.take(b - 1), i) as int;
            let more = occurrences(ranges@, all[b - 1], n_rows as nat, i) as int;
            assert(before[i] == wrapped(first[i] as int, o));
            assert(mults@[i] == wrapped(before[i] as int, more));
            lemma_wrapped_twice(first[i] as int, o, more);
        }
        assert(mults@ =~= counted(first, |i: int| all_occurrences(ranges@, taken, i) as int));
    }
    assert(all.take(b as int) =~= all);
}

/// Counts the tuples in the first `n_rows` rows of every batch.
pub fn count_batches_of<const N_RANGES: usize>(
    mults: &mut Uint32Vec,
    ranges: &[u32; N_RANGES],
    inputs: &Vec<Vec<BaseFieldVec>>,
    n_rows: usize,
)
    requires
        total_bits(ranges@) <= MAX_LOG_SIZE,
        old(mults)@.len() == pow2(total_bits(ranges@)),
        forall|b: int|
            0 <= b < inputs@.len() ==> are_inputs(
                ranges@,
                #[trigger] batches(inputs@)[b],
                n_rows as nat,
            ),
    ensures
        final(mults)@ == counted(
            old(mults)@,
            |i: int| batch_occurrences(ranges@, batches(inputs@), n_rows as nat, i) as int,
        ),
{
    let ghost all = batches(inputs@);
    let ghost first = mults@;
    let mut b: usize = 0;
    assert(mults@ =~= counted(
        first,
        |i: int| batch_occurrences(ranges@, all.take(0), n_rows as nat, i) as int,
    ));
    while b < inputs.len()
        invariant
            b <= inputs.len(),
            all == batches(inputs@),
            total_bits(ranges@) <= MAX_LOG_SIZE,
            first.len() == pow2(total_bits(ranges@)),
            forall|b: int|
                0 <= b < inputs@.len() ==> are_inputs(ranges@, #[trigger] all[b], n_rows as nat),
            mults@ == counted(
                first,
                |i: int| batch_occurrences(ranges@, all.take(b as int), n_rows as nat, i) as int,
            ),
        decreases inputs.len() - b,
    {
        let ghost before = mults@;
        assert(are_inputs(ranges@, all[b as int], n_rows as nat));
        assert(all[b as int] == columns(inputs@[b as int]@));
        count_rows(mults, ranges, &inputs[b], n_rows);
        b = b + 1;
        let ghost taken = all.take(b as int);
        assert(taken.drop_last() =~= all.take(b - 1));
        assert forall|i: int| 0 <= i < first.len() implies mults@[i] == wrapped(
            first[i] as int,
            batch_occurrences(ranges@, taken, n_rows as nat, i) as int,
        ) by {
            let o = batch_occurrences(ranges@, all.take(b - 1), n_rows as nat, i) as int;
            let more = occurrences(ranges@, all[b - 1], n_rows as nat, i) as int;
            assert(before[i] == wrapped(first[i] as int, o));
            assert(mults@[i] == wrapped(before[i] as int, more));
            lemma_wrapped_twice(first[i] as int, o, more);
        }
        assert(mults@ =~= counted(
            first,
            |i: int| batch_occurrences(ranges@, taken, n_rows as nat, i) as int,
        ));
    }
    assert(all.take(b as int) =~= all);
}

/// Adds counters one by one.
pub fn add_counters(mults: &mut Uint32Vec, more: &Vec<u32>)
    requires
        old(mults)@.len() == more@.len(),
    ensures
        final(mults)@ == counted(old(mults)@, |i: int| more@[i] as int),
{
    let ghost first = mults@;
    let mut i: usize = 0;
    while i < more.len()
        invariant
            i <= more.len(),
            first.len() == more@.len() == mults@.len(),
            forall|j: int|
                0 <= j < first.len() ==> #[trigger] mults@[j] == (if j < i {
                    wrapped(first[j] as int, more@[j] as int)
                } else {
                    first[j]
                }),
        decreases more.len() - i,
    {
        let sum = mults.values[i].wrapping_add(more[i]);
        assert(mults.values@[i as int] == first[i as int]);
        mults.values.set(i, sum);
        i = i + 1;
    }
    assert(mults@ =~= counted(first, |i: int| more@[i] as int));
}

/// Counts lookups into one table.
pub struct CudaRangeCheckGenerator<const N_RANGES: usize> {
    pub multiplicities: Uint32Vec,
    pub ranges: [u32; N_RANGES],
    pub log_size: u32,
}

impl<const N_RANGES: usize> CudaRangeCheckGenerator<N_RANGES> {
    /// There is one counter for each row of the table.
    pub open spec fn wf(self) -> bool {
        &&& self.log_size == total_bits(self.ranges@) <= MAX_LOG_SIZE
        &&& self.multiplicities@.len() == pow2(self.log_size as nat)
    }

    /// Returns a generator with all counters at zero.
    pub fn new(ranges: [u32; N_RANGES]) -> (r: Self)
        requires
            total_bits(ranges@) <= MAX_LOG_SIZE,
        ensures
            r.wf(),
            r.ranges == ranges,
            r.log_size == total_bits(ranges@),
            r.multiplicities@ == filled(0, pow2(r.log_size as nat)),
    {
        let log_size = sum_of_ranges(&ranges);
        let size = exp2(log_size);
        CudaRangeCheckGenerator { multiplicities: Uint32Vec::new_zeroes(size), ranges, log_size }
    }

    /// Counts the tuples in the first `n_rows` rows of the columns.
    pub fn add_inputs_internal(&mut self, inputs: &Vec<BaseFieldVec>, n_rows: usize)
        requires
            old(self).wf(),
            are_inputs(old(self).ranges@, columns(inputs@), n_rows as nat),
        ensures
            final(self).wf(),
            final(self).ranges == old(self).ranges,
            final(self).multiplicities@ == counted(
                old(self).multiplicities@,
                |i: int|
                    occurrences(old(self).ranges@, columns(inputs@), n_rows as nat, i) as int,
            ),
    {
        count_rows(&mut self.multiplicities, &self.ranges, inputs, n_rows);
    }

    /// Counts the tuples of all batches, with as many rows as the first batch has.
    pub fn add_inputs_batch_internal(&mut self, cuda_inputs: &Vec<Vec<BaseFieldVec>>)
        requires
            old(self).wf(),
            N_RANGES > 0,
            forall|b: int|
                0 <= b < cuda_inputs@.len() ==> are_inputs(
                    old(self).ranges@,
                    #[trigger] batches(cuda_inputs@)[b],
                    batches(cuda_inputs@)[0][0].len(),
                ),
        ensures
            final(self).wf(),
            final(self).ranges == old(self).ranges,
            final(self).multiplicities@ == counted(
                old(self).multiplicities@,
                |i: int|
                    batch_occurrences(
                        old(self).ranges@,
                        batches(cuda_inputs@),
                        batches(cuda_inputs@)[0][0].len(),
                        i,
                    ) as int,
            ),
    {
        if cuda_inputs.len() == 0 {
            assert(counted(
                self.multiplicities@,
                |i: int|
                    batch_occurrences(
                        self.ranges@,
                        batches(cuda_inputs@),
                        batches(cuda_inputs@)[0][0].len(),
                        i,
                    ) as int,
            ) =~= self.multiplicities@);
            return;
        }
        assert(are_inputs(
            self.ranges@,
            batches(cuda_inputs@)[0],
            batches(cuda_inputs@)[0][0].len(),
        ));
        let n_rows = cuda_inputs[0][0].size();
        count_batches_of(&mut self.multiplicities, &self.ranges, cuda_inputs, n_rows);
    }

    /// Counts the tuples of all batches, with as many rows as each batch has.
    pub fn add_each(&mut self, cuda_inputs: &Vec<Vec<BaseFieldVec>>)
        requires
            old(self).wf(),
            are_all_inputs(old(self).ranges@, batches(cuda_inputs@)),
        ensures
            final(self).wf(),
            final(self).ranges == old(self).ranges,
            final(self).multiplicities@ == counted(
                old(self).multiplicities@,
                |i: int| all_occurrences(old(self).ranges@, batches(cuda_inputs@), i) as int,
            ),
    {
        count_batches(&mut self.multiplicities, &self.ranges, cuda_inputs);
    }

    /// Returns the counters.
    pub fn get_multiplicities(&self) -> (r: Vec<u32>)
        ensures
            r@ == self.multiplicities@,
    {
        self.multiplicities.to_vec()
    }

    /// Adds counters that were kept elsewhere.
    pub fn merge_simd_multiplicities(&mut self, simd_multiplicities: &Vec<u32>)
        requires
            old(self).wf(),
            simd_multiplicities@.len() == old(self).multiplicities@.len(),
        ensures
            final(self).wf(),
            final(self).ranges == old(self).ranges,
            final(self).multiplicities@ == counted(
                old(self).multiplicities@,
                |i: int| simd_multiplicities@[i] as int,
            ),
    {
        add_counters(&mut self.multiplicities, simd_multiplicities);
    }

    /// Returns the logarithm of the number of rows of the table.
    pub fn log_size(&self) -> (n: u32)
        ensures
            n == self.log_size,
    {
        self.log_size
    }

    /// Commits the column of counters.
    pub fn write_trace_cuda(self, tree_builder: &mut TreeBuilder) -> (r:
        CudaInteractionClaimGeneratorCuda<N_RANGES>)
        requires
            self.wf(),
            self.log_size > 0,
        ensures
            final(tree_builder)@ == old(tree_builder)@ + committed(
                self.log_size,
                seq![self.multiplicities@],
            ),
            r.multiplicities@ == self.multiplicities@,
            r.ranges == self.ranges,
            r.log_size == self.log_size,
            r.wf(),
    {
        let mut cols: Vec<BaseFieldVec> = Vec::new();
        cols.push(self.multiplicities.duplicate());
        assert(columns(cols@) =~= seq![self.multiplicities@]);
        tree_builder.extend_evals(self.log_size, cols);
        CudaInteractionClaimGeneratorCuda {
            multiplicities: self.multiplicities,
            ranges: self.ranges,
            log_size: self.log_size,
        }
    }
}

/// Writes the interaction trace of one table.
pub struct CudaInteractionClaimGeneratorCuda<const N_RANGES: usize> {
    pub multiplicities: Uint32Vec,
    pub ranges: [u32; N_RANGES],
    pub log_size: u32,
}

impl<const N_RANGES: usize> CudaInteractionClaimGeneratorCuda<N_RANGES> {
    /// There is one counter for each row of the table.
    pub open spec fn wf(self) -> bool {
        &&& 0 < self.log_size == total_bits(self.ranges@) <= MAX_LOG_SIZE
        &&& self.multiplicities@.len() == pow2(self.log_size as nat)
    }

    /// Returns the elements that the interaction kernel is handed.
    pub fn relation_elements(&self, common: &LookupElements, relation_constant: u32) -> (m:
        LookupElements)
        requires
            common.is_common(),
            relation_constant < P,
            N_RANGES < common.alpha_powers@.len(),
        ensures
            m.wf(),
            is_per_relation(m, *common, relation_constant, N_RANGES as nat),
    {
        create_per_relation_lookup_elements(common, relation_constant, N_RANGES)
    }

    /// Returns the columns of zeroes that the interaction kernel fills.
    pub fn interaction_columns(&self) -> (cols: Vec<BaseFieldVec>)
        requires
            self.wf(),
        ensures
            columns(cols@) == zero_columns(4, pow2(self.log_size as nat)),
    {
        crate::launch::interaction_columns(1, self.log_size)
    }

    /// Commits the columns that the interaction kernel filled and returns the sum that it claims.
    pub fn write_interaction_trace(
        self,
        tree_builder: &mut TreeBuilder,
        cols: Vec<BaseFieldVec>,
        claimed_sum: [u32; 4],
    ) -> (r: SecureField)
        requires
            self.wf(),
            is_shape(columns(cols@), 4, pow2(self.log_size as nat)),
        ensures
            final(tree_builder)@ == old(tree_builder)@ + committed(self.log_size, columns(cols@)),
            r == secure_of(claimed_sum@),
    {
        finish_interaction(tree_builder, cols, self.log_size, claimed_sum).claimed_sum
    }
}

/// Counts lookups into one table by several relations, each with counters of its own.
pub struct CudaMultiRelationRangeCheckGenerator<const N_RANGES: usize, const N_RELATIONS: usize> {
    pub multiplicities: Vec<Uint32Vec>,
    pub ranges: [u32; N_RANGES],
    pub log_size: u32,
}

impl<const N_RANGES: usize, const N_RELATIONS: usize> CudaMultiRelationRangeCheckGenerator<
    N_RANGES,
    N_RELATIONS,
> {
    /// Each relation has one counter for each row of the table.
    pub open spec fn wf(self) -> bool {
        &&& self.log_size == total_bits(self.ranges@) <= MAX_LOG_SIZE
        &&& is_shape(columns(self.multiplicities@), N_RELATIONS as nat, pow2(self.log_size as nat))
    }

    /// Returns a generator with all counters at zero.
    pub fn new(ranges: [u32; N_RANGES]) -> (r: Self)
        requires
            total_bits(ranges@) <= MAX_LOG_SIZE,
        ensures
            r.wf(),
            r.ranges == ranges,
            r.log_size == total_bits(ranges@),
            columns(r.multiplicities@) == zero_columns(
                N_RELATIONS as nat,
                pow2(r.log_size as nat),
            ),
    {
        let log_size = sum_of_ranges(&ranges);
        let size = exp2(log_size);
        CudaMultiRelationRangeCheckGenerator {
            multiplicities: crate::column::new_zero_columns(N_RELATIONS, size),
            ranges,
            log_size,
        }
    }

    /// Counts, for one relation, the tuples in the first `n_rows` rows of the columns.
    pub fn add_inputs_for_relation(
        &mut self,
        inputs: &Vec<BaseFieldVec>,
        n_rows: usize,
        relation_index: usize,
    )
        requires
            old(self).wf(),
            relation_index < N_RELATIONS,
            are_inputs(old(self).ranges@, columns(inputs@), n_rows as nat),
        ensures
            final(self).wf(),
            final(self).ranges == old(self).ranges,
            columns(final(self).multiplicities@) == columns(old(self).multiplicities@).update(
                relation_index as int,
                counted(
                    old(self).multiplicities@[relation_index as int]@,
                    |i: int|
                        occurrences(old(self).ranges@, columns(inputs@), n_rows as nat, i) as int,
                ),
            ),
    {
        let ghost before = columns(self.multiplicities@);
        let ghost ranges = self.ranges@;
        assert(before[relation_index as int].len() == pow2(self.log_size as nat));
        let mut mults = BaseFieldVec { values: Vec::new() };
        self.multiplicities.set_and_swap(relation_index, &mut mults);
        count_rows(&mut mults, &self.ranges, inputs, n_rows);
        self.multiplicities.set(relation_index, mults);
        assert(columns(self.multiplicities@) =~= before.update(relation_index as int, mults@));
    }

    /// Counts, for one relation, the tuples of all batches, with as many rows as the first has.
    pub fn add_inputs_batch_for_relation(
        &mut self,
        cuda_inputs: &Vec<Vec<BaseFieldVec>>,
        relation_index: usize,
    )
        requires
            old(self).wf(),
            N_RANGES > 0,
            relation_index < N_RELATIONS,
            forall|b: int|
                0 <= b < cuda_inputs@.len() ==> are_inputs(
                    old(self).ranges@,
                    #[trigger] batches(cuda_inputs@)[b],
                    batches(cuda_inputs@)[0][0].len(),
                ),
        ensures
            final(self).wf(),
            final(self).ranges == old(self).ranges,
            columns(final(self).multiplicities@) == columns(old(self).multiplicities@).update(
                relation_index as int,
                counted(
                    old(self).multiplicities@[relation_index as int]@,
                    |i: int|
                        batch_occurrences(
                            old(self).ranges@,
                            batches(cuda_inputs@),
                            batches(cuda_inputs@)[0][0].len(),
                            i,
                        ) as int,
                ),
            ),
    {
        let ghost before = columns(self.multiplicities@);
        let ghost counts = counted(
            self.multiplicities@[relation_index as int]@,
            |i: int|
                batch_occurrences(
                    self.ranges@,
                    batches(cuda_inputs@),
                    batches(cuda_inputs@)[0][0].len(),
                    i,
                ) as int,
        );
        if cuda_inputs.len() == 0 {
            assert(counts =~= before[relation_index as int]);
            assert(before.update(relation_index as int, counts) =~= before);
            return;
        }
        assert(before[relation_index as int].len() == pow2(self.log_size as nat));
        assert(are_inputs(
            self.ranges@,
            batches(cuda_inputs@)[0],
            batches(cuda_inputs@)[0][0].len(),
        ));
        let n_rows = cuda_inputs[0][0].size();
        let mut mults = BaseFieldVec { values: Vec::new() };
        self.multiplicities.set_and_swap(relation_index, &mut mults);
        count_batches_of(&mut mults, &self.ranges, cuda_inputs, n_rows);
        self.multiplicities.set(relation_index, mults);
        assert(columns(self.multiplicities@) =~= before.update(relation_index as int, mults@));
    }

    /// Counts, for one relation, the tuples of all batches, with as many rows as each batch has.
    pub fn add_each_for_relation(
        &mut self,
        cuda_inputs: &Vec<Vec<BaseFieldVec>>,
        relation_index: usize,
    )
        requires
            old(self).wf(),
            relation_index < N_RELATIONS,
            are_all_inputs(old(self).ranges@, batches(cuda_inputs@)),
        ensures
            final(self).wf(),
            final(self).ranges == old(self).ranges,
            columns(final(self).multiplicities@) == fed_relation(
                columns(old(self).multiplicities@),
                old(self).ranges@,
                batches(cuda_inputs@),
                relation_index as int,
            ),
    {
        let ghost before = columns(self.multiplicities@);
        assert(before[relation_index as int].len() == pow2(self.log_size as nat));
        let mut mults = BaseFieldVec { values: Vec::new() };
        self.multiplicities.set_and_swap(relation_index, &mut mults);
        count_batches(&mut mults, &self.ranges, cuda_inputs);
        self.multiplicities.set(relation_index, mults);
        assert(columns(self.multiplicities@) =~= before.update(relation_index as int, mults@));
    }

    /// Adds counters that were kept elsewhere, relation by relation.
    pub fn merge_simd_multiplicities(&mut self, simd_mults: &Vec<Vec<u32>>)
        requires
            old(self).wf(),
            simd_mults@.len() == N_RELATIONS,
            forall|i: int|
                0 <= i < simd_mults@.len() ==> (#[trigger] simd_mults@[i])@.len() == pow2(
                    old(self).log_size as nat,
                ),
        ensures
            final(self).wf(),
            final(self).ranges == old(self).ranges,
            forall|r: int|
                0 <= r < N_RELATIONS ==> (#[trigger] columns(final(self).multiplicities@)[r])
                    == counted(
                    old(self).multiplicities@[r]@,
                    |i: int| simd_mults@[r]@[i] as int,
                ),
    {
        let ghost before = columns(self.multiplicities@);
        let mut r: usize = 0;
        while r < N_RELATIONS
            invariant
                r <= N_RELATIONS,
                self.log_size == old(self).log_size,
                self.ranges == old(self).ranges,
                simd_mults@.len() == N_RELATIONS,
                forall|i: int|
                    0 <= i < simd_mults@.len() ==> (#[trigger] simd_mults@[i])@.len() == pow2(
                        self.log_size as nat,
                    ),
                before == columns(old(self).multiplicities@),
                is_shape(before, N_RELATIONS as nat, pow2(self.log_size as nat)),
                columns(self.multiplicities@).len() == N_RELATIONS,
                forall|k: int|
                    r <= k < N_RELATIONS ==> #[trigger] columns(self.multiplicities@)[k]
                        == before[k],
                forall|k: int|
                    0 <= k < r ==> #[trigger] columns(self.multiplicities@)[k] == counted(
                        before[k],
                        |i: int| simd_mults@[k]@[i] as int,
                    ),
            decreases N_RELATIONS - r,
        {
            let ghost current = columns(self.multiplicities@);
            assert(current[r as int] == before[r as int]);
            assert(before[r as int].len() == pow2(self.log_size as nat));
            let mut mults = BaseFieldVec { values: Vec::new() };
            self.multiplicities.set_and_swap(r, &mut mults);
            add_counters(&mut mults, &simd_mults[r]);
            self.multiplicities.set(r, mults);
            assert(columns(self.multiplicities@) =~= current.update(r as int, mults@));
            r = r + 1;
        }
    }

    /// Adds counters that were kept elsewhere to those of the first relations.
    pub fn merge_first(&mut self, more: &Vec<Vec<u32>>)
        requires
            old(self).wf(),
            more@.len() <= N_RELATIONS,
            forall|i: int|
                0 <= i < more@.len() ==> (#[trigger] more@[i])@.len() == pow2(
                    old(self).log_size as nat,
                ),
        ensures
            final(self).wf(),
            final(self).ranges == old(self).ranges,
            columns(final(self).multiplicities@) == merged_relations(
                columns(old(self).multiplicities@),
                more@,
            ),
    {
        let ghost before = columns(self.multiplicities@);
        let mut r: usize = 0;
        assert(merged_relations(before, more@.take(0)) =~= before);
        while r < more.len()
            invariant
                r <= more@.len() <= N_RELATIONS,
                self.wf(),
                self.log_size == old(self).log_size,
                self.ranges == old(self).ranges,
                forall|i: int|
                    0 <= i < more@.len() ==> (#[trigger] more@[i])@.len() == pow2(
                        self.log_size as nat,
                    ),
                before.len() == N_RELATIONS,
                columns(self.multiplicities@) == merged_relations(before, more@.take(r as int)),
            decreases more.len() - r,
        {
            let ghost current = columns(self.multiplicities@);
            assert(current[r as int].len() == pow2(self.log_size as nat));
            assert(more@[r as int]@.len() == pow2(self.log_size as nat));
            assert(current[r as int] == before[r as int]);
            let mut mults = BaseFieldVec { values: Vec::new() };
            self.multiplicities.set_and_swap(r, &mut mults);
            add_counters(&mut mults, &more[r]);
            self.multiplicities.set(r, mults);
            assert(columns(self.multiplicities@) =~= current.update(r as int, mults@));
            r = r + 1;
            assert(columns(self.multiplicities@) =~= merged_relations(
                before,
                more@.take(r as int),
            ));
        }
        assert(more@.take(r as int) =~= more@);
    }

    /// Returns the logarithm of the number of rows of the table.
    pub fn log_size(&self) -> (n: u32)
        ensures
            n == self.log_size,
    {
        self.log_size
    }

    /// Commits one column of counters for each relation.
    pub fn write_trace_cuda(
        self,
        tree_builder: &mut TreeBuilder,
        relation_constants: [u32; N_RELATIONS],
    ) -> (r: CudaMultiRelationInteractionGen<N_RANGES, N_RELATIONS>)
        requires
            self.wf(),
            self.log_size > 0,
            forall|i: int| 0 <= i < N_RELATIONS ==> #[trigger] relation_constants@[i] < P,
        ensures
            final(tree_builder)@ == old(tree_builder)@ + committed(
                self.log_size,
                columns(self.multiplicities@),
            ),
            columns(r.multiplicities@) == columns(self.multiplicities@),
            r.relation_constants == relation_constants,
            r.ranges == self.ranges,
            r.log_size == self.log_size,
            r.wf(),
    {
        let cols = crate::column::duplicate_columns(&self.multiplicities);
        tree_builder.extend_evals(self.log_size, cols);
        CudaMultiRelationInteractionGen {
            multiplicities: self.multiplicities,
            relation_constants,
            ranges: self.ranges,
            log_size: self.log_size,
        }
    }
}

/// The counters of all relations after counters were added to those of the first ones.
pub open spec fn merged_relations(mults: Seq<Seq<u32>>, more: Seq<Vec<u32>>) -> Seq<Seq<u32>> {
    Seq::new(
        mults.len(),
        |r: int|
            if r < more.len() {
                counted(mults[r], |i: int| more[r]@[i] as int)
            } else {
                mults[r]
            },
    )
}

/// The counters of all relations after one of them was fed batches.
pub open spec fn fed_relation(
    mults: Seq<Seq<u32>>,
    ranges: Seq<u32>,
    inputs: Seq<Seq<Seq<u32>>>,
    relation_index: int,
) -> Seq<Seq<u32>> {
    mults.update(
        relation_index,
        counted(mults[relation_index], |i: int| all_occurrences(ranges, inputs, i) as int),
    )
}

/// The counters of all relations after the first ones were fed one group of batches each.
pub open spec fn fed_relations(
    mults: Seq<Seq<u32>>,
    ranges: Seq<u32>,
    gs: Seq<Seq<Seq<Seq<u32>>>>,
) -> Seq<Seq<u32>>
    decreases gs.len(),
{
    if gs.len() == 0 {
        mults
    } else {
        fed_relation(
            fed_relations(mults, ranges, gs.drop_last()),
            ranges,
            gs.last(),
            gs.len() - 1,
        )
    }
}

impl<const N_RANGES: usize, const N_RELATIONS: usize> CudaMultiRelationRangeCheckGenerator<
    N_RANGES,
    N_RELATIONS,
> {
    /// Counts, relation by relation, the tuples of the groups from `base` on.
    pub fn add_relation_groups(&mut self, lookups: &Vec<Vec<Vec<BaseFieldVec>>>, base: usize)
        requires
            old(self).wf(),
            base + N_RELATIONS <= lookups@.len(),
            forall|r: int|
                0 <= r < N_RELATIONS ==> are_all_inputs(
                    old(self).ranges@,
                    #[trigger] groups(lookups@).subrange(base as int, base + N_RELATIONS)[r],
                ),
        ensures
            final(self).wf(),
            final(self).ranges == old(self).ranges,
            columns(final(self).multiplicities@) == fed_relations(
                columns(old(self).multiplicities@),
                old(self).ranges@,
                groups(lookups@).subrange(base as int, base + N_RELATIONS),
            ),
    {
        let ghost gs = groups(lookups@).subrange(base as int, base + N_RELATIONS);
        let n = lookups.len();
        let mut r: usize = 0;
        assert(gs.take(0) =~= Seq::empty());
        while r < N_RELATIONS
            invariant
                r <= N_RELATIONS,
                base + N_RELATIONS <= n == lookups@.len(),
                gs == groups(lookups@).subrange(base as int, base + N_RELATIONS),
                self.wf(),
                self.ranges == old(self).ranges,
                forall|r: int|
                    0 <= r < N_RELATIONS ==> are_all_inputs(self.ranges@, #[trigger] gs[r]),
                columns(self.multiplicities@) == fed_relations(
                    columns(old(self).multiplicities@),
                    self.ranges@,
                    gs.take(r as int),
                ),
            decreases N_RELATIONS - r,
        {
            assert(gs[r as int] == batches(lookups@[base + r]@));
            self.add_each_for_relation(&lookups[base + r], r);
            r = r + 1;
            assert(gs.take(r as int).drop_last() =~= gs.take(r - 1));
        }
        assert(gs.take(r as int) =~= gs);
    }
}

/// Writes the interaction trace of a table that several relations look into: one secure column for
/// each pair of relations.
pub struct CudaMultiRelationInteractionGen<const N_RANGES: usize, const N_RELATIONS: usize> {
    pub multiplicities: Vec<Uint32Vec>,
    pub relation_constants: [u32; N_RELATIONS],
    pub ranges: [u32; N_RANGES],
    pub log_size: u32,
}

impl<const N_RANGES: usize, const N_RELATIONS: usize> CudaMultiRelationInteractionGen<
    N_RANGES,
    N_RELATIONS,
> {
    /// Each relation has a canonical constant and one counter for each row of the table.
    pub open spec fn wf(self) -> bool {
        &&& 0 < self.log_size == total_bits(self.ranges@) <= MAX_LOG_SIZE
        &&& is_shape(columns(self.multiplicities@), N_RELATIONS as nat, pow2(self.log_size as nat))
        &&& forall|i: int| 0 <= i < N_RELATIONS ==> #[trigger] self.relation_constants@[i] < P
    }

    /// Returns the elements that the interaction kernel is handed, relation by relation.
    pub fn relation_elements(&self, common: &LookupElements) -> (ms: Vec<LookupElements>)
        requires
            self.wf(),
            common.is_common(),
            N_RANGES < common.alpha_powers@.len(),
        ensures
            ms@.len() == N_RELATIONS,
            forall|i: int|
                0 <= i < N_RELATIONS ==> (#[trigger] ms@[i]).wf() && is_per_relation(
                    ms@[i],
                    *common,
                    self.relation_constants@[i],
                    N_RANGES as nat,
                ),
    {
        let mut ms: Vec<LookupElements> = Vec::new();
        let mut i: usize = 0;
        while i < N_RELATIONS
            invariant
                i <= N_RELATIONS,
                self.wf(),
                common.is_common(),
                N_RANGES < common.alpha_powers@.len(),
                ms@.len() == i,
                forall|k: int|
                    0 <= k < i ==> (#[trigger] ms@[k]).wf() && is_per_relation(
                        ms@[k],
                        *common,
                        self.relation_constants@[k],
                        N_RANGES as nat,
                    ),
            decreases N_RELATIONS - i,
        {
            let constant = self.relation_constants[i];
            assert(self.relation_constants@[i as int] < P);
            ms.push(create_per_relation_lookup_elements(common, constant, N_RANGES));
            i = i + 1;
        }
        ms
    }

    /// Returns the columns of zeroes that the interaction kernel fills.
    pub fn interaction_columns(&self) -> (cols: Vec<BaseFieldVec>)
        requires
            self.wf(),
            N_RELATIONS < 0x1000_0000,
        ensures
            columns(cols@) == zero_columns(
                4 * (N_RELATIONS / 2) as nat,
                pow2(self.log_size as nat),
            ),
    {
        crate::launch::interaction_columns(N_RELATIONS / 2, self.log_size)
    }

    /// Commits the columns that the interaction kernel filled and returns the sum that it claims.
    pub fn write_interaction_trace(
        self,
        tree_builder: &mut TreeBuilder,
        cols: Vec<BaseFieldVec>,
        claimed_sum: [u32; 4],
    ) -> (r: SecureField)
        requires
            self.wf(),
            is_shape(columns(cols@), 4 * (N_RELATIONS / 2) as nat, pow2(self.log_size as nat)),
        ensures
            final(tree_builder)@ == old(tree_builder)@ + committed(self.log_size, columns(cols@)),
            r == secure_of(claimed_sum@),
    {
        finish_interaction(tree_builder, cols, self.log_size, claimed_sum).claimed_sum
    }
}

proof fn lemma_indices_ascend_from(ranges: Seq<u32>, a: Seq<u32>, b: Seq<u32>, k: int)
    requires
        in_range(ranges, a),
        in_range(ranges, b),
        0 <= k < ranges.len(),
        forall|s: int| 0 <= s < k ==> #[trigger] a[s] == b[s],
        a[k] < b[k],
    ensures
        table_index(ranges, a) < table_index(ranges, b),
    decreases ranges.len(),
{
    let n = ranges.len() - 1;
    let r = ranges.drop_last();
    let x = a.drop_last();
    let y = b.drop_last();
    let m = pow2(ranges[n] as nat);
    assert(a[n] < m && b[n] < m) by {
        assert(a[n] < pow2(ranges[n] as nat));
        assert(b[n] < pow2(ranges[n] as nat));
    }
    if k == n {
        assert(x =~= y);
    } else {
        assert(in_range(r, x)) by {
            assert forall|s: int| 0 <= s < r.len() implies #[trigger] x[s] < pow2(r[s] as nat) by {
                assert(a[s] < pow2(ranges[s] as nat));
            }
        }
        assert(in_range(r, y)) by {
            assert forall|s: int| 0 <= s < r.len() implies #[trigger] y[s] < pow2(r[s] as nat) by {
                assert(b[s] < pow2(ranges[s] as nat));
            }
        }
        assert forall|s: int| 0 <= s < k implies #[trigger] x[s] == y[s] by {
            assert(a[s] == b[s]);
        }
        lemma_indices_ascend_from(r, x, y, k);
        let p = table_index(r, x);
        let q = table_index(r, y);
        let u = a[n] as nat;
        let v = b[n] as nat;
        assert(p * m + u < q * m + v) by (nonlinear_arith)
            requires
                p < q,
                u < m,
                v >= 0,
        ;
    }
}

/// Tuples are counted in ascending order of their segments: of two tuples that agree before a
/// segment, the one with the smaller segment has the smaller index.
pub proof fn law_indices_ascend(ranges: Seq<u32>, a: Seq<u32>, b: Seq<u32>, k: int)
    requires
        in_range(ranges, a),
        in_range(ranges, b),
        0 <= k < ranges.len(),
        forall|s: int| 0 <= s < k ==> #[trigger] a[s] == b[s],
        a[k] < b[k],
    ensures
        table_index(ranges, a) < table_index(ranges, b),
{
    lemma_indices_ascend_from(ranges, a, b, k);
}

/// A counter grows by what is counted, and wraps where it does not fit.
pub proof fn law_counting_adds(mults: Seq<u32>, more: spec_fn(int) -> int, i: int)
    requires
        0 <= i < mults.len(),
    ensures
        counted(mults, more).len() == mults.len(),
        0 <= mults[i] + more(i) <= u32::MAX ==> counted(mults, more)[i] == mults[i] + more(i),
        (counted(mults, more)[i] - mults[i] - more(i)) % 0x1_0000_0000 == 0,
{
    let sum = mults[i] + more(i);
    vstd::arithmetic::div_mod::lemma_sub_mod_noop(sum % 0x1_0000_0000, sum, 0x1_0000_0000);
    vstd::arithmetic::div_mod::lemma_mod_twice(sum, 0x1_0000_0000);
    vstd::arithmetic::div_mod::lemma_sub_mod_noop_right(
        sum % 0x1_0000_0000,
        sum,
        0x1_0000_0000,
    );
}

/// Every relation counts its own group and no other; the relations behind the last group keep their
/// counters.
pub proof fn law_relations_are_counted_apart(
    mults: Seq<Seq<u32>>,
    ranges: Seq<u32>,
    gs: Seq<Seq<Seq<Seq<u32>>>>,
    r: int,
)
    requires
        gs.len() <= mults.len(),
        0 <= r < mults.len(),
    ensures
        fed_relations(mults, ranges, gs).len() == mults.len(),
        fed_relations(mults, ranges, gs)[r] == (if r < gs.len() {
            counted(mults[r], |i: int| all_occurrences(ranges, gs[r], i) as int)
        } else {
            mults[r]
        }),
    decreases gs.len(),
{
    if gs.len() > 0 {
        let front = gs.drop_last();
        law_relations_are_counted_apart(mults, ranges, front, r);
        law_relations_are_counted_apart(mults, ranges, front, gs.len() - 1);
        if r < gs.len() - 1 {
            assert(front[r] == gs[r]);
        }
    }
}

/// Batches are counted as if their rows stood in one list: a tuple is found in all batches as often
/// as in the first ones and the last one together.
pub proof fn law_batches_are_counted_together(
    ranges: Seq<u32>,
    a: Seq<Seq<Seq<u32>>>,
    b: Seq<Seq<Seq<u32>>>,
    index: int,
)
    ensures
        all_occurrences(ranges, a + b, index) == all_occurrences(ranges, a, index)
            + all_occurrences(ranges, b, index),
        a.len() == 1 ==> all_occurrences(ranges, a, index) == occurrences(
            ranges,
            a[0],
            a[0][0].len(),
            index,
        ),
    decreases b.len(),
{
    if a.len() == 1 {
        assert(a.drop_last() =~= Seq::empty());
        assert(all_occurrences(ranges, a.drop_last(), index) == 0);
    }
    if b.len() == 0 {
        assert(a + b =~= a);
    } else {
        assert((a + b).drop_last() =~= a + b.drop_last());
        law_batches_are_counted_together(ranges, a, b.drop_last(), index);
    }
}

/// Counters from elsewhere are added to those of their own relation; relations without any keep
/// theirs.
pub proof fn law_relations_are_merged_apart(
    mults: Seq<Seq<u32>>,
    more: Seq<Vec<u32>>,
    r: int,
    i: int,
)
    requires
        0 <= r < mults.len(),
        0 <= i < mults[r].len(),
        r < more.len() ==> mults[r][i] + more[r]@[i] <= u32::MAX,
    ensures
        merged_relations(mults, more).len() == mults.len(),
        merged_relations(mults, more)[r].len() == mults[r].len(),
        merged_relations(mults, more)[r][i] == mults[r][i] + (if r < more.len() {
            more[r]@[i] as int
        } else {
            0
        }),
{
    if r < more.len() {
        law_counting_adds(mults[r], |i: int| more[r]@[i] as int, i);
    }
}

/// Batches of one length are counted as if their rows stood in one list.
pub proof fn law_even_batches_are_counted_together(
    ranges: Seq<u32>,
    a: Seq<Seq<Seq<u32>>>,
    b: Seq<Seq<Seq<u32>>>,
    n_rows: nat,
    index: int,
)
    ensures
        batch_occurrences(ranges, a + b, n_rows, index) == batch_occurrences(
            ranges,
            a,
            n_rows,
            index,
        ) + batch_occurrences(ranges, b, n_rows, index),
        a.len() == 1 ==> batch_occurrences(ranges, a, n_rows, index) == occurrences(
            ranges,
            a[0],
            n_rows,
            index,
        ),
    decreases b.len(),
{
    if a.len() == 1 {
        assert(a.drop_last() =~= Seq::empty());
        assert(batch_occurrences(ranges, a.drop_last(), n_rows, index) == 0);
    }
    if b.len() == 0 {
        assert(a + b =~= a);
    } else {
        assert((a + b).drop_last() =~= a + b.drop_last());
        law_even_batches_are_counted_together(ranges, a, b.drop_last(), n_rows, index);
    }
}

} // verus!

//! The contents of the preprocessed columns that follow from their names.

use crate::bits::{exp2, lemma_pow2_bound};
use crate::column::{columns, BaseFieldVec};
use crate::components_cuda::range_check::base::{
    in_range, law_index_of_row, law_indices_ascend, law_row_of_index, table_index, table_row,
    total_bits, tuple_at,
};
use crate::components_cuda::verify_bitwise_xor::base::pair_ranges;
use crate::tree_builder::MAX_LOG_SIZE;
use vstd::arithmetic::power2::{lemma_pow2_adds, lemma_pow2_pos, pow2};
use vstd::prelude::*;

verus! {

/// The numbers from zero on.
pub open spec fn sequence(log_size: nat) -> Seq<u32> {
    Seq::new(pow2(log_size), |i: int| i as u32)
}

/// The column of one segment of a table of tuples.
pub open spec fn table_column(bits: Seq<u32>, k: int) -> Seq<u32> {
    Seq::new(pow2(total_bits(bits)), |i: int| table_row(bits, i as nat)[k])
}

/// The columns of a table of tuples, one for each segment.
pub open spec fn table_columns(bits: Seq<u32>) -> Seq<Seq<u32>> {
    Seq::new(bits.len(), |k: int| table_column(bits, k))
}

/// The first operand in row `i` of a table of pairs.
pub open spec fn left_operand(n_bits: u32, i: int) -> u32 {
    (i / (pow2(n_bits as nat) as int)) as u32
}

/// The second operand in row `i` of a table of pairs.
pub open spec fn right_operand(n_bits: u32, i: int) -> u32 {
    (i % (pow2(n_bits as nat) as int)) as u32
}

/// The columns of an xor table: the operands and their xor.
pub open spec fn xor_columns(n_bits: u32) -> Seq<Seq<u32>> {
    let size = pow2(2 * n_bits as nat);
    seq![
        Seq::new(size, |i: int| left_operand(n_bits, i)),
        Seq::new(size, |i: int| right_operand(n_bits, i)),
        Seq::new(size, |i: int| left_operand(n_bits, i) ^ right_operand(n_bits, i)),
    ]
}

/// A tuple has a segment for each width.
pub proof fn lemma_row_len(bits: Seq<u32>, index: nat)
    ensures
        table_row(bits, index).len() == bits.len(),
    decreases bits.len(),
{
    if bits.len() > 0 {
        lemma_pow2_pos(bits.last() as nat);
        lemma_row_len(bits.drop_last(), index / pow2(bits.last() as nat));
        assert(table_row(bits, index).len() == table_row(
            bits.drop_last(),
            index / pow2(bits.last() as nat),
        ).len() + 1);
    }
}

proof fn lemma_total_bits_bounds(bits: Seq<u32>, k: int)
    requires
        0 <= k < bits.len(),
    ensures
        bits[k] <= total_bits(bits),
    decreases bits.len(),
{
    if k < bits.len() - 1 {
        lemma_total_bits_bounds(bits.drop_last(), k);
    }
}

/// Returns the number of bits of a tuple, if it is at most `max`.
pub fn sum_of_bits(bits: &Vec<u32>, max: u32) -> (r: Option<u32>)
    ensures
        match r {
            Some(n) => n == total_bits(bits@) && n <= max,
            None => total_bits(bits@) > max,
        },
{
    let mut n: u32 = 0;
    let mut k: usize = 0;
    while k < bits.len()
        invariant
            k <= bits.len(),
            n == total_bits(bits@.take(k as int)),
            n <= max,
        decreases bits.len() - k,
    {
        proof {
            assert(bits@.take(k + 1).drop_last() =~= bits@.take(k as int));
            lemma_total_bits_grows(bits@, k + 1);
        }
        if bits[k] > max - n {
            return None;
        }
        n = n + bits[k];
        k = k + 1;
    }
    assert(bits@.take(k as int) =~= bits@);
    Some(n)
}

proof fn lemma_total_bits_grows(bits: Seq<u32>, k: int)
    requires
        0 <= k <= bits.len(),
    ensures
        total_bits(bits.take(k)) <= total_bits(bits),
    decreases bits.len() - k,
{
    if k < bits.len() {
        lemma_total_bits_grows(bits, k + 1);
        assert(bits.take(k + 1).drop_last() =~= bits.take(k));
    } else {
        assert(bits.take(k) =~= bits);
    }
}

/// Splits the index of a row into the segments of its tuple.
pub fn partition_into_bit_segments(index: usize, bits: &Vec<u32>) -> (row: Vec<u32>)
    requires
        index < 0x8000_0000,
        total_bits(bits@) <= MAX_LOG_SIZE,
    ensures
        row@ == table_row(bits@, index as nat),
{
    let n = bits.len();
    let mut row: Vec<u32> = vec![0u32; n];
    let mut k: usize = n;
    let mut rest: usize = index;
    assert(bits@.take(k as int) =~= bits@);
    assert(table_row(bits@, index as nat) =~= table_row(bits@.take(k as int), rest as nat)
        + row@.skip(k as int)) by {
        lemma_row_len(bits@, index as nat);
    }
    while k > 0
        invariant
            k <= n == bits@.len(),
            row@.len() == n,
            rest < 0x8000_0000,
            total_bits(bits@) <= MAX_LOG_SIZE,
            table_row(bits@, index as nat) == table_row(bits@.take(k as int), rest as nat)
                + row@.skip(k as int),
        decreases k,
    {
        let ghost before = row@;
        let ghost was = rest as nat;
        k = k - 1;
        proof {
            lemma_total_bits_bounds(bits@, k as int);
            lemma_pow2_bound(bits@[k as int] as nat);
            lemma_pow2_pos(bits@[k as int] as nat);
        }
        let modulus = exp2(bits[k]);
        proof {
            let m = modulus as int;
            vstd::arithmetic::div_mod::lemma_mod_bound(rest as int, m);
            assert(rest as int % m <= rest) by (nonlinear_arith)
                requires
                    m > 0,
                    rest >= 0,
            ;
            assert(rest as int / m <= rest) by (nonlinear_arith)
                requires
                    m > 0,
                    rest >= 0,
            ;
        }
        row.set(k, (rest % modulus) as u32);
        rest = rest / modulus;
        proof {
            let shorter = bits@.take(k as int);
            let longer = bits@.take(k + 1);
            assert(longer.drop_last() =~= shorter);
            assert(longer.last() == bits@[k as int]);
            assert(table_row(longer, was) == table_row(shorter, rest as nat).push(row@[k as int]));
            assert(row@.skip(k as int) =~= seq![row@[k as int]] + before.skip(k + 1));
            assert(table_row(longer, was) + before.skip(k + 1) =~= table_row(shorter, rest as nat)
                + row@.skip(k as int));
        }
    }
    assert(bits@.take(0) =~= Seq::<u32>::empty());
    assert(table_row(bits@.take(0), rest as nat) =~= Seq::<u32>::empty());
    assert(row@.skip(0) =~= row@);
    assert(row@ =~= table_row(bits@, index as nat));
    row
}

/// Returns the numbers from zero on.
pub fn gen_seq_column_cuda(log_size: u32) -> (r: BaseFieldVec)
    requires
        log_size <= MAX_LOG_SIZE,
    ensures
        r@ == sequence(log_size as nat),
{
    let n = exp2(log_size);
    proof {
        lemma_pow2_bound(log_size as nat);
    }
    let mut values: Vec<u32> = Vec::new();
    let mut i: usize = 0;
    while i < n
        invariant
            i <= n <= 0x8000_0000,
            values@.len() == i,
            forall|j: int| 0 <= j < i ==> #[trigger] values@[j] == j,
        decreases n - i,
    {
        values.push(i as u32);
        i = i + 1;
    }
    assert(values@ =~= sequence(log_size as nat));
    BaseFieldVec::from_vec(values)
}

fn gen_table_column(bits: &Vec<u32>, k: usize, n: usize) -> (r: BaseFieldVec)
    requires
        k < bits@.len(),
        n == pow2(total_bits(bits@)),
        n <= 0x8000_0000,
        total_bits(bits@) <= MAX_LOG_SIZE,
    ensures
        r@ == table_column(bits@, k as int),
{
    let mut values: Vec<u32> = Vec::new();
    let mut i: usize = 0;
    while i < n
        invariant
            i <= n <= 0x8000_0000,
            k < bits@.len(),
            total_bits(bits@) <= MAX_LOG_SIZE,
            values@.len() == i,
            forall|j: int|
                0 <= j < i ==> #[trigger] values@[j] == table_row(bits@, j as nat)[k as int],
        decreases n - i,
    {
        let row = partition_into_bit_segments(i, bits);
        proof {
            lemma_row_len(bits@, i as nat);
        }
        values.push(row[k]);
        i = i + 1;
    }
    assert(values@ =~= table_column(bits@, k as int));
    BaseFieldVec::from_vec(values)
}

/// Returns the columns of a table of tuples, one for each segment.
pub fn gen_range_check_columns_cuda(bits_per_segment: &Vec<u32>) -> (cols: Vec<BaseFieldVec>)
    requires
        total_bits(bits_per_segment@) <= MAX_LOG_SIZE,
    ensures
        columns(cols@) == table_columns(bits_per_segment@),
{
    let log_size = match sum_of_bits(bits_per_segment, MAX_LOG_SIZE) {
        Some(log_size) => log_size,
        None => 0,
    };
    let n = exp2(log_size);
    proof {
        lemma_pow2_bound(log_size as nat);
    }
    let mut cols: Vec<BaseFieldVec> = Vec::new();
    let mut k: usize = 0;
    while k < bits_per_segment.len()
        invariant
            k <= bits_per_segment.len(),
            n == pow2(total_bits(bits_per_segment@)),
            n <= 0x8000_0000,
            total_bits(bits_per_segment@) <= MAX_LOG_SIZE,
            cols@.len() == k,
            forall|j: int|
                0 <= j < k ==> (#[trigger] cols@[j])@ == table_column(bits_per_segment@, j),
        decreases bits_per_segment.len() - k,
    {
        cols.push(gen_table_column(bits_per_segment, k, n));
        k = k + 1;
    }
    assert(columns(cols@) =~= table_columns(bits_per_segment@));
    cols
}

/// Returns the columns of an xor table: the operands and their xor.
pub fn gen_bitwise_xor_columns_cuda(n_bits: u32) -> (cols: Vec<BaseFieldVec>)
    requires
        2 * n_bits <= MAX_LOG_SIZE,
    ensures
        columns(cols@) == xor_columns(n_bits),
{
    let n = exp2(2 * n_bits);
    let side = exp2(n_bits);
    proof {
        lemma_pow2_bound(2 * n_bits as nat);
        lemma_pow2_pos(n_bits as nat);
    }
    let mut a: Vec<u32> = Vec::new();
    let mut b: Vec<u32> = Vec::new();
    let mut c: Vec<u32> = Vec::new();
    let mut i: usize = 0;
    while i < n
        invariant
            i <= n <= 0x8000_0000,
            0 < side == pow2(n_bits as nat),
            a@.len() == i,
            b@.len() == i,
            c@.len() == i,
            forall|j: int| 0 <= j < i ==> #[trigger] a@[j] == left_operand(n_bits, j),
            forall|j: int| 0 <= j < i ==> #[trigger] b@[j] == right_operand(n_bits, j),
            forall|j: int|
                0 <= j < i ==> #[trigger] c@[j] == left_operand(n_bits, j) ^ right_operand(
                    n_bits,
                    j,
                ),
        decreases n - i,
    {
        let x = (i / side) as u32;
        let y = (i % side) as u32;
        a.push(x);
        b.push(y);
        c.push(x ^ y);
        i = i + 1;
    }
    let cols = vec![
        BaseFieldVec::from_vec(a),
        BaseFieldVec::from_vec(b),
        BaseFieldVec::from_vec(c),
    ];
    proof {
        assert(columns(cols@)[0] =~= xor_columns(n_bits)[0]);
        assert(columns(cols@)[1] =~= xor_columns(n_bits)[1]);
        assert(columns(cols@)[2] =~= xor_columns(n_bits)[2]);
        assert(columns(cols@) =~= xor_columns(n_bits));
    }
    cols
}

/// A tuple that is looked up is counted in the row in which the preprocessed columns list it.
pub proof fn law_table_lists_what_is_counted(bits: Seq<u32>, tuple: Seq<u32>)
    requires
        in_range(bits, tuple),
    ensures
        tuple_at(table_columns(bits), table_index(bits, tuple) as int) == tuple,
{
    law_row_of_index(bits, tuple);
    lemma_row_len(bits, table_index(bits, tuple));
    assert(tuple_at(table_columns(bits), table_index(bits, tuple) as int) =~= tuple);
}

/// Two operands that are looked up are counted in the row in which the preprocessed columns list
/// them with their exclusive or.
pub proof fn law_xor_table_lists_what_is_counted(n_bits: u32, x: u32, y: u32)
    requires
        2 * n_bits <= MAX_LOG_SIZE,
        in_range(pair_ranges(n_bits), seq![x, y]),
    ensures
        tuple_at(
            xor_columns(n_bits),
            table_index(pair_ranges(n_bits), seq![x, y]) as int,
        ) == seq![x, y, x ^ y],
{
    let bits = pair_ranges(n_bits);
    let i = table_index(bits, seq![x, y]);
    reveal_with_fuel(total_bits, 3);
    assert(bits.drop_last().drop_last() =~= Seq::<u32>::empty());
    law_row_of_index(bits, seq![x, y]);
    law_xor_table_lists_pairs(n_bits, i);
    let listed = tuple_at(xor_columns(n_bits), i as int);
    assert(seq![listed[0], listed[1]][0] == x);
    assert(seq![listed[0], listed[1]][1] == y);
    assert(listed =~= seq![x, y, x ^ y]);
}

/// The operands in the rows of an xor table are the pairs of a table of pairs.
pub proof fn law_xor_table_lists_pairs(n_bits: u32, i: nat)
    requires
        2 * n_bits <= MAX_LOG_SIZE,
        i < pow2(2 * n_bits as nat),
    ensures
        table_row(seq![n_bits, n_bits], i) == seq![
            xor_columns(n_bits)[0][i as int],
            xor_columns(n_bits)[1][i as int],
        ],
{
    let bits = seq![n_bits, n_bits];
    let m = pow2(n_bits as nat);
    lemma_pow2_pos(n_bits as nat);
    lemma_pow2_adds(n_bits as nat, n_bits as nat);
    assert(bits.drop_last() =~= seq![n_bits]);
    assert(bits.drop_last().drop_last() =~= Seq::<u32>::empty());
    let q = i / m;
    assert(q < m) by (nonlinear_arith)
        requires
            q == i / m,
            i < m * m,
            m > 0,
    ;
    vstd::arithmetic::div_mod::lemma_small_mod(q, m);
    assert(table_row(Seq::<u32>::empty(), q / m) =~= Seq::<u32>::empty());
    assert(table_row(seq![n_bits], q) =~= seq![q as u32]);
    assert(table_row(bits, i) =~= seq![q as u32, (i % m) as u32]);
}

/// A sequence column lists the numbers below two to the power of its size, each at its own place:
/// the value at `i` is `i`, so no two values are equal and every number below the end occurs.
pub proof fn law_a_sequence_counts_up(log_size: nat, i: int, j: int)
    requires
        log_size <= MAX_LOG_SIZE,
        0 <= i < pow2(log_size),
        0 <= j < pow2(log_size),
    ensures
        sequence(log_size).len() == pow2(log_size),
        sequence(log_size)[i] == i,
        sequence(log_size)[i] == sequence(log_size)[j] ==> i == j,
        i + 1 < pow2(log_size) ==> sequence(log_size)[i + 1] == sequence(log_size)[i] + 1,
        sequence(log_size)[0] == 0,
{
    vstd::arithmetic::power2::lemma2_to64();
    if log_size < 30 {
        vstd::arithmetic::power2::lemma_pow2_strictly_increases(log_size, 30);
    }
}

/// The columns of a table together list every tuple whose segments fit, in ascending order: of two
/// tuples that agree before a segment, the one with the smaller segment stands first.
pub proof fn law_tables_ascend(bits: Seq<u32>, i: nat, j: nat, k: int)
    requires
        i < pow2(total_bits(bits)),
        j < pow2(total_bits(bits)),
        forall|s: int| 0 <= s < bits.len() ==> #[trigger] bits[s] <= 32,
        0 <= k < bits.len(),
        forall|s: int|
            0 <= s < k ==> (#[trigger] table_columns(bits)[s])[i as int] == table_columns(
                bits,
            )[s][j as int],
        table_columns(bits)[k][i as int] < table_columns(bits)[k][j as int],
    ensures
        i < j,
{
    law_index_of_row(bits, i);
    law_index_of_row(bits, j);
    let a = table_row(bits, i);
    let b = table_row(bits, j);
    assert forall|s: int| 0 <= s < k implies #[trigger] a[s] == b[s] by {
        assert(table_columns(bits)[s][i as int] == table_columns(bits)[s][j as int]);
    }
    assert(table_columns(bits)[k][i as int] == a[k]);
    law_indices_ascend(bits, a, b, k);
}

/// The third column of an xor table is the exclusive or of the first two, which list the pairs in
/// ascending order.
pub proof fn law_xor_tables_list_operands(n_bits: u32, i: int)
    requires
        2 * n_bits <= MAX_LOG_SIZE,
        0 <= i < pow2(2 * n_bits as nat),
    ensures
        xor_columns(n_bits).len() == 3,
        xor_columns(n_bits)[0][i] * pow2(n_bits as nat) + xor_columns(n_bits)[1][i] == i,
        xor_columns(n_bits)[1][i] < pow2(n_bits as nat),
        xor_columns(n_bits)[2][i] == xor_columns(n_bits)[0][i] ^ xor_columns(n_bits)[1][i],
{
    let m = pow2(n_bits as nat) as int;
    lemma_pow2_pos(n_bits as nat);
    lemma_pow2_adds(n_bits as nat, n_bits as nat);
    vstd::arithmetic::power2::lemma2_to64();
    if n_bits < 15 {
        vstd::arithmetic::power2::lemma_pow2_strictly_increases(n_bits as nat, 15);
    }
    vstd::arithmetic::div_mod::lemma_fundamental_div_mod(i, m);
    vstd::arithmetic::div_mod::lemma_mod_bound(i, m);
    let q = i / m;
    assert(0 <= q < m && m * q == q * m) by (nonlinear_arith)
        requires
            q == i / m,
            0 <= i < m * m,
            m > 0,
    ;
}

} // verus!

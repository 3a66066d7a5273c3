//! The fractions that the rows of a lookup table contribute to an interaction trace.

use crate::column::is_canonical;
use crate::components_cuda::range_check::base::{
    law_index_of_row, table_row, total_bits, tuple_at,
};
use crate::field::{m31_negation, SecureField, P};
use crate::lookup::{combine, combined, LookupElements, N_COMMON_POWERS};
use crate::preprocessed_columns::{
    left_operand, lemma_row_len, partition_into_bit_segments, right_operand, table_columns,
    xor_columns,
};
use crate::tree_builder::MAX_LOG_SIZE;
use vstd::arithmetic::power2::{lemma_pow2_adds, lemma_pow2_pos, pow2};
use vstd::prelude::*;

verus! {

/// A fraction of secure field elements.
#[derive(Clone, Copy, Debug, PartialEq, Eq, Structural)]
pub struct Fraction {
    pub numerator: SecureField,
    pub denominator: SecureField,
}

/// The negation of a base field element, as a secure field element.
pub open spec fn negated(multiplicity: u32) -> SecureField {
    SecureField { a: ((-(multiplicity as int)) % (P as int)) as u32, b: 0, c: 0, d: 0 }
}

/// What an entry contributes that was looked up so often: a table takes back what its users added.
pub open spec fn table_fraction(
    e: LookupElements,
    values: Seq<u32>,
    multiplicity: u32,
) -> Fraction {
    Fraction { numerator: negated(multiplicity), denominator: combined(e, values) }
}

/// What row `i` of a table of tuples contributes.
pub open spec fn tuple_fraction(
    e: LookupElements,
    ranges: Seq<u32>,
    mults: Seq<u32>,
    i: int,
) -> Fraction {
    table_fraction(e, table_row(ranges, i as nat), mults[i])
}

/// The entry in row `i` of an xor table.
pub open spec fn xor_entry(n_bits: u32, i: int) -> Seq<u32> {
    seq![
        left_operand(n_bits, i),
        right_operand(n_bits, i),
        left_operand(n_bits, i) ^ right_operand(n_bits, i),
    ]
}

/// What row `i` of an xor table contributes.
pub open spec fn xor_fraction(
    e: LookupElements,
    n_bits: u32,
    mults: Seq<u32>,
    i: int,
) -> Fraction {
    table_fraction(e, xor_entry(n_bits, i), mults[i])
}

/// A table takes back exactly what its users added: the numerator of an entry and the number of
/// times that it was looked up add up to zero in the field.
pub proof fn law_table_cancels_lookups(multiplicity: u32)
    ensures
        (negated(multiplicity).a + multiplicity) % (P as int) == 0,
        negated(multiplicity).wf(),
{
    let p = P as int;
    let m = multiplicity as int;
    vstd::arithmetic::div_mod::lemma_mod_bound(-m, p);
    vstd::arithmetic::div_mod::lemma_add_mod_noop(-m, m, p);
    vstd::arithmetic::div_mod::lemma_mod_twice(-m, p);
    vstd::arithmetic::div_mod::lemma_add_mod_noop((-m) % p, m, p);
    assert((0int) % p == 0);
}

/// Returns what an entry contributes that was looked up so often.
pub fn fraction_of(e: &LookupElements, values: &Vec<u32>, multiplicity: u32) -> (r: Fraction)
    requires
        e.wf(),
        is_canonical(values@),
        values@.len() <= e.alpha_powers@.len() <= N_COMMON_POWERS,
        multiplicity < P,
    ensures
        r == table_fraction(*e, values@, multiplicity),
{
    Fraction {
        numerator: SecureField { a: m31_negation(multiplicity), b: 0, c: 0, d: 0 },
        denominator: combine(e, values),
    }
}

proof fn lemma_ranges_are_small(ranges: Seq<u32>)
    requires
        total_bits(ranges) <= MAX_LOG_SIZE,
    ensures
        forall|k: int| 0 <= k < ranges.len() ==> #[trigger] ranges[k] <= MAX_LOG_SIZE,
    decreases ranges.len(),
{
    if ranges.len() > 0 {
        lemma_ranges_are_small(ranges.drop_last());
        assert forall|k: int| 0 <= k < ranges.len() implies #[trigger] ranges[k]
            <= MAX_LOG_SIZE by {
            if k < ranges.len() - 1 {
                assert(ranges.drop_last()[k] == ranges[k]);
            }
        }
    }
}

/// The segments of a tuple are canonical.
proof fn lemma_row_is_canonical(ranges: Seq<u32>, i: nat)
    requires
        total_bits(ranges) <= MAX_LOG_SIZE,
        i < pow2(total_bits(ranges)),
    ensures
        is_canonical(table_row(ranges, i)),
        table_row(ranges, i).len() == ranges.len(),
{
    lemma_ranges_are_small(ranges);
    law_index_of_row(ranges, i);
    let row = table_row(ranges, i);
    assert forall|k: int| 0 <= k < row.len() implies #[trigger] row[k] < P by {
        assert(row[k] < pow2(ranges[k] as nat));
        vstd::arithmetic::power2::lemma2_to64();
        if ranges[k] < MAX_LOG_SIZE {
            vstd::arithmetic::power2::lemma_pow2_strictly_increases(
                ranges[k] as nat,
                MAX_LOG_SIZE as nat,
            );
        }
    }
}

/// Returns what the rows of a table of tuples contribute.
pub fn tuple_fractions(e: &LookupElements, ranges: &Vec<u32>, mults: &Vec<u32>) -> (r: Vec<
    Fraction,
>)
    requires
        e.wf(),
        total_bits(ranges@) <= MAX_LOG_SIZE,
        mults@.len() == pow2(total_bits(ranges@)),
        is_canonical(mults@),
        ranges@.len() <= e.alpha_powers@.len() <= N_COMMON_POWERS,
    ensures
        r@.len() == mults@.len(),
        forall|i: int|
            0 <= i < r@.len() ==> #[trigger] r@[i] == tuple_fraction(*e, ranges@, mults@, i),
{
    let mut r: Vec<Fraction> = Vec::new();
    let mut i: usize = 0;
    proof {
        crate::bits::lemma_pow2_bound(total_bits(ranges@));
    }
    while i < mults.len()
        invariant
            i <= mults@.len() <= 0x8000_0000,
            e.wf(),
            total_bits(ranges@) <= MAX_LOG_SIZE,
            mults@.len() == pow2(total_bits(ranges@)),
            is_canonical(mults@),
            ranges@.len() <= e.alpha_powers@.len() <= N_COMMON_POWERS,
            r@.len() == i,
            forall|k: int|
                0 <= k < i ==> #[trigger] r@[k] == tuple_fraction(*e, ranges@, mults@, k),
        decreases mults.len() - i,
    {
        let values = partition_into_bit_segments(i, ranges);
        proof {
            lemma_row_is_canonical(ranges@, i as nat);
            assert(mults@[i as int] < P);
        }
        r.push(fraction_of(e, &values, mults[i]));
        i = i + 1;
    }
    r
}

/// Returns what the rows of an xor table contribute.
pub fn xor_fractions(e: &LookupElements, n_bits: u32, mults: &Vec<u32>) -> (r: Vec<Fraction>)
    requires
        e.wf(),
        2 * n_bits <= MAX_LOG_SIZE,
        mults@.len() == pow2((2 * n_bits) as nat),
        is_canonical(mults@),
        3 <= e.alpha_powers@.len() <= N_COMMON_POWERS,
    ensures
        r@.len() == mults@.len(),
        forall|i: int|
            0 <= i < r@.len() ==> #[trigger] r@[i] == xor_fraction(*e, n_bits, mults@, i),
{
    let mut r: Vec<Fraction> = Vec::new();
    let mut i: usize = 0;
    let side = crate::bits::exp2(n_bits);
    proof {
        crate::bits::lemma_pow2_bound((2 * n_bits) as nat);
        lemma_pow2_pos(n_bits as nat);
        lemma_pow2_adds(n_bits as nat, n_bits as nat);
        vstd::arithmetic::power2::lemma2_to64();
        if n_bits < 15 {
            vstd::arithmetic::power2::lemma_pow2_strictly_increases(n_bits as nat, 15);
        }
    }
    while i < mults.len()
        invariant
            i <= mults@.len() <= 0x8000_0000,
            0 < side == pow2(n_bits as nat) <= 0x8000,
            mults@.len() == side * side,
            e.wf(),
            is_canonical(mults@),
            3 <= e.alpha_powers@.len() <= N_COMMON_POWERS,
            r@.len() == i,
            forall|k: int|
                0 <= k < i ==> #[trigger] r@[k] == xor_fraction(*e, n_bits, mults@, k),
        decreases mults.len() - i,
    {
        proof {
            assert(i as int / (side as int) < side) by (nonlinear_arith)
                requires
                    0 <= i < side * side,
                    side > 0,
            ;
            vstd::arithmetic::div_mod::lemma_mod_bound(i as int, side as int);
        }
        let x = (i / side) as u32;
        let y = (i % side) as u32;
        assert(x ^ y < 0x8000) by (bit_vector)
            requires
                x < 0x8000,
                y < 0x8000,
        ;
        let values = vec![x, y, x ^ y];
        proof {
            assert(values@ =~= xor_entry(n_bits, i as int));
            assert(mults@[i as int] < P);
        }
        r.push(fraction_of(e, &values, mults[i]));
        i = i + 1;
    }
    r
}

/// The fraction of a row of a table of tuples is that of what the preprocessed columns list there.
pub proof fn law_fractions_are_of_listed_tuples(
    e: LookupElements,
    ranges: Seq<u32>,
    mults: Seq<u32>,
    i: int,
)
    requires
        0 <= i < pow2(total_bits(ranges)),
        0 <= i < mults.len(),
    ensures
        tuple_fraction(e, ranges, mults, i).denominator == combined(
            e,
            tuple_at(table_columns(ranges), i),
        ),
        (tuple_fraction(e, ranges, mults, i).numerator.a + mults[i]) % (P as int) == 0,
        tuple_fraction(e, ranges, mults, i).numerator.b == 0,
        tuple_fraction(e, ranges, mults, i).numerator.c == 0,
        tuple_fraction(e, ranges, mults, i).numerator.d == 0,
{
    lemma_row_len(ranges, i as nat);
    assert(tuple_at(table_columns(ranges), i) =~= table_row(ranges, i as nat));
    vstd::arithmetic::div_mod::lemma_add_mod_noop_right(
        mults[i] as int,
        -(mults[i] as int),
        P as int,
    );
}

/// The fraction of a row of an xor table is that of what the preprocessed columns list there.
pub proof fn law_fractions_are_of_listed_xors(
    e: LookupElements,
    n_bits: u32,
    mults: Seq<u32>,
    i: int,
)
    requires
        0 <= i < pow2(2 * n_bits as nat),
        0 <= i < mults.len(),
    ensures
        xor_fraction(e, n_bits, mults, i).denominator == combined(
            e,
            tuple_at(xor_columns(n_bits), i),
        ),
        (xor_fraction(e, n_bits, mults, i).numerator.a + mults[i]) % (P as int) == 0,
        xor_fraction(e, n_bits, mults, i).numerator.b == 0,
        xor_fraction(e, n_bits, mults, i).numerator.c == 0,
        xor_fraction(e, n_bits, mults, i).numerator.d == 0,
{
    assert(tuple_at(xor_columns(n_bits), i) =~= xor_entry(n_bits, i));
    vstd::arithmetic::div_mod::lemma_add_mod_noop_right(
        mults[i] as int,
        -(mults[i] as int),
        P as int,
    );
}

} // verus!

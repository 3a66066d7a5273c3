//! Which tables there are.

use super::base::{table_index, total_bits};
use vstd::arithmetic::power2::{lemma2_to64, pow2};
use vstd::prelude::*;

verus! {

/// The numbers of bits of the segments in the table of 6-bit numbers.
pub open spec fn rc_6_ranges() -> Seq<u32> {
    seq![6u32]
}

/// The numbers of bits of the segments in the table of 8-bit numbers.
pub open spec fn rc_8_ranges() -> Seq<u32> {
    seq![8u32]
}

/// The numbers of bits of the segments in the table of 11-bit numbers.
pub open spec fn rc_11_ranges() -> Seq<u32> {
    seq![11u32]
}

/// The numbers of bits of the segments in the table of 12-bit numbers.
pub open spec fn rc_12_ranges() -> Seq<u32> {
    seq![12u32]
}

/// The numbers of bits of the segments in the table of pairs of 4-bit numbers.
pub open spec fn rc_4_4_ranges() -> Seq<u32> {
    seq![4u32, 4u32]
}

/// The numbers of bits of the segments in the table of pairs of 9-bit numbers.
pub open spec fn rc_9_9_ranges() -> Seq<u32> {
    seq![9u32, 9u32]
}

/// The numbers of bits of the segments in the table of triples of numbers of 7, 2 and 5 bits.
pub open spec fn rc_7_2_5_ranges() -> Seq<u32> {
    seq![7u32, 2u32, 5u32]
}

/// The numbers of bits of the segments in the table of quadruples of numbers of 3, 6, 6 and 3 bits.
pub open spec fn rc_3_6_6_3_ranges() -> Seq<u32> {
    seq![3u32, 6u32, 6u32, 3u32]
}

/// The numbers of bits of the segments in the table of quadruples of 4-bit numbers.
pub open spec fn rc_4_4_4_4_ranges() -> Seq<u32> {
    seq![4u32, 4u32, 4u32, 4u32]
}

/// The numbers of bits of the segments in the table of quintuples of 3-bit numbers.
pub open spec fn rc_3_3_3_3_3_ranges() -> Seq<u32> {
    seq![3u32, 3u32, 3u32, 3u32, 3u32]
}

/// The bits of the last segment add to those of the others.
proof fn lemma_one_more(bits: Seq<u32>, last: u32)
    ensures
        total_bits(bits.push(last)) == total_bits(bits) + last,
{
    assert(bits.push(last).drop_last() =~= bits);
}

/// The numbers of bits of the tuples.
pub proof fn lemma_table_bits()
    ensures
        total_bits(rc_6_ranges()) == 6,
        total_bits(rc_8_ranges()) == 8,
        total_bits(rc_11_ranges()) == 11,
        total_bits(rc_12_ranges()) == 12,
        total_bits(rc_4_4_ranges()) == 8,
        total_bits(rc_9_9_ranges()) == 18,
        total_bits(rc_7_2_5_ranges()) == 14,
        total_bits(rc_3_6_6_3_ranges()) == 18,
        total_bits(rc_4_4_4_4_ranges()) == 16,
        total_bits(rc_3_3_3_3_3_ranges()) == 15,
{
    let none = Seq::<u32>::empty();
    lemma_one_more(none, 6);
    assert(rc_6_ranges() =~= none.push(6));
    lemma_one_more(none, 8);
    assert(rc_8_ranges() =~= none.push(8));
    lemma_one_more(none, 11);
    assert(rc_11_ranges() =~= none.push(11));
    lemma_one_more(none, 12);
    assert(rc_12_ranges() =~= none.push(12));
    lemma_one_more(none, 4);
    lemma_one_more(none.push(4), 4);
    assert(rc_4_4_ranges() =~= none.push(4).push(4));
    lemma_one_more(none, 9);
    lemma_one_more(none.push(9), 9);
    assert(rc_9_9_ranges() =~= none.push(9).push(9));
    lemma_one_more(none, 7);
    lemma_one_more(none.push(7), 2);
    lemma_one_more(none.push(7).push(2), 5);
    assert(rc_7_2_5_ranges() =~= none.push(7).push(2).push(5));
    lemma_one_more(none, 3);
    lemma_one_more(none.push(3), 6);
    lemma_one_more(none.push(3).push(6), 6);
    lemma_one_more(none.push(3).push(6).push(6), 3);
    assert(rc_3_6_6_3_ranges() =~= none.push(3).push(6).push(6).push(3));
    lemma_one_more(none, 4);
    lemma_one_more(none.push(4), 4);
    lemma_one_more(none.push(4).push(4), 4);
    lemma_one_more(none.push(4).push(4).push(4), 4);
    assert(rc_4_4_4_4_ranges() =~= none.push(4).push(4).push(4).push(4));
    lemma_one_more(none, 3);
    lemma_one_more(none.push(3), 3);
    lemma_one_more(none.push(3).push(3), 3);
    lemma_one_more(none.push(3).push(3).push(3), 3);
    lemma_one_more(none.push(3).push(3).push(3).push(3), 3);
    assert(rc_3_3_3_3_3_ranges() =~= none.push(3).push(3).push(3).push(3).push(3));
}

/// The last segment is the lowest digit of the index.
pub proof fn lemma_one_more_segment(bits: Seq<u32>, tuple: Seq<u32>, last: u32, value: u32)
    ensures
        table_index(bits.push(last), tuple.push(value)) == table_index(bits, tuple) * pow2(
            last as nat,
        ) + value,
{
    assert(bits.push(last).drop_last() =~= bits);
    assert(tuple.push(value).drop_last() =~= tuple);
}

/// Tuples are numbered by their bits, the first segment being the highest.
pub proof fn law_tuples_are_numbered_by_their_bits(a: u32, b: u32, c: u32, d: u32, e: u32)
    ensures
        table_index(rc_6_ranges(), seq![a]) == a,
        table_index(rc_8_ranges(), seq![a]) == a,
        table_index(rc_11_ranges(), seq![a]) == a,
        table_index(rc_12_ranges(), seq![a]) == a,
        table_index(rc_4_4_ranges(), seq![a, b]) == 16 * a + b,
        table_index(rc_9_9_ranges(), seq![a, b]) == 512 * a + b,
        table_index(rc_7_2_5_ranges(), seq![a, b, c]) == 128 * a + 32 * b + c,
        table_index(rc_3_6_6_3_ranges(), seq![a, b, c, d]) == 32768 * a + 512 * b + 8 * c + d,
        table_index(rc_4_4_4_4_ranges(), seq![a, b, c, d]) == 4096 * a + 256 * b + 16 * c + d,
        table_index(rc_3_3_3_3_3_ranges(), seq![a, b, c, d, e]) == 4096 * a + 512 * b + 64 * c + 8
            * d + e,
{
    lemma2_to64();
    let none = Seq::<u32>::empty();
    lemma_one_more_segment(none, none, 6, a);
    assert(rc_6_ranges() =~= none.push(6));
    assert(seq![a] =~= none.push(a));
    lemma_one_more_segment(none, none, 8, a);
    assert(rc_8_ranges() =~= none.push(8));
    assert(seq![a] =~= none.push(a));
    lemma_one_more_segment(none, none, 11, a);
    assert(rc_11_ranges() =~= none.push(11));
    assert(seq![a] =~= none.push(a));
    lemma_one_more_segment(none, none, 12, a);
    assert(rc_12_ranges() =~= none.push(12));
    assert(seq![a] =~= none.push(a));
    lemma_one_more_segment(none, none, 4, a);
    lemma_one_more_segment(none.push(4), none.push(a), 4, b);
    assert(rc_4_4_ranges() =~= none.push(4).push(4));
    assert(seq![a, b] =~= none.push(a).push(b));
    lemma_one_more_segment(none, none, 9, a);
    lemma_one_more_segment(none.push(9), none.push(a), 9, b);
    assert(rc_9_9_ranges() =~= none.push(9).push(9));
    assert(seq![a, b] =~= none.push(a).push(b));
    lemma_one_more_segment(none, none, 7, a);
    lemma_one_more_segment(none.push(7), none.push(a), 2, b);
    lemma_one_more_segment(none.push(7).push(2), none.push(a).push(b), 5, c);
    assert(rc_7_2_5_ranges() =~= none.push(7).push(2).push(5));
    assert(seq![a, b, c] =~= none.push(a).push(b).push(c));
    lemma_one_more_segment(none, none, 3, a);
    lemma_one_more_segment(none.push(3), none.push(a), 6, b);
    lemma_one_more_segment(none.push(3).push(6), none.push(a).push(b), 6, c);
    lemma_one_more_segment(none.push(3).push(6).push(6), none.push(a).push(b).push(c), 3, d);
    assert(rc_3_6_6_3_ranges() =~= none.push(3).push(6).push(6).push(3));
    assert(seq![a, b, c, d] =~= none.push(a).push(b).push(c).push(d));
    lemma_one_more_segment(none, none, 4, a);
    lemma_one_more_segment(none.push(4), none.push(a), 4, b);
    lemma_one_more_segment(none.push(4).push(4), none.push(a).push(b), 4, c);
    lemma_one_more_segment(none.push(4).push(4).push(4), none.push(a).push(b).push(c), 4, d);
    assert(rc_4_4_4_4_ranges() =~= none.push(4).push(4).push(4).push(4));
    assert(seq![a, b, c, d] =~= none.push(a).push(b).push(c).push(d));
    lemma_one_more_segment(none, none, 3, a);
    lemma_one_more_segment(none.push(3), none.push(a), 3, b);
    lemma_one_more_segment(none.push(3).push(3), none.push(a).push(b), 3, c);
    lemma_one_more_segment(none.push(3).push(3).push(3), none.push(a).push(b).push(c), 3, d);
    lemma_one_more_segment(
        none.push(3).push(3).push(3).push(3),
        none.push(a).push(b).push(c).push(d),
        3,
        e,
    );
    assert(rc_3_3_3_3_3_ranges() =~= none.push(3).push(3).push(3).push(3).push(3));
    assert(seq![a, b, c, d, e] =~= none.push(a).push(b).push(c).push(d).push(e));
}

} // verus!

//! The constants of relations: hashes of their names.

use crate::components_cuda::range_check::{rc_18, rc_20, rc_4_3};
use crate::field::P;
use vstd::prelude::*;

verus! {

/// One step of the hash: the next character is mixed into the lowest bits, and the whole is
/// multiplied.
#[verifier::opaque]
pub open spec fn mixed(hash: u32, c: char) -> u32 {
    (((hash ^ (c as u32)) * 16777619) % 0x1_0000_0000) as u32
}

/// The 32-bit hash of a name, by Fowler, Noll and Vo.
#[verifier::opaque]
pub open spec fn name_hash(name: Seq<char>) -> u32
    decreases name.len(),
{
    if name.len() == 0 {
        2166136261
    } else {
        mixed(name_hash(name.drop_last()), name.last())
    }
}

/// The constant of the relation with the given name: the hash of the name in the base field.
pub open spec fn relation_constant(name: Seq<char>) -> u32 {
    name_hash(name) % P
}

proof fn lemma_next(name: Seq<char>, c: char)
    ensures
        name_hash(name.push(c)) == mixed(name_hash(name), c),
{
    reveal(name_hash);
    assert(name.push(c).drop_last() =~= name);
}

proof fn lemma_mixed(name: Seq<char>, hash: u32, c: char, low: u32, high: int, next: u32)
    requires
        name_hash(name) == hash,
        hash ^ (c as u32) == low,
        low * 16777619 == high * 0x1_0000_0000 + next,
    ensures
        name_hash(name.push(c)) == next,
{
    reveal(mixed);
    lemma_next(name, c);
    vstd::arithmetic::div_mod::lemma_fundamental_div_mod_converse(
        low * 16777619,
        0x1_0000_0000,
        high,
        next as int,
    );
}

proof fn lemma_hash_of_range(name: Seq<char>)
    requires
        name_hash(name) == 2166136261,
    ensures
        name_hash(name + seq!['R', 'a', 'n', 'g', 'e']) == 2735859570,
{
    assert(2166136261u32 ^ 82u32 == 2166136215u32) by (bit_vector);
    lemma_mixed(name, 2166136261, 'R', 2166136215, 8461672, 3607893173);
    let name_1 = name.push('R');
    assert(3607893173u32 ^ 97u32 == 3607893204u32) by (bit_vector);
    lemma_mixed(name_1, 3607893173, 'a', 3607893204, 14093671, 1543817660);
    let name_2 = name_1.push('a');
    assert(1543817660u32 ^ 110u32 == 1543817682u32) by (bit_vector);
    lemma_mixed(name_2, 1543817660, 'n', 1543817682, 6030682, 2911483286);
    let name_3 = name_2.push('n');
    assert(2911483286u32 ^ 103u32 == 2911483377u32) by (bit_vector);
    lemma_mixed(name_3, 2911483286, 'g', 2911483377, 11373255, 550070883);
    let name_4 = name_3.push('g');
    assert(550070883u32 ^ 101u32 == 550070790u32) by (bit_vector);
    lemma_mixed(name_4, 550070883, 'e', 550070790, 2148765, 2735859570);
    assert(name + seq!['R', 'a', 'n', 'g', 'e'] =~= name_4.push('e'));
}

proof fn lemma_hash_of_check(name: Seq<char>)
    requires
        name_hash(name) == 2735859570,
    ensures
        name_hash(name + seq!['C', 'h', 'e', 'c', 'k', '_']) == 2956355799,
{
    assert(2735859570u32 ^ 67u32 == 2735859505u32) by (bit_vector);
    lemma_mixed(name, 2735859570, 'C', 2735859505, 10687207, 3861836323);
    let name_1 = name.push('C');
    assert(3861836323u32 ^ 104u32 == 3861836363u32) by (bit_vector);
    lemma_mixed(name_1, 3861836323, 'h', 3861836363, 15085660, 2800184337);
    let name_2 = name_1.push('h');
    assert(2800184337u32 ^ 101u32 == 2800184436u32) by (bit_vector);
    lemma_mixed(name_2, 2800184337, 'e', 2800184436, 10938483, 844085916);
    let name_3 = name_2.push('e');
    assert(844085916u32 ^ 99u32 == 844086015u32) by (bit_vector);
    lemma_mixed(name_3, 844085916, 'c', 844086015, 3297290, 847470445);
    let name_4 = name_3.push('c');
    assert(847470445u32 ^ 107u32 == 847470342u32) by (bit_vector);
    lemma_mixed(name_4, 847470445, 'k', 847470342, 3310510, 2328794738);
    let name_5 = name_4.push('k');
    assert(2328794738u32 ^ 95u32 == 2328794669u32) by (bit_vector);
    lemma_mixed(name_5, 2328794738, '_', 2328794669, 9097072, 2956355799);
    assert(name + seq!['C', 'h', 'e', 'c', 'k', '_'] =~= name_5.push('_'));
}

proof fn lemma_hash_of_20(name: Seq<char>)
    requires
        name_hash(name) == 2956355799,
    ensures
        name_hash(name + seq!['2', '0']) == 3558333533,
{
    assert(2956355799u32 ^ 50u32 == 2956355813u32) by (bit_vector);
    lemma_mixed(name, 2956355799, '2', 2956355813, 11548542, 1252466815);
    let name_1 = name.push('2');
    assert(1252466815u32 ^ 48u32 == 1252466767u32) by (bit_vector);
    lemma_mixed(name_1, 1252466815, '0', 1252466767, 4892565, 3558333533);
    assert(name + seq!['2', '0'] =~= name_1.push('0'));
}

proof fn lemma_hash_of_20_mark(name: Seq<char>)
    requires
        name_hash(name) == 3558333533,
    ensures
        name_hash(name + seq!['_']) == 3817821990,
{
    assert(3558333533u32 ^ 95u32 == 3558333442u32) by (bit_vector);
    lemma_mixed(name, 3558333533, '_', 3558333442, 13900073, 3817821990);
    assert(name + seq!['_'] =~= name.push('_'));
}

proof fn lemma_hash_of_18(name: Seq<char>)
    requires
        name_hash(name) == 2956355799,
    ensures
        name_hash(name + seq!['1', '8']) == 1109051422,
{
    assert(2956355799u32 ^ 49u32 == 2956355814u32) by (bit_vector);
    lemma_mixed(name, 2956355799, '1', 2956355814, 11548542, 1269244434);
    let name_1 = name.push('1');
    assert(1269244434u32 ^ 56u32 == 1269244458u32) by (bit_vector);
    lemma_mixed(name_1, 1269244434, '8', 1269244458, 4958105, 1109051422);
    assert(name + seq!['1', '8'] =~= name_1.push('8'));
}

proof fn lemma_hash_of_18_b(name: Seq<char>)
    requires
        name_hash(name) == 1109051422,
    ensures
        name_hash(name + seq!['_', 'B']) == 3572282563,
{
    assert(1109051422u32 ^ 95u32 == 1109051457u32) by (bit_vector);
    lemma_mixed(name, 1109051422, '_', 1109051457, 4332336, 1361657427);
    let name_1 = name.push('_');
    assert(1361657427u32 ^ 66u32 == 1361657361u32) by (bit_vector);
    lemma_mixed(name_1, 1361657427, 'B', 1361657361, 5319101, 3572282563);
    assert(name + seq!['_', 'B'] =~= name_1.push('B'));
}

proof fn lemma_hash_of_4_3(name: Seq<char>)
    requires
        name_hash(name) == 2956355799,
    ensures
        name_hash(name + seq!['4', '_', '3']) == 1567323731,
{
    assert(2956355799u32 ^ 52u32 == 2956355811u32) by (bit_vector);
    lemma_mixed(name, 2956355799, '4', 2956355811, 11548542, 1218911577);
    let name_1 = name.push('4');
    assert(1218911577u32 ^ 95u32 == 1218911494u32) by (bit_vector);
    lemma_mixed(name_1, 1218911577, '_', 1218911494, 4761487, 1695723634);
    let name_2 = name_1.push('_');
    assert(1695723634u32 ^ 51u32 == 1695723585u32) by (bit_vector);
    lemma_mixed(name_2, 1695723634, '3', 1695723585, 6624079, 1567323731);
    assert(name + seq!['4', '_', '3'] =~= name_2.push('3'));
}

proof fn lemma_hash_of_20_b(name: Seq<char>)
    requires
        name_hash(name) == 3817821990,
    ensures
        name_hash(name + seq!['B']) == 2661716588,
{
    assert(3817821990u32 ^ 66u32 == 3817822052u32) by (bit_vector);
    lemma_mixed(name, 3817821990, 'B', 3817822052, 14913725, 2661716588);
    assert(name + seq!['B'] =~= name.push('B'));
}

proof fn lemma_hash_of_20_c(name: Seq<char>)
    requires
        name_hash(name) == 3817821990,
    ensures
        name_hash(name + seq!['C']) == 2678494207,
{
    assert(3817821990u32 ^ 67u32 == 3817822053u32) by (bit_vector);
    lemma_mixed(name, 3817821990, 'C', 3817822053, 14913725, 2678494207);
    assert(name + seq!['C'] =~= name.push('C'));
}

proof fn lemma_hash_of_20_d(name: Seq<char>)
    requires
        name_hash(name) == 3817821990,
    ensures
        name_hash(name + seq!['D']) == 2628161350,
{
    assert(3817821990u32 ^ 68u32 == 3817822050u32) by (bit_vector);
    lemma_mixed(name, 3817821990, 'D', 3817822050, 14913725, 2628161350);
    assert(name + seq!['D'] =~= name.push('D'));
}

proof fn lemma_hash_of_20_e(name: Seq<char>)
    requires
        name_hash(name) == 3817821990,
    ensures
        name_hash(name + seq!['E']) == 2644938969,
{
    assert(3817821990u32 ^ 69u32 == 3817822051u32) by (bit_vector);
    lemma_mixed(name, 3817821990, 'E', 3817822051, 14913725, 2644938969);
    assert(name + seq!['E'] =~= name.push('E'));
}

proof fn lemma_hash_of_20_f(name: Seq<char>)
    requires
        name_hash(name) == 3817821990,
    ensures
        name_hash(name + seq!['F']) == 2594606112,
{
    assert(3817821990u32 ^ 70u32 == 3817822048u32) by (bit_vector);
    lemma_mixed(name, 3817821990, 'F', 3817822048, 14913725, 2594606112);
    assert(name + seq!['F'] =~= name.push('F'));
}

proof fn lemma_hash_of_20_g(name: Seq<char>)
    requires
        name_hash(name) == 3817821990,
    ensures
        name_hash(name + seq!['G']) == 2611383731,
{
    assert(3817821990u32 ^ 71u32 == 3817822049u32) by (bit_vector);
    lemma_mixed(name, 3817821990, 'G', 3817822049, 14913725, 2611383731);
    assert(name + seq!['G'] =~= name.push('G'));
}

proof fn lemma_hash_of_20_h(name: Seq<char>)
    requires
        name_hash(name) == 3817821990,
    ensures
        name_hash(name + seq!['H']) == 2829492778,
{
    assert(3817821990u32 ^ 72u32 == 3817822062u32) by (bit_vector);
    lemma_mixed(name, 3817821990, 'H', 3817822062, 14913725, 2829492778);
    assert(name + seq!['H'] =~= name.push('H'));
}

proof fn lemma_hash_of_range_check() -> (name: Seq<char>)
    ensures
        name == seq!['R', 'a', 'n', 'g', 'e', 'C', 'h', 'e', 'c', 'k', '_'],
        name_hash(name) == 2956355799,
{
    reveal(name_hash);
    let none = Seq::<char>::empty();
    lemma_hash_of_range(none);
    lemma_hash_of_check(none + seq!['R', 'a', 'n', 'g', 'e']);
    let name = none + seq!['R', 'a', 'n', 'g', 'e'] + seq!['C', 'h', 'e', 'c', 'k', '_'];
    assert(name =~= seq!['R', 'a', 'n', 'g', 'e', 'C', 'h', 'e', 'c', 'k', '_']);
    name
}

/// The relations of the tables that know their own constants are told apart by their names: the
/// variants of a table are lettered from the second on.
pub proof fn law_constants_are_hashes_of_names()
    ensures
        rc_20::relation_constants()[0] == relation_constant("RangeCheck_20"@),
        rc_20::relation_constants()[1] == relation_constant("RangeCheck_20_B"@),
        rc_20::relation_constants()[2] == relation_constant("RangeCheck_20_C"@),
        rc_20::relation_constants()[3] == relation_constant("RangeCheck_20_D"@),
        rc_20::relation_constants()[4] == relation_constant("RangeCheck_20_E"@),
        rc_20::relation_constants()[5] == relation_constant("RangeCheck_20_F"@),
        rc_20::relation_constants()[6] == relation_constant("RangeCheck_20_G"@),
        rc_20::relation_constants()[7] == relation_constant("RangeCheck_20_H"@),
        rc_18::relation_constants()[0] == relation_constant("RangeCheck_18"@),
        rc_18::relation_constants()[1] == relation_constant("RangeCheck_18_B"@),
        rc_4_3::RELATION_CONSTANT == relation_constant("RangeCheck_4_3"@),
{
    let name = lemma_hash_of_range_check();
    lemma_hash_of_20(name);
    let name_20 = name + seq!['2', '0'];
    lemma_hash_of_20_mark(name_20);
    let marked = name_20 + seq!['_'];
    lemma_hash_of_20_b(marked);
    lemma_hash_of_20_c(marked);
    lemma_hash_of_20_d(marked);
    lemma_hash_of_20_e(marked);
    lemma_hash_of_20_f(marked);
    lemma_hash_of_20_g(marked);
    lemma_hash_of_20_h(marked);
    lemma_hash_of_18(name);
    let name_18 = name + seq!['1', '8'];
    lemma_hash_of_18_b(name_18);
    lemma_hash_of_4_3(name);
    reveal_strlit("RangeCheck_20");
    assert("RangeCheck_20"@ =~= name_20);
    reveal_strlit("RangeCheck_20_B");
    assert("RangeCheck_20_B"@ =~= marked + seq!['B']);
    reveal_strlit("RangeCheck_20_C");
    assert("RangeCheck_20_C"@ =~= marked + seq!['C']);
    reveal_strlit("RangeCheck_20_D");
    assert("RangeCheck_20_D"@ =~= marked + seq!['D']);
    reveal_strlit("RangeCheck_20_E");
    assert("RangeCheck_20_E"@ =~= marked + seq!['E']);
    reveal_strlit("RangeCheck_20_F");
    assert("RangeCheck_20_F"@ =~= marked + seq!['F']);
    reveal_strlit("RangeCheck_20_G");
    assert("RangeCheck_20_G"@ =~= marked + seq!['G']);
    reveal_strlit("RangeCheck_20_H");
    assert("RangeCheck_20_H"@ =~= marked + seq!['H']);
    reveal_strlit("RangeCheck_18");
    assert("RangeCheck_18"@ =~= name_18);
    reveal_strlit("RangeCheck_18_B");
    assert("RangeCheck_18_B"@ =~= name_18 + seq!['_', 'B']);
    reveal_strlit("RangeCheck_4_3");
    assert("RangeCheck_4_3"@ =~= name + seq!['4', '_', '3']);
}

} // verus!

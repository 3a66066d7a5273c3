//! The names of preprocessed columns.

use crate::text::{
    all_digits, all_digits_of, begins_with, chars_of, decimal, digits_of, find, find_pattern,
    is_digit, is_first, joined, law_digits_denote, law_parse_of_digits, law_split_of_joined,
    lemma_find, matches_at, occurs_at, parse_number, parsed, part_of, split, split_text,
    strip_prefix, texts, unsigned, without_prefix,
};
use vstd::prelude::*;

verus! {

/// The numbers that the pieces denote, where each of them denotes one.
pub open spec fn all_parsed(pieces: Seq<Seq<char>>) -> Option<Seq<u32>> {
    if forall|i: int|
        0 <= i < pieces.len() ==> parsed(#[trigger] pieces[i], u32::MAX as int) is Some {
        Some(Seq::new(pieces.len(), |i: int| parsed(pieces[i], u32::MAX as int)->0 as u32))
    } else {
        None
    }
}

/// The index that stands behind the prefix, where the name begins with it.
pub open spec fn index_behind(id: Seq<char>, prefix: Seq<char>) -> Option<usize> {
    match without_prefix(id, prefix) {
        Some(rest) => match parsed(rest, usize::MAX as int) {
            Some(index) => Some(index as usize),
            None => None,
        },
        None => None,
    }
}

/// The widths of the segments and the index of the column, for a name of the form
/// `range_check_{b1}_{b2}_..._{bN}_column_{index}`.
pub open spec fn range_check_id(id: Seq<char>) -> Option<(Seq<u32>, usize)> {
    match without_prefix(id, "range_check_"@) {
        Some(rest) => match find(rest, "_column_"@) {
            Some(at) => match (
                all_parsed(split(rest.take(at), '_')),
                parsed(rest.skip(at + "_column_"@.len()), usize::MAX as int),
            ) {
                (Some(bits), Some(index)) => Some((bits, index as usize)),
                _ => None,
            },
            None => None,
        },
        None => None,
    }
}

/// The number of bits and the index of the column, for a name of the form
/// `bitwise_xor_{bits}_{index}`. Anything behind another underscore is left unread.
pub open spec fn bitwise_xor_id(id: Seq<char>) -> Option<(u32, usize)> {
    match without_prefix(id, "bitwise_xor_"@) {
        Some(rest) => {
            let pieces = split(rest, '_');
            match (
                parsed(pieces[0], u32::MAX as int),
                if pieces.len() > 1 {
                    parsed(pieces[1], usize::MAX as int)
                } else {
                    None
                },
            ) {
                (Some(bits), Some(index)) => Some((bits as u32, index as usize)),
                _ => None,
            }
        },
        None => None,
    }
}

/// The index of the column, for a name of the form `pedersen_points_small_{index}`.
pub open spec fn pedersen_points_small_id(id: Seq<char>) -> Option<usize> {
    index_behind(id, "pedersen_points_small_"@)
}

/// The index of the column, for a name of the form `pedersen_points_{index}`.
pub open spec fn pedersen_points_id(id: Seq<char>) -> Option<usize> {
    if begins_with(id, "pedersen_points_small_"@) {
        None
    } else {
        index_behind(id, "pedersen_points_"@)
    }
}

/// The index of the column, for a name of the form `poseidon_round_keys_{index}`.
pub open spec fn poseidon_round_keys_id(id: Seq<char>) -> Option<usize> {
    index_behind(id, "poseidon_round_keys_"@)
}

/// The index of the column, for a name of the form `blake_sigma_{index}`.
pub open spec fn blake_sigma_id(id: Seq<char>) -> Option<usize> {
    index_behind(id, "blake_sigma_"@)
}

fn parse_u32(text: &Vec<char>) -> (r: Option<u32>)
    ensures
        match r {
            Some(n) => parsed(text@, u32::MAX as int) == Some(n as int),
            None => parsed(text@, u32::MAX as int) is None,
        },
{
    match parse_number(text, u32::MAX as u64) {
        Some(n) => Some(n as u32),
        None => None,
    }
}

fn parse_usize(text: &Vec<char>) -> (r: Option<usize>)
    ensures
        match r {
            Some(n) => parsed(text@, usize::MAX as int) == Some(n as int),
            None => parsed(text@, usize::MAX as int) is None,
        },
{
    match parse_number(text, usize::MAX as u64) {
        Some(n) => Some(n as usize),
        None => None,
    }
}

fn parse_index_behind(id: &str, prefix: &str) -> (r: Option<usize>)
    ensures
        r == index_behind(id@, prefix@),
{
    match strip_prefix(id, prefix) {
        Some(rest) => parse_usize(&rest),
        None => None,
    }
}

fn parse_all(pieces: &Vec<Vec<char>>) -> (r: Option<Vec<u32>>)
    ensures
        match r {
            Some(bits) => all_parsed(texts(pieces@)) == Some(bits@),
            None => all_parsed(texts(pieces@)) is None,
        },
{
    let ghost all = texts(pieces@);
    let mut bits: Vec<u32> = Vec::new();
    let mut i: usize = 0;
    while i < pieces.len()
        invariant
            i <= pieces.len(),
            all == texts(pieces@),
            bits@.len() == i,
            forall|j: int|
                0 <= j < i ==> parsed(#[trigger] all[j], u32::MAX as int) == Some(bits@[j] as int),
        decreases pieces.len() - i,
    {
        match parse_u32(&pieces[i]) {
            Some(n) => {
                bits.push(n);
            },
            None => {
                assert(parsed(all[i as int], u32::MAX as int) is None);
                return None;
            },
        }
        i = i + 1;
    }
    proof {
        let numbers = Seq::new(all.len(), |j: int| parsed(all[j], u32::MAX as int)->0 as u32);
        assert forall|j: int| 0 <= j < all.len() implies bits@[j] == #[trigger] numbers[j] by {
            assert(parsed(all[j], u32::MAX as int) == Some(bits@[j] as int));
        }
        assert(bits@ =~= numbers);
    }
    Some(bits)
}

/// Reads the name of a range-check column: the widths of the segments and the index of the column.
pub fn parse_range_check_id(id: &str) -> (r: Option<(Vec<u32>, usize)>)
    ensures
        match r {
            Some((bits, index)) => range_check_id(id@) == Some((bits@, index)),
            None => range_check_id(id@) is None,
        },
{
    let rest = match strip_prefix(id, "range_check_") {
        Some(rest) => rest,
        None => {
            return None;
        },
    };
    let marker = chars_of("_column_");
    let at = match find_pattern(&rest, &marker) {
        Some(at) => at,
        None => {
            return None;
        },
    };
    let end = rest.len();
    let ranges = part_of(&rest, 0, at);
    let index = part_of(&rest, at + marker.len(), end);
    proof {
        assert(ranges@ =~= rest@.take(at as int));
        assert(index@ =~= rest@.skip(at + "_column_"@.len()));
    }
    let pieces = split_text(&ranges, '_');
    let bits = match parse_all(&pieces) {
        Some(bits) => bits,
        None => {
            return None;
        },
    };
    match parse_usize(&index) {
        Some(index) => Some((bits, index)),
        None => None,
    }
}

/// Reads the name of a column of an xor table: the number of bits and the index of the column.
pub fn parse_bitwise_xor_id(id: &str) -> (r: Option<(u32, usize)>)
    ensures
        r == bitwise_xor_id(id@),
{
    let rest = match strip_prefix(id, "bitwise_xor_") {
        Some(rest) => rest,
        None => {
            return None;
        },
    };
    let pieces = split_text(&rest, '_');
    assert(texts(pieces@)[0] == pieces@[0]@);
    let n_bits = match parse_u32(&pieces[0]) {
        Some(n_bits) => n_bits,
        None => {
            return None;
        },
    };
    if pieces.len() < 2 {
        return None;
    }
    assert(texts(pieces@)[1] == pieces@[1]@);
    match parse_usize(&pieces[1]) {
        Some(index) => Some((n_bits, index)),
        None => None,
    }
}

/// Reads the name of a column of the table of points.
pub fn parse_pedersen_points_id(id: &str) -> (r: Option<usize>)
    ensures
        r == pedersen_points_id(id@),
{
    if starts_with(id, "pedersen_points_small_") {
        return None;
    }
    parse_index_behind(id, "pedersen_points_")
}

/// Reads the name of a column of the small table of points.
pub fn parse_pedersen_points_small_id(id: &str) -> (r: Option<usize>)
    ensures
        r == pedersen_points_small_id(id@),
{
    parse_index_behind(id, "pedersen_points_small_")
}

/// Reads the name of a column of round keys.
pub fn parse_poseidon_round_keys_id(id: &str) -> (r: Option<usize>)
    ensures
        r == poseidon_round_keys_id(id@),
{
    parse_index_behind(id, "poseidon_round_keys_")
}

/// Reads the name of a column of message permutations.
pub fn parse_blake_sigma_id(id: &str) -> (r: Option<usize>)
    ensures
        r == blake_sigma_id(id@),
{
    parse_index_behind(id, "blake_sigma_")
}

/// Tells whether the name begins with the prefix.
pub fn starts_with(id: &str, prefix: &str) -> (r: bool)
    ensures
        r == begins_with(id@, prefix@),
{
    matches_at(&chars_of(id), &chars_of(prefix), 0)
}

/// The name of a range-check column.
pub open spec fn range_check_name(bits: Seq<u32>, index: usize) -> Seq<char> {
    "range_check_"@ + (joined(all_digits_of(bits), '_') + ("_column_"@ + digits_of(
        index as nat,
    )))
}

/// The name of a column of an xor table.
pub open spec fn bitwise_xor_name(n_bits: u32, index: usize) -> Seq<char> {
    "bitwise_xor_"@ + (digits_of(n_bits as nat).push('_') + digits_of(index as nat))
}

/// The name of a column that is numbered behind a prefix.
pub open spec fn indexed_name(prefix: Seq<char>, index: usize) -> Seq<char> {
    prefix + digits_of(index as nat)
}

proof fn lemma_without_prefix(prefix: Seq<char>, rest: Seq<char>)
    ensures
        without_prefix(prefix + rest, prefix) == Some(rest),
{
    assert((prefix + rest).subrange(0, prefix.len() as int) =~= prefix);
    assert((prefix + rest).skip(prefix.len() as int) =~= rest);
}

proof fn lemma_digits_hold_no(n: nat, c: char)
    requires
        !is_digit(c),
    ensures
        !digits_of(n).contains(c),
{
    law_digits_denote(n);
    let d = digits_of(n);
    if d.contains(c) {
        let i = choose|i: int| 0 <= i < d.len() && d[i] == c;
        assert(is_digit(d[i]));
    }
}

/// Joined digits hold nothing but digits and separators.
proof fn lemma_joined_digits(bits: Seq<u32>, i: int)
    requires
        0 <= i < joined(all_digits_of(bits), '_').len(),
    ensures
        is_digit(joined(all_digits_of(bits), '_')[i]) || joined(all_digits_of(bits), '_')[i]
            == '_',
    decreases bits.len(),
{
    let pieces = all_digits_of(bits);
    if bits.len() == 1 {
        law_digits_denote(bits[0] as nat);
        assert(pieces[0] == digits_of(bits[0] as nat));
        assert(is_digit(pieces[0][i]));
    } else if bits.len() > 1 {
        let front = bits.drop_last();
        assert(pieces.drop_last() =~= all_digits_of(front));
        let begun = joined(all_digits_of(front), '_');
        let last = pieces.last();
        assert(last == digits_of(bits.last() as nat));
        law_digits_denote(bits.last() as nat);
        if i < begun.len() {
            lemma_joined_digits(front, i);
        } else if i > begun.len() {
            assert(is_digit(last[i - begun.len() - 1]));
        }
    }
}

/// The name of a range-check column with one or more segments is read as its widths and its index.
pub proof fn law_range_check_name(bits: Seq<u32>, index: usize)
    requires
        bits.len() > 0,
    ensures
        range_check_id(range_check_name(bits, index)) == Some((bits, index)),
{
    let ranges = joined(all_digits_of(bits), '_');
    let tail = digits_of(index as nat);
    let marker = "_column_"@;
    let rest = ranges + (marker + tail);
    let at = ranges.len() as int;
    reveal_strlit("_column_");
    lemma_without_prefix("range_check_"@, rest);
    assert(is_first(rest, marker, at)) by {
        assert(rest.subrange(at, at + marker.len()) =~= marker);
        assert forall|j: int| 0 <= j < at implies !#[trigger] occurs_at(rest, marker, j) by {
            if occurs_at(rest, marker, j) {
                assert(rest.subrange(j, j + marker.len())[1] == rest[j + 1]);
                assert(marker[1] == 'c');
                if j + 1 < at {
                    lemma_joined_digits(bits, j + 1);
                } else {
                    assert(rest[at] == marker[0]);
                }
            }
        }
    }
    lemma_find(rest, marker, at);
    assert(rest.take(at) =~= ranges);
    assert(rest.skip(at + marker.len()) =~= tail);
    let pieces = all_digits_of(bits);
    assert forall|i: int| 0 <= i < pieces.len() implies !(#[trigger] pieces[i]).contains('_') by {
        lemma_digits_hold_no(bits[i] as nat, '_');
    }
    law_split_of_joined(pieces, '_');
    assert forall|i: int| 0 <= i < pieces.len() implies parsed(
        #[trigger] pieces[i],
        u32::MAX as int,
    ) == Some(bits[i] as int) by {
        law_parse_of_digits(bits[i] as nat, u32::MAX as int);
    }
    assert(Seq::new(pieces.len(), |i: int| parsed(pieces[i], u32::MAX as int)->0 as u32) =~= bits);
    law_parse_of_digits(index as nat, usize::MAX as int);
}

/// The name of a column of an xor table is read as its number of bits and its index.
pub proof fn law_bitwise_xor_name(n_bits: u32, index: usize)
    ensures
        bitwise_xor_id(bitwise_xor_name(n_bits, index)) == Some((n_bits, index)),
{
    let bits = digits_of(n_bits as nat);
    let tail = digits_of(index as nat);
    let rest = bits.push('_') + tail;
    lemma_without_prefix("bitwise_xor_"@, rest);
    lemma_digits_hold_no(n_bits as nat, '_');
    lemma_digits_hold_no(index as nat, '_');
    let pieces = seq![bits, tail];
    assert(pieces.drop_last() =~= seq![bits]);
    assert(joined(seq![bits], '_') == bits);
    assert(joined(pieces, '_') =~= rest);
    law_split_of_joined(pieces, '_');
    law_parse_of_digits(n_bits as nat, u32::MAX as int);
    law_parse_of_digits(index as nat, usize::MAX as int);
}

/// A name that is numbered behind a prefix is read as its index.
pub proof fn law_indexed_name(prefix: Seq<char>, index: usize)
    ensures
        index_behind(indexed_name(prefix, index), prefix) == Some(index),
{
    lemma_without_prefix(prefix, digits_of(index as nat));
    law_parse_of_digits(index as nat, usize::MAX as int);
}

/// The names of the columns of the two tables of points are told apart: each is read as a column
/// of its own table only.
pub proof fn law_tables_of_points_are_told_apart(index: usize)
    ensures
        pedersen_points_small_id(indexed_name("pedersen_points_small_"@, index)) == Some(index),
        pedersen_points_id(indexed_name("pedersen_points_small_"@, index)) is None,
        pedersen_points_id(indexed_name("pedersen_points_"@, index)) == Some(index),
        pedersen_points_small_id(indexed_name("pedersen_points_"@, index)) is None,
{
    let small = "pedersen_points_small_"@;
    let large = "pedersen_points_"@;
    law_indexed_name(small, index);
    law_indexed_name(large, index);
    lemma_without_prefix(small, digits_of(index as nat));
    law_digits_denote(index as nat);
    let name = indexed_name(large, index);
    reveal_strlit("pedersen_points_small_");
    reveal_strlit("pedersen_points_");
    if begins_with(name, small) {
        assert(small[16] == 's');
        assert(name.subrange(0, small.len() as int)[16] == name[16]);
        assert(is_digit(digits_of(index as nat)[0]));
    }
}

/// What stands behind a prefix is the index, if it is a number, and the name is refused otherwise.
pub proof fn law_indices_are_numbers(prefix: Seq<char>, rest: Seq<char>, id: Seq<char>)
    ensures
        index_behind(prefix + rest, prefix) is Some <==> parsed(rest, usize::MAX as int) is Some,
        index_behind(prefix + rest, prefix) matches Some(index) ==> parsed(rest, usize::MAX as int)
            == Some(index as int),
        !begins_with(id, prefix) ==> index_behind(id, prefix) is None,
{
    lemma_without_prefix(prefix, rest);
    if parsed(rest, usize::MAX as int) is Some {
        lemma_parsed_is_positive(rest, usize::MAX as int);
    }
}

proof fn lemma_parsed_is_positive(text: Seq<char>, max: int)
    ensures
        parsed(text, max) matches Some(n) ==> 0 <= n <= max,
{
    if parsed(text, max) is Some {
        lemma_decimal_is_positive(unsigned(text));
    }
}

proof fn lemma_decimal_is_positive(digits: Seq<char>)
    requires
        all_digits(digits),
    ensures
        0 <= decimal(digits),
    decreases digits.len(),
{
    if digits.len() > 0 {
        let front = digits.drop_last();
        assert forall|i: int| 0 <= i < front.len() implies is_digit(#[trigger] front[i]) by {
            assert(front[i] == digits[i]);
        }
        lemma_decimal_is_positive(front);
        assert(is_digit(digits[digits.len() - 1]));
    }
}

/// The name of a column of an xor table is read as its first two numbers, and refused if it has
/// less; what follows behind a further separator is not looked at.
pub proof fn law_xor_names_hold_two_numbers(pieces: Seq<Seq<char>>)
    requires
        pieces.len() > 0,
        forall|i: int| 0 <= i < pieces.len() ==> !(#[trigger] pieces[i]).contains('_'),
    ensures
        ({
            let id = "bitwise_xor_"@ + joined(pieces, '_');
            &&& bitwise_xor_id(id) is Some <==> pieces.len() >= 2 && parsed(
                pieces[0],
                u32::MAX as int,
            ) is Some && parsed(pieces[1], usize::MAX as int) is Some
            &&& bitwise_xor_id(id) matches Some((n_bits, index)) ==> parsed(
                pieces[0],
                u32::MAX as int,
            ) == Some(n_bits as int) && parsed(pieces[1], usize::MAX as int) == Some(index as int)
        }),
{
    lemma_without_prefix("bitwise_xor_"@, joined(pieces, '_'));
    law_split_of_joined(pieces, '_');
    lemma_parsed_is_positive(pieces[0], u32::MAX as int);
    if pieces.len() > 1 {
        lemma_parsed_is_positive(pieces[1], usize::MAX as int);
    }
}

/// The name of a column of a range-check table is read as the numbers before the first marker and
/// the one behind it, and refused if one of them is no number.
pub proof fn law_range_check_names_hold_numbers(pieces: Seq<Seq<char>>, tail: Seq<char>, k: int)
    requires
        0 <= k < pieces.len(),
        forall|i: int| 0 <= i < pieces.len() ==> !(#[trigger] pieces[i]).contains('_'),
        forall|j: int|
            0 <= j < joined(pieces, '_').len() ==> !#[trigger] occurs_at(
                joined(pieces, '_') + ("_column_"@ + tail),
                "_column_"@,
                j,
            ),
    ensures
        ({
            let id = "range_check_"@ + (joined(pieces, '_') + ("_column_"@ + tail));
            &&& range_check_id(id) is Some <==> parsed(tail, usize::MAX as int) is Some && forall|
                i: int,
            |
                0 <= i < pieces.len() ==> parsed(#[trigger] pieces[i], u32::MAX as int) is Some
            &&& range_check_id(id) matches Some((bits, index)) ==> bits.len() == pieces.len()
                && parsed(pieces[k], u32::MAX as int) == Some(bits[k] as int) && parsed(
                tail,
                usize::MAX as int,
            ) == Some(index as int)
        }),
{
    let ranges = joined(pieces, '_');
    let marker = "_column_"@;
    let rest = ranges + (marker + tail);
    let at = ranges.len() as int;
    lemma_without_prefix("range_check_"@, rest);
    assert(rest.subrange(at, at + marker.len()) =~= marker);
    assert(is_first(rest, marker, at));
    lemma_find(rest, marker, at);
    assert(rest.take(at) =~= ranges);
    assert(rest.skip(at + marker.len()) =~= tail);
    law_split_of_joined(pieces, '_');
    lemma_parsed_is_positive(tail, usize::MAX as int);
    lemma_parsed_is_positive(pieces[k], u32::MAX as int);
}

} // verus!

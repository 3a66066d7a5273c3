//! Reading numbers out of names.

use vstd::prelude::*;

verus! {

/// The text holds `pattern` at position `at`.
pub open spec fn occurs_at(text: Seq<char>, pattern: Seq<char>, at: int) -> bool {
    &&& 0 <= at
    &&& at + pattern.len() <= text.len()
    &&& text.subrange(at, at + pattern.len()) == pattern
}

/// The text begins with `pattern`.
pub open spec fn begins_with(text: Seq<char>, pattern: Seq<char>) -> bool {
    occurs_at(text, pattern, 0)
}

/// `at` is the first position at which the text holds `pattern`.
pub open spec fn is_first(text: Seq<char>, pattern: Seq<char>, at: int) -> bool {
    &&& occurs_at(text, pattern, at)
    &&& forall|j: int| 0 <= j < at ==> !#[trigger] occurs_at(text, pattern, j)
}

/// The first position at which the text holds `pattern`.
pub open spec fn find(text: Seq<char>, pattern: Seq<char>) -> Option<int> {
    if exists|at: int| is_first(text, pattern, at) {
        Some(choose|at: int| is_first(text, pattern, at))
    } else {
        None
    }
}

/// What follows the prefix, where the text begins with it.
pub open spec fn without_prefix(text: Seq<char>, prefix: Seq<char>) -> Option<Seq<char>> {
    if begins_with(text, prefix) {
        Some(text.skip(prefix.len() as int))
    } else {
        None
    }
}

/// The pieces of the text between the separators; without a separator, the text itself.
pub open spec fn split(text: Seq<char>, separator: char) -> Seq<Seq<char>>
    decreases text.len(),
{
    if text.len() == 0 {
        seq![Seq::empty()]
    } else {
        let before = split(text.drop_last(), separator);
        if text.last() == separator {
            before.push(Seq::empty())
        } else {
            before.drop_last().push(before.last().push(text.last()))
        }
    }
}

/// The pieces joined by separators.
pub open spec fn joined(pieces: Seq<Seq<char>>, separator: char) -> Seq<char>
    decreases pieces.len(),
{
    if pieces.len() == 0 {
        Seq::empty()
    } else if pieces.len() == 1 {
        pieces[0]
    } else {
        joined(pieces.drop_last(), separator).push(separator) + pieces.last()
    }
}

/// The character is a decimal digit.
pub open spec fn is_digit(c: char) -> bool {
    '0' <= c <= '9'
}

/// Every character is a decimal digit.
pub open spec fn all_digits(text: Seq<char>) -> bool {
    forall|i: int| 0 <= i < text.len() ==> is_digit(#[trigger] text[i])
}

/// The number that decimal digits denote.
pub open spec fn decimal(text: Seq<char>) -> int
    decreases text.len(),
{
    if text.len() == 0 {
        0
    } else {
        10 * decimal(text.drop_last()) + (text.last() as int - '0' as int)
    }
}

/// The text without a leading plus sign.
pub open spec fn unsigned(text: Seq<char>) -> Seq<char> {
    if text.len() > 0 && text[0] == '+' {
        text.skip(1)
    } else {
        text
    }
}

/// The number up to `max` that the text denotes: decimal digits, possibly after a plus sign.
pub open spec fn parsed(text: Seq<char>, max: int) -> Option<int> {
    let digits = unsigned(text);
    if digits.len() > 0 && all_digits(digits) && decimal(digits) <= max {
        Some(decimal(digits))
    } else {
        None
    }
}

/// The decimal digits of a number, without leading zeroes.
pub open spec fn digits_of(n: nat) -> Seq<char>
    decreases n,
{
    if n < 10 {
        seq![('0' as int + n) as char]
    } else {
        digits_of(n / 10).push(('0' as int + n % 10) as char)
    }
}

/// The decimal digits of each number.
pub open spec fn all_digits_of(ns: Seq<u32>) -> Seq<Seq<char>> {
    ns.map_values(|n: u32| digits_of(n as nat))
}

/// The decimal digits of a number denote it.
pub proof fn law_digits_denote(n: nat)
    ensures
        digits_of(n).len() > 0,
        all_digits(digits_of(n)),
        decimal(digits_of(n)) == n,
    decreases n,
{
    if n < 10 {
        let one = digits_of(n);
        assert(one.drop_last() =~= Seq::<char>::empty());
        assert(decimal(one.drop_last()) == 0);
    } else {
        law_digits_denote(n / 10);
        let d = digits_of(n);
        assert(d.drop_last() =~= digits_of(n / 10));
        assert(d.last() == ('0' as int + n % 10) as char);
    }
}

/// The decimal digits of a number up to `max` are read as this number.
pub proof fn law_parse_of_digits(n: nat, max: int)
    requires
        n <= max,
    ensures
        parsed(digits_of(n), max) == Some(n as int),
{
    law_digits_denote(n);
    assert(is_digit(digits_of(n)[0]));
}

/// The first position of a pattern is the one that `find` names.
pub proof fn lemma_find(text: Seq<char>, pattern: Seq<char>, at: int)
    requires
        is_first(text, pattern, at),
    ensures
        find(text, pattern) == Some(at),
{
    let other = choose|at: int| is_first(text, pattern, at);
    assert(is_first(text, pattern, other));
    if other < at {
        assert(!occurs_at(text, pattern, other));
    }
    if at < other {
        assert(!occurs_at(text, pattern, at));
    }
}

/// Splitting takes joined pieces apart again, as long as there is a piece and none holds the
/// separator.
pub proof fn law_split_of_joined(pieces: Seq<Seq<char>>, separator: char)
    requires
        pieces.len() > 0,
        forall|i: int| 0 <= i < pieces.len() ==> !(#[trigger] pieces[i]).contains(separator),
    ensures
        split(joined(pieces, separator), separator) == pieces,
    decreases pieces.len(),
{
    let last = pieces.last();
    assert(pieces[pieces.len() - 1] == last);
    if pieces.len() == 1 {
        assert(Seq::<char>::empty() + last =~= last);
        assert(split(Seq::<char>::empty(), separator) =~= seq![Seq::<char>::empty()]);
        lemma_split_continued(Seq::empty(), last, separator);
        assert(split(last, separator) =~= pieces);
    } else {
        let front = pieces.drop_last();
        assert forall|i: int| 0 <= i < front.len() implies !(#[trigger] front[i]).contains(
            separator,
        ) by {
            assert(front[i] == pieces[i]);
        }
        law_split_of_joined(front, separator);
        let begun = joined(front, separator).push(separator);
        assert(begun.drop_last() =~= joined(front, separator));
        assert(split(begun, separator) == front.push(Seq::empty()));
        lemma_split_continued(begun, last, separator);
        let before = split(begun, separator);
        assert(before.drop_last() =~= front);
        assert(before.last() + last =~= last);
        assert(front.push(last) =~= pieces);
    }
}

/// Text without a separator continues the last piece.
proof fn lemma_split_continued(text: Seq<char>, more: Seq<char>, separator: char)
    requires
        !more.contains(separator),
    ensures
        split(text, separator).len() > 0,
        split(text + more, separator) == split(text, separator).drop_last().push(
            split(text, separator).last() + more,
        ),
    decreases more.len(),
{
    lemma_split_has_a_piece(text, separator);
    let before = split(text, separator);
    if more.len() == 0 {
        assert(text + more =~= text);
        assert(before.last() + more =~= before.last());
        assert(before.drop_last().push(before.last()) =~= before);
    } else {
        let shorter = more.drop_last();
        assert(!shorter.contains(separator)) by {
            if shorter.contains(separator) {
                let i = choose|i: int| 0 <= i < shorter.len() && shorter[i] == separator;
                assert(more[i] == separator);
            }
        }
        lemma_split_continued(text, shorter, separator);
        let all = text + more;
        assert(all.drop_last() =~= text + shorter);
        assert(all.last() == more.last());
        assert(more[more.len() - 1] == more.last());
        assert(all.last() != separator);
        let step = split(text + shorter, separator);
        assert(step.drop_last() =~= before.drop_last());
        assert((before.last() + shorter).push(more.last()) =~= before.last() + more);
    }
}

/// There is always a piece.
pub proof fn lemma_split_has_a_piece(text: Seq<char>, separator: char)
    ensures
        split(text, separator).len() > 0,
    decreases text.len(),
{
    if text.len() > 0 {
        lemma_split_has_a_piece(text.drop_last(), separator);
    }
}

/// Returns the characters of a text.
pub fn chars_of(text: &str) -> (chars: Vec<char>)
    ensures
        chars@ == text@,
{
    let mut chars: Vec<char> = Vec::new();
    let n = text.unicode_len();
    let mut i: usize = 0;
    while i < n
        invariant
            i <= n == text@.len(),
            chars@ == text@.take(i as int),
        decreases n - i,
    {
        chars.push(text.get_char(i));
        i = i + 1;
        assert(text@.take(i as int) =~= text@.take(i - 1).push(text@[i - 1]));
    }
    assert(text@.take(i as int) =~= text@);
    chars
}

/// Tells whether the text holds the pattern at the given position.
pub fn matches_at(text: &Vec<char>, pattern: &Vec<char>, at: usize) -> (r: bool)
    ensures
        r == occurs_at(text@, pattern@, at as int),
{
    if at > text.len() || text.len() - at < pattern.len() {
        return false;
    }
    let mut i: usize = 0;
    while i < pattern.len()
        invariant
            i <= pattern.len(),
            at + pattern.len() <= text.len(),
            forall|j: int| 0 <= j < i ==> #[trigger] pattern@[j] == text@[at + j],
        decreases pattern.len() - i,
    {
        if text[at + i] != pattern[i] {
            assert(text@.subrange(at as int, at + pattern@.len())[i as int] != pattern@[i as int]);
            return false;
        }
        i = i + 1;
    }
    assert(text@.subrange(at as int, at + pattern@.len()) =~= pattern@);
    true
}

/// Tells whether two texts are the same.
pub fn same_text(a: &str, b: &str) -> (r: bool)
    ensures
        r == (a@ == b@),
{
    let a = chars_of(a);
    let b = chars_of(b);
    let same = a.len() == b.len() && matches_at(&a, &b, 0);
    proof {
        if a@.len() == b@.len() {
            assert(a@.subrange(0, b@.len() as int) =~= a@);
        }
    }
    same
}

/// Returns the first position at which the text holds the pattern.
pub fn find_pattern(text: &Vec<char>, pattern: &Vec<char>) -> (r: Option<usize>)
    ensures
        match r {
            Some(at) => find(text@, pattern@) == Some(at as int) && is_first(
                text@,
                pattern@,
                at as int,
            ),
            None => find(text@, pattern@) is None,
        },
{
    let mut at: usize = 0;
    while at < text.len()
        invariant
            at <= text.len(),
            forall|j: int| 0 <= j < at ==> !#[trigger] occurs_at(text@, pattern@, j),
        decreases text.len() - at,
    {
        if matches_at(text, pattern, at) {
            proof {
                lemma_find(text@, pattern@, at as int);
            }
            return Some(at);
        }
        at = at + 1;
    }
    if matches_at(text, pattern, at) {
        proof {
            lemma_find(text@, pattern@, at as int);
        }
        return Some(at);
    }
    None
}

/// Returns the characters from one position to another.
pub fn part_of(text: &Vec<char>, from: usize, to: usize) -> (r: Vec<char>)
    requires
        from <= to <= text@.len(),
    ensures
        r@ == text@.subrange(from as int, to as int),
{
    let mut r: Vec<char> = Vec::new();
    let mut i: usize = from;
    while i < to
        invariant
            from <= i <= to <= text@.len(),
            r@ == text@.subrange(from as int, i as int),
        decreases to - i,
    {
        r.push(text[i]);
        i = i + 1;
        assert(text@.subrange(from as int, i as int) =~= text@.subrange(from as int, i - 1).push(
            text@[i - 1],
        ));
    }
    r
}

/// Returns what follows the prefix, where the text begins with it.
pub fn strip_prefix(text: &str, prefix: &str) -> (r: Option<Vec<char>>)
    ensures
        match r {
            Some(rest) => without_prefix(text@, prefix@) == Some(rest@),
            None => without_prefix(text@, prefix@) is None,
        },
{
    let text = chars_of(text);
    let prefix = chars_of(prefix);
    if matches_at(&text, &prefix, 0) {
        let rest = part_of(&text, prefix.len(), text.len());
        assert(rest@ =~= text@.skip(prefix@.len() as int));
        Some(rest)
    } else {
        None
    }
}

/// The contents of pieces of text.
pub open spec fn texts(pieces: Seq<Vec<char>>) -> Seq<Seq<char>> {
    Seq::new(pieces.len(), |i: int| pieces[i]@)
}

/// Returns the pieces of the text between the separators.
pub fn split_text(text: &Vec<char>, separator: char) -> (pieces: Vec<Vec<char>>)
    ensures
        texts(pieces@) == split(text@, separator),
        pieces@.len() > 0,
{
    let mut pieces: Vec<Vec<char>> = Vec::new();
    let mut piece: Vec<char> = Vec::new();
    let mut i: usize = 0;
    assert(texts(pieces@).push(piece@) =~= split(text@.take(0), separator));
    while i < text.len()
        invariant
            i <= text.len(),
            texts(pieces@).push(piece@) == split(text@.take(i as int), separator),
        decreases text.len() - i,
    {
        let ghost before = texts(pieces@);
        let ghost begun = piece@;
        let c = text[i];
        i = i + 1;
        proof {
            assert(text@.take(i as int).drop_last() =~= text@.take(i - 1));
            assert(text@.take(i as int).last() == c);
            assert(before.push(begun).drop_last() =~= before);
        }
        if c == separator {
            pieces.push(piece);
            piece = Vec::new();
            assert(texts(pieces@) =~= before.push(begun));
            assert(texts(pieces@).push(piece@) =~= split(text@.take(i as int), separator));
        } else {
            piece.push(c);
            assert(texts(pieces@).push(piece@) =~= split(text@.take(i as int), separator));
        }
    }
    assert(text@.take(i as int) =~= text@);
    let ghost before = texts(pieces@);
    let ghost last = piece@;
    pieces.push(piece);
    assert(texts(pieces@) =~= before.push(last));
    pieces
}

/// What comes later can only make the number larger.
proof fn lemma_decimal_grows(text: Seq<char>, i: int)
    requires
        0 <= i <= text.len(),
        all_digits(text),
    ensures
        0 <= decimal(text.take(i)) <= decimal(text),
    decreases text.len(),
{
    if i == text.len() {
        assert(text.take(i) =~= text);
        if text.len() > 0 {
            assert(is_digit(text[text.len() - 1]));
            lemma_decimal_grows(text.drop_last(), text.len() - 1);
            assert(text.drop_last().take(text.len() - 1) =~= text.drop_last());
        }
    } else {
        assert(is_digit(text[text.len() - 1]));
        let shorter = text.drop_last();
        lemma_decimal_grows(shorter, i);
        assert(shorter.take(i) =~= text.take(i));
    }
}

/// Returns the number up to `max` that the text denotes: decimal digits, possibly after a plus
/// sign.
pub fn parse_number(text: &Vec<char>, max: u64) -> (r: Option<u64>)
    ensures
        match r {
            Some(n) => parsed(text@, max as int) == Some(n as int),
            None => parsed(text@, max as int) is None,
        },
{
    let ghost digits = unsigned(text@);
    let start: usize = if text.len() > 0 && text[0] == '+' {
        1
    } else {
        0
    };
    assert(digits =~= text@.skip(start as int));
    if text.len() == start {
        return None;
    }
    let mut n: u64 = 0;
    let mut i: usize = start;
    assert(digits.take(0) =~= Seq::<char>::empty());
    while i < text.len()
        invariant
            start <= i <= text.len(),
            digits == text@.skip(start as int),
            digits == unsigned(text@),
            digits.len() > 0,
            n == decimal(digits.take(i - start)),
            n <= max,
            all_digits(digits.take(i - start)),
        decreases text.len() - i,
    {
        let c = text[i];
        let ghost k = i - start;
        assert(digits[k] == c);
        if c < '0' || c > '9' {
            assert(!is_digit(digits[k]));
            return None;
        }
        let d: u64 = c as u64 - '0' as u64;
        proof {
            assert(digits.take(k + 1).drop_last() =~= digits.take(k));
            assert(digits.take(k + 1).last() == c);
            assert(decimal(digits.take(k + 1)) == 10 * n + d);
            if decimal(digits.take(k + 1)) > max && all_digits(digits) {
                lemma_decimal_grows(digits, k + 1);
            }
        }
        if d > max || n > (max - d) / 10 {
            return None;
        }
        n = 10 * n + d;
        i = i + 1;
        assert(all_digits(digits.take(k + 1)));
    }
    assert(digits.take(i - start) =~= digits);
    Some(n)
}

/// One digit denotes itself, a digit that is appended makes ten times the number and the digit, and
/// a plus sign before the digits changes nothing.
pub proof fn law_numbers_are_read_digit_by_digit(text: Seq<char>, digit: char, max: int)
    requires
        is_digit(digit),
        0 <= max,
    ensures
        9 <= max ==> parsed(seq![digit], max) == Some(digit as int - '0' as int),
        parsed(text, max) matches Some(n) ==> parsed(text.push(digit), max) == if 10 * n + (
        digit as int - '0' as int) <= max {
            Some(10 * n + (digit as int - '0' as int))
        } else {
            None
        },
        parsed(seq!['+', digit], max) == parsed(seq![digit], max),
{
    let one = seq![digit];
    assert(one.drop_last() =~= Seq::<char>::empty());
    assert(decimal(one.drop_last()) == 0);
    assert(one[0] != '+');
    assert(unsigned(seq!['+', digit]) =~= one);
    if parsed(text, max) is Some {
        let digits = unsigned(text);
        let longer = text.push(digit);
        assert(longer[0] == text[0]);
        assert(unsigned(longer) =~= digits.push(digit));
        assert(digits.push(digit).drop_last() =~= digits);
        assert forall|i: int| 0 <= i < digits.push(digit).len() implies is_digit(
            #[trigger] digits.push(digit)[i],
        ) by {
            if i < digits.len() {
                assert(is_digit(digits[i]));
            }
        }
    }
}

/// Text is refused that holds no digit, that holds anything but digits behind its first character,
/// or whose number is above the greatest one.
pub proof fn law_other_texts_denote_nothing(text: Seq<char>, max: int, i: int)
    ensures
        parsed(Seq::empty(), max) is None,
        parsed(seq!['+'], max) is None,
        0 < i < text.len() && !is_digit(text[i]) ==> parsed(text, max) is None,
        text.len() > 0 && text[0] != '+' && !is_digit(text[0]) ==> parsed(text, max) is None,
        parsed(text, max) matches Some(n) ==> n <= max,
        parsed(text, max) matches Some(n) ==> forall|less: int|
            less < n ==> (#[trigger] parsed(text, less)) is None,
{
    assert(unsigned(seq!['+']).len() == 0);
    if 0 < i < text.len() && !is_digit(text[i]) {
        let digits = unsigned(text);
        if text[0] == '+' {
            assert(digits[i - 1] == text[i]);
        } else {
            assert(digits[i] == text[i]);
        }
    }
    if text.len() > 0 && text[0] != '+' && !is_digit(text[0]) {
        assert(unsigned(text)[0] == text[0]);
    }
}

/// A pattern is found at its first place, and not found where it has no place.
pub proof fn law_patterns_are_found_first(text: Seq<char>, pattern: Seq<char>, at: int)
    ensures
        find(text, pattern) matches Some(place) ==> 0 <= place && place + pattern.len()
            <= text.len() && text.subrange(place, place + pattern.len()) == pattern,
        0 <= at && at + pattern.len() <= text.len() && text.subrange(at, at + pattern.len())
            == pattern ==> (find(text, pattern) matches Some(place) && place <= at),
{
    if occurs_at(text, pattern, at) {
        lemma_first_up_to(text, pattern, at);
    }
    if find(text, pattern) is Some {
        let place = choose|place: int| is_first(text, pattern, place);
        assert(is_first(text, pattern, place));
    }
}

proof fn lemma_first_up_to(text: Seq<char>, pattern: Seq<char>, at: int)
    requires
        occurs_at(text, pattern, at),
    ensures
        find(text, pattern) matches Some(place) && place <= at,
    decreases at,
{
    if exists|j: int| 0 <= j < at && occurs_at(text, pattern, j) {
        let j = choose|j: int| 0 <= j < at && occurs_at(text, pattern, j);
        lemma_first_up_to(text, pattern, j);
    } else {
        assert(is_first(text, pattern, at));
        lemma_find(text, pattern, at);
    }
}

} // verus!

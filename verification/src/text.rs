//! Text as a sequence of characters: where a word occurs in it, and which
//! number it writes.

use vstd::prelude::*;

verus! {

/// `word` stands in `text` at position `at`.
pub open spec fn occurs_at(text: Seq<char>, word: Seq<char>, at: int) -> bool {
    0 <= at && at + word.len() <= text.len() && text.subrange(at, at + word.len()) == word
}

/// `text` begins with `word`.
pub open spec fn starts_with(text: Seq<char>, word: Seq<char>) -> bool {
    occurs_at(text, word, 0)
}

/// `text` ends with `word`.
pub open spec fn ends_with(text: Seq<char>, word: Seq<char>) -> bool {
    occurs_at(text, word, text.len() - word.len())
}

/// `word` stands in `text` at `at`, and nowhere before.
pub open spec fn is_first_occurrence(text: Seq<char>, word: Seq<char>, at: int) -> bool {
    occurs_at(text, word, at) && forall|earlier: int|
        earlier < at ==> !#[trigger] occurs_at(text, word, earlier)
}

/// The first position at which `word` stands in `text`, if it stands
/// anywhere.
pub open spec fn first_occurrence(text: Seq<char>, word: Seq<char>) -> Option<int> {
    if exists|at: int| is_first_occurrence(text, word, at) {
        Some(choose|at: int| is_first_occurrence(text, word, at))
    } else {
        None
    }
}

/// The number that the decimal digits `digits` write.
pub open spec fn digits_value(digits: Seq<char>) -> nat
    decreases digits.len(),
{
    if digits.len() == 0 {
        0
    } else {
        (10 * digits_value(digits.drop_last()) + (digits.last() as int - '0' as int)) as nat
    }
}

/// Every character of `text` is one of `0` to `9`.
pub open spec fn all_digits(text: Seq<char>) -> bool {
    forall|i: int| 0 <= i < text.len() ==> '0' <= #[trigger] text[i] <= '9'
}

/// The number that `text` writes for an unsigned type that holds up to
/// `max`: digits, with or without a `+` in front, and nothing else. No
/// number where there is no digit, another character, or the value is
/// over `max`.
pub open spec fn unsigned_number(text: Seq<char>, max: int) -> Option<int> {
    let digits = if text.len() > 0 && text[0] == '+' {
        text.drop_first()
    } else {
        text
    };
    if digits.len() > 0 && all_digits(digits) && digits_value(digits) <= max {
        Some(digits_value(digits) as int)
    } else {
        None
    }
}

/// The number that `text` writes for a signed type that holds `min` to
/// `max`: digits, with or without a `+` or a `-` in front, and nothing else.
/// No number where there is no digit, another character, or the value is
/// out of range.
pub open spec fn signed_number(text: Seq<char>, min: int, max: int) -> Option<int> {
    let signed = text.len() > 0 && (text[0] == '+' || text[0] == '-');
    let digits = if signed {
        text.drop_first()
    } else {
        text
    };
    let value = if text.len() > 0 && text[0] == '-' {
        -digits_value(digits)
    } else {
        digits_value(digits) as int
    };
    if digits.len() > 0 && all_digits(digits) && min <= value <= max {
        Some(value)
    } else {
        None
    }
}

/// At most one position is that of the first occurrence.
pub proof fn lemma_first_occurrence_is(text: Seq<char>, word: Seq<char>, at: int)
    requires
        is_first_occurrence(text, word, at),
    ensures
        first_occurrence(text, word) == Some(at),
{
    let chosen = choose|at: int| is_first_occurrence(text, word, at);
    assert(is_first_occurrence(text, word, chosen));
    if chosen < at {
        assert(!occurs_at(text, word, chosen));
    }
    if at < chosen {
        assert(!occurs_at(text, word, at));
    }
}

/// A word that stands nowhere has no first occurrence.
pub proof fn lemma_no_occurrence(text: Seq<char>, word: Seq<char>)
    requires
        forall|at: int| !#[trigger] occurs_at(text, word, at),
    ensures
        first_occurrence(text, word) is None,
{
}

/// The characters of `text`, one by one.
pub fn chars_of(text: &str) -> (chars: Vec<char>)
    ensures
        chars@ == text@,
{
    let n = text.unicode_len();
    let mut chars: Vec<char> = Vec::new();
    let mut i: usize = 0;
    while i < n
        invariant
            n == text@.len(),
            i <= n,
            chars@ == text@.subrange(0, i as int),
        decreases n - i,
    {
        chars.push(text.get_char(i));
        i = i + 1;
        assert(chars@ =~= text@.subrange(0, i as int));
    }
    assert(text@.subrange(0, n as int) =~= text@);
    chars
}

/// Whether `word` stands in `text` at position `at`.
pub fn stands_at(text: &Vec<char>, word: &Vec<char>, at: usize) -> (found: bool)
    ensures
        found == occurs_at(text@, word@, at as int),
{
    if word.len() > text.len() || at > text.len() - word.len() {
        return false;
    }
    let mut i: usize = 0;
    while i < word.len()
        invariant
            at + word.len() <= text.len(),
            i <= word.len(),
            text@.subrange(at as int, at + i) == word@.subrange(0, i as int),
        decreases word.len() - i,
    {
        if text[at + i] != word[i] {
            proof {
                let piece = text@.subrange(at as int, at + word.len());
                assert(piece[i as int] != word@[i as int]);
            }
            return false;
        }
        i = i + 1;
        assert(text@.subrange(at as int, at + i) =~= word@.subrange(0, i as int));
    }
    assert(word@.subrange(0, word.len() as int) =~= word@);
    true
}

/// Whether `text` begins with `word`.
pub fn begins_with(text: &Vec<char>, word: &Vec<char>) -> (found: bool)
    ensures
        found == starts_with(text@, word@),
{
    stands_at(text, word, 0)
}

/// Whether `text` ends with `word`.
pub fn finishes_with(text: &Vec<char>, word: &Vec<char>) -> (found: bool)
    ensures
        found == ends_with(text@, word@),
{
    if word.len() > text.len() {
        false
    } else {
        stands_at(text, word, text.len() - word.len())
    }
}

/// The first position at which `word` stands in `text`.
pub fn find(text: &Vec<char>, word: &Vec<char>) -> (place: Option<usize>)
    ensures
        place matches Some(at) ==> first_occurrence(text@, word@) == Some(at as int),
        place is None ==> first_occurrence(text@, word@) is None,
{
    if word.len() > text.len() {
        proof {
            lemma_no_occurrence(text@, word@);
        }
        return None;
    }
    let last = text.len() - word.len();
    let mut at: usize = 0;
    while at < last
        invariant
            last == text.len() - word.len(),
            at <= last,
            forall|earlier: int| earlier < at ==> !#[trigger] occurs_at(text@, word@, earlier),
        decreases last - at,
    {
        if stands_at(text, word, at) {
            proof {
                lemma_first_occurrence_is(text@, word@, at as int);
            }
            return Some(at);
        }
        at = at + 1;
    }
    if stands_at(text, word, last) {
        proof {
            lemma_first_occurrence_is(text@, word@, last as int);
        }
        return Some(last);
    }
    proof {
        lemma_no_occurrence(text@, word@);
    }
    None
}

/// Digits put after digits never write a smaller number.
proof fn lemma_digits_value_grows(digits: Seq<char>, shorter: int)
    requires
        all_digits(digits),
        0 <= shorter <= digits.len(),
    ensures
        digits_value(digits.subrange(0, shorter)) <= digits_value(digits),
    decreases digits.len() - shorter,
{
    if shorter == digits.len() {
        assert(digits.subrange(0, shorter) =~= digits);
    } else {
        assert(digits.drop_last().subrange(0, shorter) =~= digits.subrange(0, shorter));
        assert(all_digits(digits.drop_last()));
        lemma_digits_value_grows(digits.drop_last(), shorter);
    }
}

/// The number that the digits from `from` to `to` in `text` write, if there
/// is a digit, nothing but digits, and the number is at most `max`.
fn read_digits(text: &Vec<char>, from: usize, to: usize, max: u64) -> (number: Option<u64>)
    requires
        from <= to <= text.len(),
    ensures
        number == if from < to && all_digits(text@.subrange(from as int, to as int))
            && digits_value(text@.subrange(from as int, to as int)) <= max {
            Some(digits_value(text@.subrange(from as int, to as int)) as u64)
        } else {
            None
        },
{
    let ghost digits = text@.subrange(from as int, to as int);
    if from == to {
        return None;
    }
    let mut value: u64 = 0;
    let mut i: usize = from;
    assert(digits.subrange(0, 0) =~= Seq::<char>::empty());
    while i < to
        invariant
            from <= i <= to <= text.len(),
            digits == text@.subrange(from as int, to as int),
            all_digits(digits.subrange(0, i - from)),
            value == digits_value(digits.subrange(0, i - from)),
            value <= max,
        decreases to - i,
    {
        let c = text[i];
        if c < '0' || c > '9' {
            assert(digits[i - from] == c);
            return None;
        }
        let digit: u64 = (c as u64) - ('0' as u64);
        proof {
            let read = digits.subrange(0, i - from + 1);
            assert(read.drop_last() =~= digits.subrange(0, i - from));
            assert(read.last() == c);
            assert(digits_value(read) == 10 * value + digit);
            assert forall|k: int| 0 <= k < read.len() implies '0' <= #[trigger] read[k] <= '9' by {
                if k < i - from {
                    assert(digits.subrange(0, i - from)[k] == read[k]);
                }
            }
            if all_digits(digits) {
                lemma_digits_value_grows(digits, i - from + 1);
            }
        }
        if digit > max || value > (max - digit) / 10 {
            return None;
        }
        value = value * 10 + digit;
        i = i + 1;
    }
    assert(digits.subrange(0, to - from) =~= digits);
    Some(value)
}

/// The number that `text` writes from `from` to `to`, read as a number of
/// an unsigned type that holds up to `max`.
pub fn read_unsigned(text: &Vec<char>, from: usize, to: usize, max: u64) -> (number: Option<u64>)
    requires
        from <= to <= text.len(),
    ensures
        number matches Some(n) ==> unsigned_number(
            text@.subrange(from as int, to as int),
            max as int,
        ) == Some(n as int),
        number is None ==> unsigned_number(text@.subrange(from as int, to as int), max as int)
            is None,
{
    let ghost part = text@.subrange(from as int, to as int);
    if from < to && text[from] == '+' {
        assert(part[0] == '+');
        assert(part.drop_first() =~= text@.subrange(from + 1, to as int));
        read_digits(text, from + 1, to, max)
    } else {
        assert(from < to ==> part[0] == text[from as int]);
        read_digits(text, from, to, max)
    }
}

/// The number that `text` writes from `from` to `to`, read as a number of
/// the signed 64-bit type.
pub fn read_signed(text: &Vec<char>, from: usize, to: usize) -> (number: Option<i64>)
    requires
        from <= to <= text.len(),
    ensures
        number matches Some(n) ==> signed_number(
            text@.subrange(from as int, to as int),
            i64::MIN as int,
            i64::MAX as int,
        ) == Some(n as int),
        number is None ==> signed_number(
            text@.subrange(from as int, to as int),
            i64::MIN as int,
            i64::MAX as int,
        ) is None,
{
    let ghost part = text@.subrange(from as int, to as int);
    if from < to && text[from] == '-' {
        assert(part[0] == '-');
        assert(part.drop_first() =~= text@.subrange(from + 1, to as int));
        match read_digits(text, from + 1, to, 0x8000_0000_0000_0000) {
            Some(size) => if size == 0x8000_0000_0000_0000 {
                Some(i64::MIN)
            } else {
                Some(-(size as i64))
            },
            None => None,
        }
    } else if from < to && text[from] == '+' {
        assert(part[0] == '+');
        assert(part.drop_first() =~= text@.subrange(from + 1, to as int));
        match read_digits(text, from + 1, to, 0x7fff_ffff_ffff_ffff) {
            Some(size) => Some(size as i64),
            None => None,
        }
    } else {
        assert(from < to ==> part[0] == text[from as int]);
        match read_digits(text, from, to, 0x7fff_ffff_ffff_ffff) {
            Some(size) => Some(size as i64),
            None => None,
        }
    }
}

} // verus!

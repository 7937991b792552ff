//! The small text grammar of a record: comma-separated fields, surrounding
//! whitespace, unsigned decimal numbers.

use vstd::prelude::*;

verus! {

/// The character that separates the fields of a record.
pub open spec fn separator() -> char {
    ','
}

/// True for the characters with the Unicode `White_Space` property, the ones
/// that trimming removes.
pub open spec fn is_whitespace(c: char) -> bool {
    let code = c as int;
    ||| 0x09 <= code <= 0x0D
    ||| code == 0x20
    ||| code == 0x85
    ||| code == 0xA0
    ||| code == 0x1680
    ||| 0x2000 <= code <= 0x200A
    ||| code == 0x2028
    ||| code == 0x2029
    ||| code == 0x202F
    ||| code == 0x205F
    ||| code == 0x3000
}

/// `text` without its leading whitespace.
pub open spec fn trimmed_start(text: Seq<char>) -> Seq<char>
    decreases text.len(),
{
    if text.len() > 0 && is_whitespace(text[0]) {
        trimmed_start(text.drop_first())
    } else {
        text
    }
}

/// `text` without its trailing whitespace.
pub open spec fn trimmed_end(text: Seq<char>) -> Seq<char>
    decreases text.len(),
{
    if text.len() > 0 && is_whitespace(text.last()) {
        trimmed_end(text.drop_last())
    } else {
        text
    }
}

/// `text` without its leading and trailing whitespace.
pub open spec fn trimmed(text: Seq<char>) -> Seq<char> {
    trimmed_end(trimmed_start(text))
}

/// The fields of `text`: the pieces between its separators, in order. A text
/// with `n` separators has `n + 1` fields, some of which may be empty.
pub open spec fn fields(text: Seq<char>) -> Seq<Seq<char>>
    decreases text.len(),
{
    if text.len() == 0 {
        seq![Seq::empty()]
    } else {
        let before = fields(text.drop_last());
        if text.last() == separator() {
            before.push(Seq::empty())
        } else {
            before.drop_last().push(before.last().push(text.last()))
        }
    }
}

/// The fields put back together with a separator between neighbours.
pub open spec fn joined(pieces: Seq<Seq<char>>) -> Seq<char>
    decreases pieces.len(),
{
    if pieces.len() == 0 {
        Seq::empty()
    } else if pieces.len() == 1 {
        pieces[0]
    } else {
        joined(pieces.drop_last()).push(separator()) + pieces.last()
    }
}

/// True for the ten ASCII decimal digits.
pub open spec fn is_digit(c: char) -> bool {
    '0' <= c <= '9'
}

/// The number a decimal digit stands for.
pub open spec fn digit_value(c: char) -> nat
    recommends
        is_digit(c),
{
    (c as int - '0' as int) as nat
}

/// True when every character of `text` is a decimal digit.
pub open spec fn all_digits(text: Seq<char>) -> bool {
    forall|i: int| 0 <= i < text.len() ==> is_digit(#[trigger] text[i])
}

/// The number that a run of decimal digits denotes; leading zeros count for
/// nothing.
pub open spec fn decimal_value(digits: Seq<char>) -> nat
    decreases digits.len(),
{
    if digits.len() == 0 {
        0
    } else {
        decimal_value(digits.drop_last()) * 10 + digit_value(digits.last())
    }
}

/// The digits of an unsigned number: the text behind one optional plus sign.
pub open spec fn unsigned_digits(text: Seq<char>) -> Seq<char> {
    if text.len() > 0 && text[0] == '+' {
        text.drop_first()
    } else {
        text
    }
}

/// The unsigned number that `text` denotes, if it denotes one that does not
/// exceed `max`: an optional plus sign, then at least one decimal digit and
/// nothing else.
pub open spec fn parsed_unsigned(text: Seq<char>, max: nat) -> Option<nat> {
    let digits = unsigned_digits(text);
    if digits.len() > 0 && all_digits(digits) && decimal_value(digits) <= max {
        Some(decimal_value(digits))
    } else {
        None
    }
}

/// The fields of a text contain no separator, and joining them gives the
/// text back.
pub proof fn lemma_fields_partition(text: Seq<char>)
    ensures
        fields(text).len() >= 1,
        joined(fields(text)) == text,
        forall|k: int, i: int|
            0 <= k < fields(text).len() && 0 <= i < fields(text)[k].len() ==> fields(
                text,
            )[k][i] != separator(),
    decreases text.len(),
{
    if text.len() > 0 {
        let shorter = text.drop_last();
        let before = fields(shorter);
        lemma_fields_partition(shorter);
        if text.last() == separator() {
            assert(fields(text).drop_last() =~= before);
        } else {
            let grown = before.last().push(text.last());
            let after = before.drop_last().push(grown);
            assert(after.drop_last() =~= before.drop_last());
            if before.len() > 1 {
                assert(joined(before.drop_last()).push(separator()) + grown =~= (joined(
                    before.drop_last(),
                ).push(separator()) + before.last()).push(text.last()));
            }
        }
    }
}

/// Extending a run of digits never makes the number it denotes smaller.
pub proof fn lemma_decimal_value_grows(digits: Seq<char>, k: int)
    requires
        0 <= k <= digits.len(),
    ensures
        decimal_value(digits.take(k)) <= decimal_value(digits),
    decreases digits.len() - k,
{
    if k == digits.len() {
        assert(digits.take(k) =~= digits);
    } else {
        lemma_decimal_value_grows(digits.drop_last(), k);
        assert(digits.drop_last().take(k) =~= digits.take(k));
    }
}

/// Tells whether a character is whitespace.
pub fn is_whitespace_char(c: char) -> (yes: bool)
    ensures
        yes == is_whitespace(c),
{
    let code: u32 = c as u32;
    (0x09 <= code && code <= 0x0D) || code == 0x20 || code == 0x85 || code == 0xA0 || code
        == 0x1680 || (0x2000 <= code && code <= 0x200A) || code == 0x2028 || code == 0x2029
        || code == 0x202F || code == 0x205F || code == 0x3000
}

/// The number a character stands for as a decimal digit, if it is one.
pub fn decimal_digit(c: char) -> (digit: Option<u8>)
    ensures
        digit is Some <==> is_digit(c),
        digit matches Some(d) ==> d == digit_value(c),
{
    let code: u32 = c as u32;
    if 0x30 <= code && code <= 0x39 {
        Some((code - 0x30) as u8)
    } else {
        None
    }
}

/// Copies the characters of a string slice into a vector.
pub fn chars_of(text: &str) -> (chars: Vec<char>)
    ensures
        chars@ == text@,
{
    let mut chars: Vec<char> = Vec::new();
    for c in it: text.chars()
        invariant
            chars@ == it.seq().take(it.index()),
    {
        chars.push(c);
    }
    chars
}

/// Cuts `chars` at its separators. The result gives each field as the pair
/// of indices at which it starts and ends: the first field starts at the
/// start, each later one right behind the separator that ends the one before
/// it, and the last one ends at the end.
pub fn split_fields(chars: &Vec<char>) -> (ranges: Vec<(usize, usize)>)
    ensures
        ranges@.len() == fields(chars@).len(),
        forall|k: int|
            0 <= k < ranges@.len() ==> {
                &&& (#[trigger] ranges@[k]).0 <= ranges@[k].1 <= chars@.len()
                &&& chars@.subrange(ranges@[k].0 as int, ranges@[k].1 as int) == fields(chars@)[k]
            },
        ranges@[0].0 == 0,
        forall|k: int| 0 < k < ranges@.len() ==> (#[trigger] ranges@[k]).0 == ranges@[k - 1].1 + 1,
        ranges@.last().1 == chars@.len(),
{
    let mut ranges: Vec<(usize, usize)> = Vec::new();
    let mut start: usize = 0;
    let mut i: usize = 0;
    while i < chars.len()
        invariant
            start <= i <= chars@.len(),
            fields(chars@.take(i as int)).len() == ranges@.len() + 1,
            fields(chars@.take(i as int)).last() == chars@.subrange(start as int, i as int),
            forall|k: int|
                0 <= k < ranges@.len() ==> {
                    &&& (#[trigger] ranges@[k]).0 <= ranges@[k].1 <= chars@.len()
                    &&& chars@.subrange(ranges@[k].0 as int, ranges@[k].1 as int) == fields(
                        chars@.take(i as int),
                    )[k]
                },
            ranges@.len() == 0 ==> start == 0,
            ranges@.len() > 0 ==> ranges@[0].0 == 0 && start == ranges@.last().1 + 1,
            forall|k: int|
                0 < k < ranges@.len() ==> (#[trigger] ranges@[k]).0 == ranges@[k - 1].1 + 1,
        decreases chars@.len() - i,
    {
        proof {
            assert(chars@.take(i + 1).drop_last() =~= chars@.take(i as int));
        }
        if chars[i] == ',' {
            ranges.push((start, i));
            start = i + 1;
        } else {
            proof {
                assert(chars@.subrange(start as int, i + 1) =~= chars@.subrange(
                    start as int,
                    i as int,
                ).push(chars@[i as int]));
            }
        }
        i = i + 1;
    }
    proof {
        assert(chars@.take(i as int) =~= chars@);
    }
    ranges.push((start, i));
    ranges
}

/// Narrows the range `start..end` of `chars` to what is left of it once
/// leading and trailing whitespace are removed. A range of nothing but
/// whitespace narrows to the empty range at its end.
pub fn trim_range(chars: &Vec<char>, start: usize, end: usize) -> (range: (usize, usize))
    requires
        start <= end <= chars@.len(),
    ensures
        start <= range.0 <= range.1 <= end,
        chars@.subrange(range.0 as int, range.1 as int) == trimmed(
            chars@.subrange(start as int, end as int),
        ),
        forall|j: int| start <= j < range.0 ==> is_whitespace(#[trigger] chars@[j]),
        forall|j: int| range.1 <= j < end ==> is_whitespace(#[trigger] chars@[j]),
        range.0 < range.1 ==> !is_whitespace(chars@[range.0 as int]) && !is_whitespace(
            chars@[range.1 - 1],
        ),
        range.0 == range.1 ==> range.0 == end,
{
    let mut from: usize = start;
    while from < end && is_whitespace_char(chars[from])
        invariant
            start <= from <= end <= chars@.len(),
            trimmed_start(chars@.subrange(start as int, end as int)) == trimmed_start(
                chars@.subrange(from as int, end as int),
            ),
            forall|j: int| start <= j < from ==> is_whitespace(#[trigger] chars@[j]),
        decreases end - from,
    {
        proof {
            assert(chars@.subrange(from as int, end as int).drop_first() =~= chars@.subrange(
                from + 1,
                end as int,
            ));
        }
        from = from + 1;
    }
    let mut to: usize = end;
    while from < to && is_whitespace_char(chars[to - 1])
        invariant
            from <= to <= end <= chars@.len(),
            trimmed_end(chars@.subrange(from as int, end as int)) == trimmed_end(
                chars@.subrange(from as int, to as int),
            ),
            forall|j: int| to <= j < end ==> is_whitespace(#[trigger] chars@[j]),
            from < end ==> !is_whitespace(chars@[from as int]),
            from == end ==> to == end,
        decreases to - from,
    {
        proof {
            assert(chars@.subrange(from as int, to as int).drop_last() =~= chars@.subrange(
                from as int,
                to - 1,
            ));
        }
        to = to - 1;
    }
    (from, to)
}

/// Reads the range `start..end` of `chars` as an unsigned decimal number
/// that must not exceed `max`.
pub fn parse_unsigned_range(chars: &Vec<char>, start: usize, end: usize, max: u32) -> (number:
    Option<u32>)
    requires
        start <= end <= chars@.len(),
    ensures
        match parsed_unsigned(chars@.subrange(start as int, end as int), max as nat) {
            Some(n) => number == Some(n as u32),
            None => number is None,
        },
{
    let mut i: usize = start;
    if start < end && chars[start] == '+' {
        i = start + 1;
    }
    let first: usize = i;
    let ghost digits = chars@.subrange(first as int, end as int);
    if first == end {
        return None;
    }
    let mut value: u64 = 0;
    while i < end
        invariant
            first <= i <= end <= chars@.len(),
            digits == chars@.subrange(first as int, end as int),
            digits == unsigned_digits(chars@.subrange(start as int, end as int)),
            all_digits(digits.take(i - first)),
            value == decimal_value(digits.take(i - first)),
            value <= max,
        decreases end - i,
    {
        let c: char = chars[i];
        proof {
            assert(digits.take(i - first + 1).drop_last() =~= digits.take(i - first));
            assert(digits.take(i - first + 1).last() == c);
        }
        let digit: u8 = match decimal_digit(c) {
            Some(d) => d,
            None => {
                return None;
            },
        };
        let next: u64 = value * 10 + digit as u64;
        if next > max as u64 {
            proof {
                lemma_decimal_value_grows(digits, i - first + 1);
            }
            return None;
        }
        value = next;
        i = i + 1;
    }
    proof {
        assert(digits.take(i - first) =~= digits);
    }
    Some(value as u32)
}

} // verus!

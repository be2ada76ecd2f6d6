//! Reading a duration back from its text.
//!
//! The text is cut at each `:` into components: hours, minutes, seconds and
//! hundredths of a second. A component is a decimal number, digits with at
//! most one point among them; it is read to the hundredth. One that is
//! missing, or that is no such number, or whose value in hundredths does not
//! fit in 64 bits, counts as zero.

use vstd::prelude::*;
use crate::model::AudioInfo;
use crate::text::chars_of;

verus! {

/// Whether `c` is one of the ten decimal digits.
pub open spec fn is_digit(c: char) -> bool {
    48 <= c as u32 <= 57
}

/// The value of a decimal digit, zero for any other character.
pub open spec fn digit_value(c: char) -> nat {
    if is_digit(c) {
        (c as u32 - 48) as nat
    } else {
        0
    }
}

/// Whether every character of `s` is a decimal digit.
pub open spec fn all_digits(s: Seq<char>) -> bool {
    forall|i: int| 0 <= i < s.len() ==> is_digit(#[trigger] s[i])
}

/// The number that a sequence of digits writes in base ten, zero for the
/// empty sequence.
pub open spec fn decimal_value(s: Seq<char>) -> nat
    decreases s.len(),
{
    if s.len() == 0 {
        0
    } else {
        decimal_value(s.drop_last()) * 10 + digit_value(s.last())
    }
}

/// The place of the first `mark` in `s`, the length of `s` where there is
/// none.
pub open spec fn first_index(s: Seq<char>, mark: char) -> int
    decreases s.len(),
{
    if s.len() == 0 {
        0
    } else if s[0] == mark {
        0
    } else {
        1 + first_index(s.drop_first(), mark)
    }
}

/// The hundredths that the digits after a point stand for: the first two
/// count, the rest are dropped.
pub open spec fn fraction_hundredths(frac: Seq<char>) -> nat {
    if frac.len() == 0 {
        0
    } else if frac.len() == 1 {
        digit_value(frac[0]) * 10
    } else {
        digit_value(frac[0]) * 10 + digit_value(frac[1])
    }
}

/// The digits of a component before its point.
pub open spec fn whole_part(c: Seq<char>) -> Seq<char> {
    c.take(first_index(c, '.'))
}

/// The digits of a component after its point, none where it has no point.
pub open spec fn fraction_part(c: Seq<char>) -> Seq<char> {
    if first_index(c, '.') < c.len() {
        c.skip(first_index(c, '.') + 1)
    } else {
        Seq::<char>::empty()
    }
}

/// Whether a component is a decimal number: digits before and after at most
/// one point, with at least one digit.
pub open spec fn is_decimal(c: Seq<char>) -> bool {
    &&& all_digits(whole_part(c))
    &&& all_digits(fraction_part(c))
    &&& whole_part(c).len() + fraction_part(c).len() > 0
}

/// The value of a component in hundredths, zero where it is no decimal number
/// or the value does not fit in 64 bits.
pub open spec fn component_hundredths(c: Seq<char>) -> nat {
    let value = decimal_value(whole_part(c)) * 100 + fraction_hundredths(fraction_part(c));
    if is_decimal(c) && value <= u64::MAX {
        value
    } else {
        0
    }
}

/// Component `k` of a text cut at each `:`, if it has that many.
pub open spec fn component(s: Seq<char>, k: nat) -> Option<Seq<char>>
    decreases k,
{
    let cut = first_index(s, ':');
    if k == 0 {
        Some(s.take(cut))
    } else if cut >= s.len() {
        None
    } else {
        component(s.skip(cut + 1), (k - 1) as nat)
    }
}

/// The value of component `k` in hundredths, zero where it is missing.
pub open spec fn component_value(s: Seq<char>, k: nat) -> nat {
    match component(s, k) {
        Some(c) => component_hundredths(c),
        None => 0,
    }
}

/// The duration that a text stands for, in hundredths of a second: hours,
/// minutes and seconds from the first three components, and the fourth as
/// hundredths of a second, cut to a whole number of them.
pub open spec fn parsed_centis(s: Seq<char>) -> nat {
    component_value(s, 0) * 3_600 + component_value(s, 1) * 60 + component_value(s, 2)
        + component_value(s, 3) / 100
}

/// `first_index` is the one place before which no `mark` stands and at which
/// one does, or the length.
pub proof fn lemma_first_index(s: Seq<char>, mark: char, at: int)
    requires
        0 <= at <= s.len(),
        forall|i: int| 0 <= i < at ==> s[i] != mark,
        at < s.len() ==> s[at] == mark,
    ensures
        first_index(s, mark) == at,
    decreases s.len(),
{
    if s.len() > 0 && s[0] != mark {
        let rest = s.drop_first();
        assert forall|i: int| 0 <= i < at - 1 implies rest[i] != mark by {
            assert(rest[i] == s[i + 1]);
        }
        lemma_first_index(rest, mark, at - 1);
    }
}

/// A longer run of digits writes a number that is no smaller.
pub proof fn lemma_decimal_value_grows(s: Seq<char>, n: int)
    requires
        0 <= n <= s.len(),
    ensures
        decimal_value(s.take(n)) <= decimal_value(s),
    decreases s.len(),
{
    if n < s.len() {
        lemma_decimal_value_grows(s.drop_last(), n);
        assert(s.drop_last().take(n) =~= s.take(n));
    } else {
        assert(s.take(n) =~= s);
    }
}

fn digit_of(c: char) -> (d: Option<u8>)
    ensures
        d is Some <==> is_digit(c),
        d matches Some(v) ==> v == digit_value(c),
{
    let code: u32 = c as u32;
    if 48 <= code && code <= 57 {
        Some((code - 48) as u8)
    } else {
        None
    }
}

/// Where `first_index` is short of the length, a `mark` stands there.
pub proof fn lemma_first_index_is_mark(s: Seq<char>, mark: char)
    ensures
        0 <= first_index(s, mark) <= s.len(),
        first_index(s, mark) < s.len() ==> s[first_index(s, mark)] == mark,
        forall|i: int| 0 <= i < first_index(s, mark) ==> s[i] != mark,
    decreases s.len(),
{
    if s.len() > 0 && s[0] != mark {
        let rest = s.drop_first();
        lemma_first_index_is_mark(rest, mark);
        assert forall|i: int| 0 <= i < first_index(s, mark) implies s[i] != mark by {
            if i > 0 {
                assert(s[i] == rest[i - 1]);
            }
        }
    }
}

/// The place of the first `mark` among the characters from `start` up to
/// `end`, or `end`.
fn find_mark(chars: &Vec<char>, start: usize, end: usize, mark: char) -> (at: usize)
    requires
        start <= end <= chars.len(),
    ensures
        start <= at <= end,
        at - start == first_index(chars@.subrange(start as int, end as int), mark),
{
    let ghost c = chars@.subrange(start as int, end as int);
    let mut i: usize = start;
    while i < end && chars[i] != mark
        invariant
            start <= i <= end <= chars.len(),
            c == chars@.subrange(start as int, end as int),
            forall|j: int| 0 <= j < i - start ==> c[j] != mark,
        decreases end - i,
    {
        assert(c[i - start] == chars@[i as int]);
        i = i + 1;
    }
    proof {
        if i < end {
            assert(c[i - start] == chars@[i as int]);
        }
        lemma_first_index(c, mark, i - start);
    }
    i
}

/// The number that the characters from `start` up to `end` write, if they
/// are all digits and the number fits in 64 bits.
fn read_digits(chars: &Vec<char>, start: usize, end: usize) -> (number: Option<u64>)
    requires
        start <= end <= chars.len(),
    ensures
        number is Some <==> all_digits(chars@.subrange(start as int, end as int))
            && decimal_value(chars@.subrange(start as int, end as int)) <= u64::MAX,
        number matches Some(v) ==> v == decimal_value(chars@.subrange(start as int, end as int)),
{
    let ghost c = chars@.subrange(start as int, end as int);
    let mut i: usize = start;
    let mut value: u64 = 0;
    while i < end
        invariant
            start <= i <= end <= chars.len(),
            c == chars@.subrange(start as int, end as int),
            all_digits(c.take(i - start)),
            value == decimal_value(c.take(i - start)),
        decreases end - i,
    {
        let digit = digit_of(chars[i]);
        proof {
            assert(c[i - start] == chars@[i as int]);
            assert(c.take(i - start + 1).drop_last() =~= c.take(i - start));
            assert(c.take(i - start + 1).last() == c[i - start]);
        }
        match digit {
            None => {
                assert(!is_digit(c[i - start]));
                return None;
            },
            Some(d) => {
                if value > (u64::MAX - d as u64) / 10 {
                    proof {
                        lemma_decimal_value_grows(c, i - start + 1);
                    }
                    return None;
                }
                value = value * 10 + d as u64;
                assert forall|j: int| 0 <= j < i - start + 1 implies is_digit(
                    #[trigger] c.take(i - start + 1)[j],
                ) by {
                    if j < i - start {
                        assert(c.take(i - start + 1)[j] == c.take(i - start)[j]);
                    }
                }
            },
        }
        i = i + 1;
    }
    assert(c.take(i - start) =~= c);
    Some(value)
}

/// The hundredths that the characters from `start` up to `end` stand for
/// after a point, if they are all digits.
fn read_fraction(chars: &Vec<char>, start: usize, end: usize) -> (hundredths: Option<u8>)
    requires
        start <= end <= chars.len(),
    ensures
        hundredths is Some <==> all_digits(chars@.subrange(start as int, end as int)),
        hundredths matches Some(h) ==> h == fraction_hundredths(
            chars@.subrange(start as int, end as int),
        ),
{
    let ghost c = chars@.subrange(start as int, end as int);
    let mut i: usize = start;
    let mut first: u8 = 0;
    let mut second: u8 = 0;
    while i < end
        invariant
            start <= i <= end <= chars.len(),
            c == chars@.subrange(start as int, end as int),
            forall|j: int| 0 <= j < i - start ==> is_digit(#[trigger] c[j]),
            i - start >= 1 ==> first == digit_value(c[0]),
            i - start >= 2 ==> second == digit_value(c[1]),
            i == start ==> first == 0,
            i - start <= 1 ==> second == 0,
            first <= 9,
            second <= 9,
        decreases end - i,
    {
        let digit = digit_of(chars[i]);
        assert(c[i - start] == chars@[i as int]);
        match digit {
            None => {
                assert(!is_digit(c[i - start]));
                return None;
            },
            Some(d) => {
                if i == start {
                    first = d;
                } else if i - start == 1 {
                    second = d;
                }
            },
        }
        i = i + 1;
    }
    Some(first * 10 + second)
}

/// The value in hundredths of the component that `chars` holds from `start`
/// up to `end`.
fn parse_component(chars: &Vec<char>, start: usize, end: usize) -> (value: u64)
    requires
        start <= end <= chars.len(),
    ensures
        value == component_hundredths(chars@.subrange(start as int, end as int)),
{
    let ghost c = chars@.subrange(start as int, end as int);
    let dot: usize = find_mark(chars, start, end, '.');
    let fraction_start: usize = if dot < end {
        dot + 1
    } else {
        end
    };
    proof {
        assert(whole_part(c) =~= chars@.subrange(start as int, dot as int));
        assert(fraction_part(c) =~= chars@.subrange(fraction_start as int, end as int));
    }
    let whole = read_digits(chars, start, dot);
    let fraction = read_fraction(chars, fraction_start, end);
    if (dot - start) + (end - fraction_start) == 0 {
        return 0;
    }
    match (whole, fraction) {
        (Some(w), Some(f)) => {
            if w > (u64::MAX - f as u64) / 100 {
                0
            } else {
                w * 100 + f as u64
            }
        },
        _ => {
            proof {
                if all_digits(whole_part(c)) && all_digits(fraction_part(c)) {
                    assert(decimal_value(whole_part(c)) > u64::MAX);
                }
            }
            0
        },
    }
}

/// What is read from the characters after `start`: the value of the first
/// component there, and where the next one starts, if there is one.
fn next_component(chars: &Vec<char>, start: usize) -> (found: (u64, Option<usize>))
    requires
        start <= chars.len(),
    ensures
        found.0 == component_value(chars@.skip(start as int), 0),
        found.1 is Some <==> first_index(chars@.skip(start as int), ':') < chars.len() - start,
        found.1 matches Some(next) ==> next == start + first_index(
            chars@.skip(start as int),
            ':',
        ) + 1 && next <= chars.len(),
{
    let end: usize = chars.len();
    let colon: usize = find_mark(chars, start, end, ':');
    proof {
        assert(chars@.subrange(start as int, end as int) =~= chars@.skip(start as int));
        assert(chars@.skip(start as int).take(colon - start) =~= chars@.subrange(
            start as int,
            colon as int,
        ));
    }
    let value = parse_component(chars, start, colon);
    if colon < end {
        (value, Some(colon + 1))
    } else {
        (value, None)
    }
}

/// The value of component `k + 1` of a text is that of component `k` of what
/// follows its first `:`, and zero where it has no `:`.
pub proof fn lemma_component_after_colon(s: Seq<char>, k: nat)
    ensures
        first_index(s, ':') < s.len() ==> component_value(s, k + 1) == component_value(
            s.skip(first_index(s, ':') + 1),
            k,
        ),
        first_index(s, ':') >= s.len() ==> component_value(s, k + 1) == 0,
{
    reveal_with_fuel(component, 2);
}

/// The value of component `k` of what follows place `from` in `chars`, where
/// `from` is `None` once the text has run out.
spec fn value_from(chars: Seq<char>, from: Option<usize>, k: nat) -> nat {
    match from {
        Some(start) => component_value(chars.skip(start as int), k),
        None => 0,
    }
}

fn component_from(chars: &Vec<char>, from: Option<usize>) -> (found: (u64, Option<usize>))
    requires
        from matches Some(start) ==> start <= chars.len(),
    ensures
        found.0 == value_from(chars@, from, 0),
        forall|k: nat| value_from(chars@, found.1, k) == value_from(chars@, from, k + 1),
        found.1 matches Some(next) ==> next <= chars.len(),
{
    match from {
        None => (0, None),
        Some(start) => {
            let found = next_component(chars, start);
            proof {
                let rest = chars@.skip(start as int);
                assert forall|k: nat| value_from(chars@, found.1, k) == value_from(
                    chars@,
                    from,
                    k + 1,
                ) by {
                    lemma_component_after_colon(rest, k);
                    lemma_first_index_is_mark(rest, ':');
                    if let Some(next) = found.1 {
                        assert(rest.skip(first_index(rest, ':') + 1) =~= chars@.skip(next as int));
                    }
                }
            }
            found
        },
    }
}

impl AudioInfo {
    /// Reads a duration from its text, in hundredths of a second.
    pub fn parse_duration(duration: &str) -> (centis: u128)
        ensures
            centis == parsed_centis(duration@),
            centis <= 3_662 * u64::MAX,
    {
        let chars = chars_of(duration);
        assert(chars@.skip(0) =~= chars@);
        let (hours, after_hours) = component_from(&chars, Some(0));
        let (minutes, after_minutes) = component_from(&chars, after_hours);
        let (seconds, after_seconds) = component_from(&chars, after_minutes);
        let (hundredths, _) = component_from(&chars, after_seconds);
        proof {
            assert(value_from(chars@, after_hours, 0) == value_from(chars@, Some(0usize), 1));
            assert(value_from(chars@, after_hours, 1) == value_from(chars@, Some(0usize), 2));
            assert(value_from(chars@, after_hours, 2) == value_from(chars@, Some(0usize), 3));
            assert(value_from(chars@, after_minutes, 0) == value_from(chars@, after_hours, 1));
            assert(value_from(chars@, after_minutes, 1) == value_from(chars@, after_hours, 2));
            assert(value_from(chars@, after_seconds, 0) == value_from(chars@, after_minutes, 1));
        }
        hours as u128 * 3_600 + minutes as u128 * 60 + seconds as u128 + (hundredths / 100) as u128
    }
}

} // verus!

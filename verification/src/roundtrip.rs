//! Formatting and reading back: a formatted duration reads back as the
//! duration that was formatted, so formatting it again changes nothing.

use vstd::prelude::*;
use crate::duration::{duration_text, rounded_centis, total_centis};
use crate::model::AudioFileView;
use crate::parse::{all_digits, component, component_hundredths, decimal_value, digit_value, fraction_hundredths, fraction_part, is_decimal, is_digit, lemma_first_index, parsed_centis, whole_part};
use crate::text::{decimal_digits, digit_char, fixed_digits, two_digits};

verus! {

/// The character of a digit is a digit with that value.
pub proof fn lemma_digit_char(d: nat)
    requires
        d < 10,
    ensures
        is_digit(digit_char(d)),
        digit_value(digit_char(d)) == d,
        digit_char(d) != ':',
        digit_char(d) != '.',
{
}

/// The decimal digits of a number are digits, at least one, and write that
/// number.
pub proof fn lemma_decimal_digits(n: nat)
    ensures
        all_digits(decimal_digits(n)),
        decimal_digits(n).len() >= 1,
        n >= 10 ==> decimal_digits(n).len() >= 2,
        decimal_value(decimal_digits(n)) == n,
    decreases n,
{
    if n < 10 {
        lemma_digit_char(n);
        let s = decimal_digits(n);
        assert(s.drop_last() =~= Seq::<char>::empty());
        assert(decimal_value(s.drop_last()) == 0);
    } else {
        lemma_decimal_digits(n / 10);
        lemma_digit_char(n % 10);
        let s = decimal_digits(n);
        assert(s.drop_last() =~= decimal_digits(n / 10));
        assert(s.last() == digit_char(n % 10));
    }
}

/// The two digits of a number below a hundred are digits and write that
/// number.
pub proof fn lemma_two_fixed_digits(n: nat)
    requires
        n < 100,
    ensures
        fixed_digits(n, 2) == seq![digit_char(n / 10), digit_char(n % 10)],
        all_digits(fixed_digits(n, 2)),
        decimal_value(fixed_digits(n, 2)) == n,
{
    reveal_with_fuel(fixed_digits, 3);
    reveal_with_fuel(decimal_value, 3);
    lemma_digit_char(n / 10);
    lemma_digit_char(n % 10);
    let s = fixed_digits(n, 2);
    assert(s =~= seq![digit_char(n / 10), digit_char(n % 10)]);
    assert(s.drop_last() =~= seq![digit_char(n / 10)]);
    assert(s.drop_last().drop_last() =~= Seq::<char>::empty());
}

/// A number padded to two digits is written in digits, at least two, and
/// reads back as itself.
pub proof fn lemma_two_digits(n: nat)
    ensures
        all_digits(two_digits(n)),
        two_digits(n).len() >= 2,
        n < 100 ==> two_digits(n).len() == 2,
        n < 100 ==> two_digits(n) == fixed_digits(n, 2),
        decimal_value(two_digits(n)) == n,
{
    if n < 10 {
        lemma_two_fixed_digits(n);
    } else {
        lemma_decimal_digits(n);
        if n < 100 {
            lemma_two_fixed_digits(n);
            reveal_with_fuel(decimal_digits, 2);
            assert(decimal_digits(n) =~= seq![digit_char(n / 10), digit_char(n % 10)]);
        }
    }
}

/// A component of digits alone has their number as its value, in
/// hundredths.
pub proof fn lemma_whole_component(c: Seq<char>)
    requires
        all_digits(c),
        c.len() > 0,
        decimal_value(c) * 100 <= u64::MAX,
    ensures
        component_hundredths(c) == decimal_value(c) * 100,
{
    assert forall|i: int| 0 <= i < c.len() implies c[i] != '.' by {
        assert(is_digit(c[i]));
    }
    lemma_first_index(c, '.', c.len() as int);
    assert(whole_part(c) =~= c);
    assert(fraction_part(c) =~= Seq::<char>::empty());
}

/// A component of digits, a point and two digits has the number before the
/// point and the hundredths after it as its value.
pub proof fn lemma_fraction_component(whole: Seq<char>, hundredths: nat)
    requires
        all_digits(whole),
        whole.len() > 0,
        hundredths < 100,
        decimal_value(whole) * 100 + hundredths <= u64::MAX,
    ensures
        component_hundredths(whole + seq!['.'] + fixed_digits(hundredths, 2)) == decimal_value(
            whole,
        ) * 100 + hundredths,
{
    lemma_two_fixed_digits(hundredths);
    lemma_digit_char(hundredths / 10);
    lemma_digit_char(hundredths % 10);
    let frac = fixed_digits(hundredths, 2);
    let c = whole + seq!['.'] + frac;
    assert forall|i: int| 0 <= i < whole.len() implies c[i] != '.' by {
        assert(c[i] == whole[i]);
        assert(is_digit(whole[i]));
    }
    assert(c[whole.len() as int] == '.');
    lemma_first_index(c, '.', whole.len() as int);
    assert(whole_part(c) =~= whole);
    assert(fraction_part(c) =~= frac);
    assert(fraction_hundredths(frac) == hundredths);
    assert(is_decimal(c));
}

/// Where a text begins with a run without `:` that a `:` follows, its first
/// component is that run and its later components are those of what follows
/// the `:`.
pub proof fn lemma_component_split(head: Seq<char>, tail: Seq<char>, k: nat)
    requires
        forall|i: int| 0 <= i < head.len() ==> head[i] != ':',
    ensures
        component(head + seq![':'] + tail, 0) == Some(head),
        component(head + seq![':'] + tail, k + 1) == component(tail, k),
{
    let s = head + seq![':'] + tail;
    assert forall|i: int| 0 <= i < head.len() implies s[i] != ':' by {
        assert(s[i] == head[i]);
    }
    assert(s[head.len() as int] == ':');
    lemma_first_index(s, ':', head.len() as int);
    assert(s.take(head.len() as int) =~= head);
    assert(s.skip(head.len() as int + 1) =~= tail);
    reveal_with_fuel(component, 2);
}

/// A text without `:` is its own first component and has no other.
pub proof fn lemma_component_last(s: Seq<char>)
    requires
        forall|i: int| 0 <= i < s.len() ==> s[i] != ':',
    ensures
        component(s, 0) == Some(s),
        component(s, 1) == None::<Seq<char>>,
{
    lemma_first_index(s, ':', s.len() as int);
    assert(s.take(s.len() as int) =~= s);
    reveal_with_fuel(component, 2);
}

/// No digit is a `:`.
pub proof fn lemma_digits_hold_no_colon(s: Seq<char>)
    requires
        all_digits(s),
    ensures
        forall|i: int| 0 <= i < s.len() ==> s[i] != ':',
{
    assert forall|i: int| 0 <= i < s.len() implies s[i] != ':' by {
        assert(is_digit(s[i]));
    }
}

/// A text of hours, minutes, and seconds with two digits of hundredths reads
/// back as the numbers that its parts write.
pub proof fn lemma_parse_parts(
    hours: Seq<char>,
    minutes: Seq<char>,
    seconds: Seq<char>,
    hundredths: nat,
)
    requires
        all_digits(hours) && hours.len() > 0,
        all_digits(minutes) && minutes.len() > 0,
        all_digits(seconds) && seconds.len() > 0,
        hundredths < 100,
        decimal_value(hours) * 100 <= u64::MAX,
        decimal_value(minutes) * 100 <= u64::MAX,
        decimal_value(seconds) * 100 + hundredths <= u64::MAX,
    ensures
        parsed_centis(
            hours + seq![':'] + (minutes + seq![':'] + (seconds + seq!['.'] + fixed_digits(
                hundredths,
                2,
            ))),
        ) == decimal_value(hours) * 360_000 + decimal_value(minutes) * 6_000 + decimal_value(
            seconds,
        ) * 100 + hundredths,
{
    let last = seconds + seq!['.'] + fixed_digits(hundredths, 2);
    let after_hours = minutes + seq![':'] + last;
    let text = hours + seq![':'] + after_hours;
    lemma_two_fixed_digits(hundredths);
    lemma_digits_hold_no_colon(hours);
    lemma_digits_hold_no_colon(minutes);
    lemma_digits_hold_no_colon(seconds);
    lemma_digits_hold_no_colon(fixed_digits(hundredths, 2));
    assert forall|i: int| 0 <= i < last.len() implies last[i] != ':' by {
        if i < seconds.len() {
            assert(last[i] == seconds[i]);
        } else if i > seconds.len() {
            assert(last[i] == fixed_digits(hundredths, 2)[i - seconds.len() - 1]);
        }
    }
    lemma_component_split(hours, after_hours, 0);
    lemma_component_split(hours, after_hours, 1);
    lemma_component_split(hours, after_hours, 2);
    lemma_component_split(minutes, last, 0);
    lemma_component_split(minutes, last, 1);
    lemma_component_last(last);
    assert(component(text, 0) == Some(hours));
    assert(component(text, 1) == Some(minutes));
    assert(component(text, 2) == Some(last));
    assert(component(text, 3) == None::<Seq<char>>);
    lemma_whole_component(hours);
    lemma_whole_component(minutes);
    lemma_fraction_component(seconds, hundredths);
}

/// Reading back the text of a duration gives that duration, as long as its
/// hours, in hundredths, fit in 64 bits.
pub proof fn lemma_parse_inverts_format(centis: nat)
    requires
        centis / 360_000 * 100 <= u64::MAX,
    ensures
        parsed_centis(duration_text(centis)) == centis,
{
    reveal_strlit(":");
    reveal_strlit(".");
    let h = centis / 360_000;
    let m = (centis % 360_000) / 6_000;
    let s = (centis % 6_000) / 100;
    let c = centis % 100;
    assert(m < 100 && s < 100 && c < 100);
    assert(h * 360_000 + m * 6_000 + s * 100 + c == centis);
    lemma_two_digits(h);
    lemma_two_digits(m);
    lemma_two_digits(s);
    lemma_two_digits(c);
    assert(":"@ =~= seq![':']);
    assert("."@ =~= seq!['.']);
    lemma_parse_parts(two_digits(h), two_digits(m), two_digits(s), c);
    assert(duration_text(centis) =~= two_digits(h) + seq![':'] + (two_digits(m) + seq![':'] + (
    two_digits(s) + seq!['.'] + fixed_digits(c, 2))));
}

/// A duration of a whole number of hundredths of a second is formatted as it
/// is: nothing is rounded.
pub proof fn lemma_centis_are_exact(centis: nat)
    ensures
        rounded_centis(centis, 100) == centis,
{
    let rest = centis % 100;
    assert((200 * rest + 100) / 200 == rest);
    assert((centis / 100) * 100 + rest == centis);
}

/// Formatting is stable under reading back: the duration of a stream,
/// formatted, read back and formatted again, is the text of the first
/// formatting.
pub proof fn lemma_format_parse_format(total_samples: u64, sample_rate: u32)
    requires
        sample_rate > 0,
    ensures
        duration_text(
            rounded_centis(
                parsed_centis(
                    duration_text(rounded_centis(total_samples as nat, sample_rate as nat)),
                ),
                100,
            ),
        ) == duration_text(rounded_centis(total_samples as nat, sample_rate as nat)),
{
    let centis = rounded_centis(total_samples as nat, sample_rate as nat);
    let whole = total_samples as nat / sample_rate as nat;
    assert(whole <= total_samples) by (nonlinear_arith)
        requires
            whole == total_samples as nat / sample_rate as nat,
            sample_rate > 0,
    ;
    assert(centis <= whole * 100 + 99);
    assert(centis / 360_000 * 100 <= u64::MAX);
    lemma_parse_inverts_format(centis);
    lemma_centis_are_exact(centis);
}

/// The sum of two files whose durations are the texts of `a` and of `b`
/// hundredths of a second is formatted as `a + b` hundredths are.
pub proof fn lemma_add_two_durations(first: AudioFileView, second: AudioFileView, a: nat, b: nat)
    requires
        first.duration == duration_text(a),
        second.duration == duration_text(b),
        a / 360_000 * 100 <= u64::MAX,
        b / 360_000 * 100 <= u64::MAX,
    ensures
        duration_text(total_centis(seq![first, second])) == duration_text(a + b),
{
    lemma_parse_inverts_format(a);
    lemma_parse_inverts_format(b);
    let both = seq![first, second];
    assert(both.drop_last() =~= seq![first]);
    assert(both.drop_last().drop_last() =~= Seq::<AudioFileView>::empty());
    reveal_with_fuel(total_centis, 3);
}

} // verus!

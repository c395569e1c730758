//! What the reading, cutting and writing of texts promise.

use crate::text::{
    ascii_lowered, before, decimal_text, digits_value, first_place, has_prefix, is_digit,
    lemma_before, lemma_first_place_behind, number_in, split, trim_end, trim_start, trimmed,
    whitespace, without_char, without_prefix,
};
use vstd::prelude::*;

verus! {

/// Whether a character is one of the ten digits.
pub open spec fn among_digits(c: char) -> bool {
    seq!['0', '1', '2', '3', '4', '5', '6', '7', '8', '9'].contains(c)
}

proof fn lemma_among_digits(c: char)
    ensures
        among_digits(c) <==> 48 <= c as int <= 57,
{
    let s = seq!['0', '1', '2', '3', '4', '5', '6', '7', '8', '9'];
    if 48 <= c as int <= 57 {
        assert(s[c as int - 48] == c);
    }
}

proof fn lemma_decimal_digits(n: nat)
    ensures
        decimal_text(n).len() > 0,
        forall|i: int| 0 <= i < decimal_text(n).len() ==> is_digit(#[trigger] decimal_text(n)[i]),
        digits_value(decimal_text(n)) == n,
    decreases n,
{
    let digit = ('0' as u32 + (n % 10) as u32) as char;
    assert(digit as int == 48 + n % 10);
    if n < 10 {
        assert(decimal_text(n).drop_last() =~= seq![]);
        assert(digits_value(decimal_text(n)) == n) by {
            reveal_with_fuel(digits_value, 2);
        }
    } else {
        lemma_decimal_digits(n / 10);
        assert(decimal_text(n).drop_last() =~= decimal_text(n / 10));
    }
}

/// A text that begins with no plus sign is not changed by leaving one out.
proof fn lemma_no_plus(s: Seq<char>)
    requires
        s.len() == 0 || s[0] != '+',
    ensures
        without_prefix(s, seq!['+']) == s,
{
    if s.len() > 0 && s.take(1) == seq!['+'] {
        assert(s.take(1)[0] == '+');
    }
}

/// A number that is written in decimal is read back, with a plus sign in front of it
/// or without one, and is refused exactly where it is above the limit.
pub proof fn law_a_written_number_is_read_back(n: nat, max: int)
    ensures
        number_in(decimal_text(n), max) == (if n <= max {
            Some(n as int)
        } else {
            None
        }),
        number_in(seq!['+'] + decimal_text(n), max) == (if n <= max {
            Some(n as int)
        } else {
            None
        }),
{
    lemma_decimal_digits(n);
    let d = decimal_text(n);
    assert(is_digit(d[0]));
    lemma_no_plus(d);
    let p = seq!['+'] + d;
    assert(p.take(1) =~= seq!['+']);
    assert(p.skip(1) =~= d);
}

/// A further digit makes a number ten times as large and adds itself.
pub proof fn law_a_further_digit_makes_ten_times_as_much(s: Seq<char>, d: char, v: int, max: int)
    requires
        number_in(s, max) == Some(v),
        among_digits(d),
    ensures
        number_in(s.push(d), max) == (if 10 * v + (d as int - '0' as int) <= max {
            Some(10 * v + (d as int - '0' as int))
        } else {
            None
        }),
{
    lemma_among_digits(d);
    let digits = without_prefix(s, seq!['+']);
    let longer = without_prefix(s.push(d), seq!['+']);
    assert(s.len() > 0);
    assert(s.push(d).take(1) =~= s.take(1));
    assert(longer =~= digits.push(d));
    assert(longer.drop_last() =~= digits);
    assert forall|i: int| 0 <= i < longer.len() implies is_digit(#[trigger] longer[i]) by {
        if i < digits.len() {
            assert(longer[i] == digits[i]);
        }
    }
}

/// A text with anything else than digits behind an optional plus sign is no number,
/// and neither is one without a digit.
pub proof fn law_only_digits_are_a_number(s: Seq<char>, max: int, i: int)
    requires
        0 <= i < s.len(),
        !among_digits(s[i]),
        i > 0 || s[0] != '+',
    ensures
        number_in(s, max) is None,
        number_in(seq![], max) is None,
        number_in(seq!['+'], max) is None,
{
    lemma_among_digits(s[i]);
    let digits = without_prefix(s, seq!['+']);
    if has_prefix(s, seq!['+']) {
        assert(s.take(1)[0] == '+');
        assert(digits[i - 1] == s[i]);
    } else {
        assert(digits[i] == s[i]);
    }
    lemma_no_plus(seq![]);
    assert(seq!['+'].take(1) =~= seq!['+']);
    assert(seq!['+'].skip(1).len() == 0);
}

proof fn lemma_trim_start_all(a: Seq<char>, rest: Seq<char>)
    requires
        forall|i: int| 0 <= i < a.len() ==> whitespace(#[trigger] a[i]),
        rest.len() > 0 ==> !whitespace(rest[0]),
    ensures
        trim_start(a + rest) == rest,
    decreases a.len(),
{
    if a.len() > 0 {
        assert((a + rest)[0] == a[0]);
        assert((a + rest).skip(1) =~= a.skip(1) + rest);
        assert forall|i: int| 0 <= i < a.skip(1).len() implies whitespace(#[trigger] a.skip(1)[i]) by {
            assert(a.skip(1)[i] == a[i + 1]);
        }
        lemma_trim_start_all(a.skip(1), rest);
    } else {
        assert(a + rest =~= rest);
    }
}

proof fn lemma_trim_end_all(rest: Seq<char>, b: Seq<char>)
    requires
        forall|i: int| 0 <= i < b.len() ==> whitespace(#[trigger] b[i]),
        rest.len() > 0 ==> !whitespace(rest.last()),
    ensures
        trim_end(rest + b) == rest,
    decreases b.len(),
{
    if b.len() > 0 {
        assert((rest + b).last() == b.last());
        assert((rest + b).drop_last() =~= rest + b.drop_last());
        assert forall|i: int| 0 <= i < b.drop_last().len() implies whitespace(
            #[trigger] b.drop_last()[i],
        ) by {
            assert(b.drop_last()[i] == b[i]);
        }
        lemma_trim_end_all(rest, b.drop_last());
    } else {
        assert(rest + b =~= rest);
    }
}

/// Trimming takes off all the white space on both sides and nothing else.
pub proof fn law_trimming_takes_off_white_space(a: Seq<char>, core: Seq<char>, b: Seq<char>)
    requires
        forall|i: int| 0 <= i < a.len() ==> whitespace(#[trigger] a[i]),
        forall|i: int| 0 <= i < b.len() ==> whitespace(#[trigger] b[i]),
        core.len() > 0 ==> !whitespace(core[0]) && !whitespace(core.last()),
    ensures
        trimmed(a + core + b) == core,
{
    if core.len() > 0 {
        assert((core + b)[0] == core[0]);
        assert(a + core + b =~= a + (core + b));
        lemma_trim_start_all(a, core + b);
        lemma_trim_end_all(core, b);
    } else {
        let all = a + b;
        assert(a + core + b =~= all + core);
        assert forall|i: int| 0 <= i < all.len() implies whitespace(#[trigger] all[i]) by {
            if i < a.len() {
                assert(all[i] == a[i]);
            } else {
                assert(all[i] == b[i - a.len()]);
            }
        }
        lemma_trim_start_all(all, core);
        lemma_trim_end_all(core, seq![]);
        assert(core + seq![] =~= core);
    }
}

/// Lower case keeps the length and every character, but for the ASCII capital
/// letters, which become the letters 32 places behind them.
pub proof fn law_lower_case_changes_capitals_only(s: Seq<char>, i: int)
    requires
        0 <= i < s.len(),
    ensures
        ascii_lowered(s).len() == s.len(),
        65 <= s[i] as int <= 90 ==> ascii_lowered(s)[i] as int == s[i] as int + 32,
        !(65 <= s[i] as int <= 90) ==> ascii_lowered(s)[i] == s[i],
{
}

/// A text begins with another exactly where it is that other and something behind
/// it, and then that something is what is left without it.
pub proof fn law_a_prefix_is_what_a_text_begins_with(s: Seq<char>, prefix: Seq<char>, rest: Seq<char>)
    ensures
        has_prefix(s, prefix) <==> exists|r: Seq<char>| s == #[trigger] (prefix + r),
        without_prefix(prefix + rest, prefix) == rest,
        !has_prefix(s, prefix) ==> without_prefix(s, prefix) == s,
{
    if has_prefix(s, prefix) {
        assert(s =~= prefix + s.skip(prefix.len() as int));
    }
    if exists|r: Seq<char>| s == #[trigger] (prefix + r) {
        let r = choose|r: Seq<char>| s == #[trigger] (prefix + r);
        assert(s.take(prefix.len() as int) =~= prefix);
    }
    assert((prefix + rest).take(prefix.len() as int) =~= prefix);
    assert((prefix + rest).skip(prefix.len() as int) =~= rest);
}

/// Leaving a character out goes through a text part by part, keeps every other
/// character and drops that one.
pub proof fn law_leaving_a_character_out(a: Seq<char>, b: Seq<char>, x: char, c: char)
    ensures
        without_char(a + b, c) == without_char(a, c) + without_char(b, c),
        without_char(seq![x], c) == (if x == c {
            seq![]
        } else {
            seq![x]
        }),
    decreases b.len(),
{
    reveal_with_fuel(without_char, 2);
    assert(seq![x].drop_last() =~= seq![]);
    if b.len() == 0 {
        assert(a + b =~= a);
        assert(without_char(a, c) + without_char(b, c) =~= without_char(a, c));
    } else {
        assert((a + b).drop_last() =~= a + b.drop_last());
        law_leaving_a_character_out(a, b.drop_last(), x, c);
        assert(without_char(a + b, c) =~= without_char(a, c) + without_char(b, c));
    }
}

/// A text is split at each of the separating characters: into itself where it holds
/// none, and into the parts of both sides where it is joined of two by one.
pub proof fn law_a_text_is_split_at_each_separator(head: Seq<char>, c: char, tail: Seq<char>)
    ensures
        !head.contains(c) ==> split(head, c) == seq![head],
        split(head + seq![c] + tail, c) == split(head, c) + split(tail, c),
    decreases head.len(),
{
    let s = head + seq![c] + tail;
    let at = first_place(head, c);
    lemma_before(head, c);
    if !head.contains(c) {
        lemma_first_place_behind(head, c, tail);
        assert(split(head, c) =~= seq![head]);
    }
    if at < head.len() {
        let first = head.take(at);
        let rest = head.skip(at + 1);
        assert(head =~= first + seq![c] + rest);
        lemma_first_place_behind(first, c, rest + seq![c] + tail);
        assert(s =~= first + seq![c] + (rest + seq![c] + tail));
        assert(s.take(at) =~= first);
        assert(s.skip(at + 1) =~= rest + seq![c] + tail);
        law_a_text_is_split_at_each_separator(rest, c, tail);
        assert(split(s, c) =~= split(head, c) + split(tail, c));
    } else {
        assert(before(head, c) =~= head);
        lemma_first_place_behind(head, c, tail);
        assert(s.take(at) =~= head);
        assert(s.skip(at + 1) =~= tail);
        assert(split(s, c) =~= split(head, c) + split(tail, c));
    }
}

/// The decimal writing of a number begins with no zero, but for zero itself, and is
/// made of digits only.
pub proof fn law_a_number_is_written_in_digits(n: nat, i: int)
    requires
        0 <= i < decimal_text(n).len(),
    ensures
        among_digits(decimal_text(n)[i]),
        n > 0 ==> decimal_text(n)[0] != '0',
        n < 10 ==> decimal_text(n).len() == 1,
    decreases n,
{
    lemma_decimal_digits(n);
    lemma_among_digits(decimal_text(n)[i]);
    let digit = ('0' as u32 + (n % 10) as u32) as char;
    assert(digit as int == 48 + n % 10);
    if n >= 10 {
        lemma_decimal_digits(n / 10);
        law_a_number_is_written_in_digits(n / 10, 0);
        assert(decimal_text(n)[0] == decimal_text(n / 10)[0]);
    }
}

} // verus!

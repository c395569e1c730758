//! What the majority and the median of submissions are.

use crate::aggregate::{ascends, is_majority, median, occurrences, texts};
use crate::primitives::{u256_modulus, U256};
use vstd::prelude::*;

verus! {

/// A value occurs as often as it is left when all the others are taken out.
pub proof fn law_occurrences_are_what_is_left_of_a_value<T>(s: Seq<T>, x: T)
    ensures
        occurrences(s, x) == s.filter(|y: T| y == x).len(),
    decreases s.len(),
{
    reveal(Seq::filter);
    if s.len() > 0 {
        law_occurrences_are_what_is_left_of_a_value(s.drop_last(), x);
    }
}

/// A value is the majority exactly where more of the submissions are it than are not.
pub proof fn law_a_majority_is_more_than_all_the_others<T>(s: Seq<T>, x: T)
    ensures
        is_majority(s, x) <==> s.filter(|y: T| y == x).len() > s.filter(|y: T| y != x).len(),
{
    lemma_filter_shares(s, x);
    law_occurrences_are_what_is_left_of_a_value(s, x);
}

proof fn lemma_filter_shares<T>(s: Seq<T>, x: T)
    ensures
        s.filter(|y: T| y == x).len() + s.filter(|y: T| y != x).len() == s.len(),
    decreases s.len(),
{
    reveal(Seq::filter);
    if s.len() > 0 {
        lemma_filter_shares(s.drop_last(), x);
    }
}

/// Counting goes through a row part by part.
pub proof fn law_occurrences_add_up<T>(s: Seq<T>, t: Seq<T>, x: T)
    ensures
        occurrences(s + t, x) == occurrences(s, x) + occurrences(t, x),
        occurrences(seq![x], x) == 1,
    decreases t.len(),
{
    reveal_with_fuel(occurrences, 2);
    if t.len() == 0 {
        assert(s + t =~= s);
    } else {
        assert((s + t).drop_last() =~= s + t.drop_last());
        law_occurrences_add_up(s, t.drop_last(), x);
    }
}

/// A row of texts is read text by text.
pub proof fn law_texts_are_read_one_by_one(s: Seq<String>, i: int)
    requires
        0 <= i < s.len(),
    ensures
        texts(s).len() == s.len(),
        texts(s)[i] == s[i]@,
{
}

/// In an ascending row a later number is never smaller.
pub proof fn law_ascending_numbers_do_not_fall(s: Seq<U256>, i: int, j: int)
    requires
        ascends(s),
        0 <= i < j < s.len(),
    ensures
        s[i].value() <= s[j].value(),
{
}

/// The median of an odd count is the number with as many before it as behind it; that
/// of an even count is half of the sum of the two in the middle, cut down, and lies
/// between them, where the sum is below two to the power of 256, and half of what is
/// left above that power where it is not.
pub proof fn law_the_median_stands_in_the_middle(s: Seq<U256>, half: int)
    requires
        half >= 0,
    ensures
        s.len() == 2 * half + 1 ==> median(s) == s[half].value(),
        s.len() == 2 * half && half > 0 ==> ({
            let low = s[half - 1].value();
            let high = s[half].value();
            &&& low + high < u256_modulus() ==> 2 * median(s) <= low + high <= 2 * median(s) + 1
            &&& low + high < u256_modulus() && low <= high ==> low <= median(s) <= high
            &&& u256_modulus() <= low + high < 2 * u256_modulus() ==> 2 * median(s) <= low + high
                - u256_modulus() <= 2 * median(s) + 1
        }),
        u256_modulus()
            == 115792089237316195423570985008687907853269984665640564039457584007913129639936nat,
{
    if s.len() == 2 * half && half > 0 {
        let sum = s[half - 1].value() + s[half].value();
        let m = u256_modulus();
        if sum < m {
            assert(sum % m == sum);
        } else if sum < 2 * m {
            assert((sum - m) % m as int == sum - m);
            assert(sum % m == sum - m) by {
                vstd::arithmetic::div_mod::lemma_mod_add_multiples_vanish(sum - m, m as int);
            }
        }
    }
}

/// Where all the numbers are one, it is the median; in an even count it keeps clear of
/// the upper half of the 256-bit range.
pub proof fn law_agreement_is_the_median(s: Seq<U256>, n: nat)
    requires
        s.len() > 0,
        forall|i: int| 0 <= i < s.len() ==> (#[trigger] s[i]).value() == n,
        s.len() % 2 == 0 ==> 2 * n < u256_modulus(),
    ensures
        median(s) == n,
{
    let mid = s.len() as int / 2;
    assert(s[mid].value() == n);
    if s.len() % 2 == 0 {
        assert(s[mid - 1].value() == n);
        assert((2 * n) % u256_modulus() == 2 * n);
    }
}

} // verus!

//! One value out of what several validators submitted: the median of numbers and
//! the majority of texts and truth values.

use crate::primitives::{u256_modulus, U256};
use vstd::prelude::*;

verus! {

/// How often `x` stands in `s`.
pub open spec fn occurrences<T>(s: Seq<T>, x: T) -> nat
    decreases s.len(),
{
    if s.len() == 0 {
        0
    } else {
        occurrences(s.drop_last(), x) + if s.last() == x {
            1nat
        } else {
            0nat
        }
    }
}

/// Whether more than half of `s` is `x`.
pub open spec fn is_majority<T>(s: Seq<T>, x: T) -> bool {
    2 * occurrences(s, x) > s.len()
}

/// What a row of strings says.
pub open spec fn texts(s: Seq<String>) -> Seq<Seq<char>> {
    s.map_values(|t: String| t@)
}

proof fn lemma_occurrences_share<T>(s: Seq<T>, x: T, y: T)
    requires
        x != y,
    ensures
        occurrences(s, x) + occurrences(s, y) <= s.len(),
    decreases s.len(),
{
    if s.len() > 0 {
        lemma_occurrences_share(s.drop_last(), x, y);
    }
}

proof fn lemma_occurrences_found<T>(s: Seq<T>, x: T)
    requires
        occurrences(s, x) > 0,
    ensures
        exists|i: int| 0 <= i < s.len() && s[i] == x,
    decreases s.len(),
{
    if s.last() == x {
        assert(s[s.len() - 1] == x);
    } else {
        lemma_occurrences_found(s.drop_last(), x);
        let i = choose|i: int| 0 <= i < s.drop_last().len() && s.drop_last()[i] == x;
        assert(s[i] == x);
    }
}

/// There is at most one majority.
pub proof fn law_majority_is_unique<T>(s: Seq<T>, x: T, y: T)
    requires
        is_majority(s, x),
        is_majority(s, y),
    ensures
        x == y,
{
    if x != y {
        lemma_occurrences_share(s, x, y);
    }
}

/// The truth value that more than half of the submissions agree on.
pub fn compute_majority_bool(values: &[bool]) -> (r: Option<bool>)
    ensures
        match r {
            Some(b) => is_majority(values@, b),
            None => forall|b: bool| !is_majority(values@, b),
        },
{
    let n: usize = values.len();
    let mut true_count: usize = 0;
    let mut i: usize = 0;
    while i < n
        invariant
            i <= n,
            n == values@.len(),
            true_count <= i,
            true_count == occurrences(values@.take(i as int), true),
            i - true_count == occurrences(values@.take(i as int), false),
        decreases n - i,
    {
        assert(values@.take(i + 1).drop_last() =~= values@.take(i as int));
        if values[i] {
            true_count = true_count + 1;
        }
        i = i + 1;
    }
    assert(values@.take(n as int) =~= values@);
    let threshold: usize = n / 2;
    if true_count > threshold {
        Some(true)
    } else if n - true_count > threshold {
        Some(false)
    } else {
        None
    }
}

/// How often a text stands among the values.
fn count_text(values: &[String], text: &String) -> (r: usize)
    ensures
        r == occurrences(texts(values@), text@),
        r <= values@.len(),
{
    let n: usize = values.len();
    let mut count: usize = 0;
    let mut i: usize = 0;
    while i < n
        invariant
            i <= n,
            n == values@.len(),
            count <= i,
            count == occurrences(texts(values@).take(i as int), text@),
        decreases n - i,
    {
        assert(texts(values@).take(i + 1).drop_last() =~= texts(values@).take(i as int));
        if values[i] == *text {
            count = count + 1;
        }
        i = i + 1;
    }
    assert(texts(values@).take(n as int) =~= texts(values@));
    count
}

/// The text that more than half of the submissions agree on.
pub fn compute_majority_string(values: &[String]) -> (r: Option<String>)
    ensures
        match r {
            Some(s) => is_majority(texts(values@), s@),
            None => forall|s: Seq<char>| !is_majority(texts(values@), s),
        },
{
    let n: usize = values.len();
    let threshold: usize = n / 2;
    let mut i: usize = 0;
    while i < n
        invariant
            i <= n,
            n == values@.len(),
            threshold == n / 2,
            forall|j: int| 0 <= j < i ==> !is_majority(texts(values@), #[trigger] texts(values@)[j]),
        decreases n - i,
    {
        let count = count_text(values, &values[i]);
        if count > threshold {
            return Some(values[i].clone());
        }
        assert(texts(values@)[i as int] == values@[i as int]@);
        i = i + 1;
    }
    assert forall|s: Seq<char>| !is_majority(texts(values@), s) by {
        if is_majority(texts(values@), s) {
            lemma_occurrences_found(texts(values@), s);
        }
    }
    None
}

/// Whether a row of numbers ascends.
pub open spec fn ascends(s: Seq<U256>) -> bool {
    forall|i: int, j: int| 0 <= i <= j < s.len() ==> s[i].value() <= s[j].value()
}

/// The median of an ascending row: the middle number, or half of the sum of the
/// middle two, where the sum wraps around at the end of the 256-bit range.
pub open spec fn median(s: Seq<U256>) -> nat
    recommends
        s.len() > 0,
{
    let mid = s.len() as int / 2;
    if s.len() % 2 == 0 {
        (((s[mid - 1].value() + s[mid].value()) % u256_modulus()) / 2) as nat
    } else {
        s[mid].value()
    }
}

/// Sorts the submitted numbers, and gives their median.
pub fn compute_median_uint256(values: &mut Vec<U256>) -> (r: Option<U256>)
    ensures
        ascends(final(values)@),
        final(values)@.to_multiset() == old(values)@.to_multiset(),
        match r {
            Some(m) => final(values)@.len() > 0 && m.value() == median(final(values)@),
            None => final(values)@.len() == 0,
        },
{
    sort(values);
    let len: usize = values.len();
    if len == 0 {
        return None;
    }
    if len % 2 == 0 {
        let sum = values[len / 2 - 1].plus(values[len / 2]);
        Some(sum.divided_by(U256::from_u64(2)))
    } else {
        Some(values[len / 2])
    }
}

/// Sorts numbers into ascending order.
fn sort(values: &mut Vec<U256>)
    ensures
        ascends(final(values)@),
        final(values)@.to_multiset() == old(values)@.to_multiset(),
{
    broadcast use vstd::seq_lib::group_to_multiset_ensures;

    let mut sorted: Vec<U256> = Vec::new();
    let n: usize = values.len();
    let mut i: usize = 0;
    assert(values@.take(0) =~= sorted@);
    while i < n
        invariant
            i <= n,
            n == values@.len(),
            values@ == old(values)@,
            sorted@.len() == i,
            ascends(sorted@),
            sorted@.to_multiset() == values@.take(i as int).to_multiset(),
        decreases n - i,
    {
        let x = values[i];
        let mut at: usize = 0;
        while at < i
            invariant_except_break
                at <= i,
            invariant
                i == sorted@.len(),
                ascends(sorted@),
                forall|j: int| 0 <= j < at ==> sorted@[j].value() <= x.value(),
            ensures
                at <= i,
                at < i ==> x.value() < sorted@[at as int].value(),
            decreases i - at,
        {
            if x.less(sorted[at]) {
                break;
            }
            at = at + 1;
        }
        let ghost before = sorted@;
        sorted.insert(at, x);
        proof {
            vstd::seq_lib::to_multiset_insert(before, at as int, x);
            vstd::seq_lib::to_multiset_build(values@.take(i as int), x);
            assert(values@.take(i + 1) =~= values@.take(i as int).push(x));
            assert forall|a: int, b: int| 0 <= a <= b < sorted@.len() implies sorted@[a].value()
                <= sorted@[b].value() by {
                let a0 = if a < at {
                    a
                } else {
                    a - 1
                };
                let b0 = if b < at {
                    b
                } else {
                    b - 1
                };
                if a != at && b != at {
                    assert(before[a0].value() <= before[b0].value());
                } else if a == at && b != at {
                    assert(before[at as int].value() <= before[b0].value());
                }
            }
        }
        i = i + 1;
    }
    assert(values@.take(n as int) =~= values@);
    *values = sorted;
}

/// How many numbers of `s` lie between `lo` and `hi`.
pub open spec fn count_within(s: Seq<U256>, lo: nat, hi: nat) -> nat
    decreases s.len(),
{
    if s.len() == 0 {
        0
    } else {
        count_within(s.drop_last(), lo, hi) + if lo <= s.last().value() <= hi {
            1nat
        } else {
            0nat
        }
    }
}

proof fn lemma_count_within_below(s: Seq<U256>, lo: nat, hi: nat, n: int)
    requires
        0 <= n <= s.len(),
        forall|i: int| 0 <= i < n ==> s[i].value() < lo,
    ensures
        count_within(s, lo, hi) <= s.len() - n,
    decreases s.len(),
{
    if s.len() > 0 {
        if n == s.len() {
            assert(s.last().value() < lo);
            lemma_count_within_below(s.drop_last(), lo, hi, n - 1);
        } else {
            lemma_count_within_below(s.drop_last(), lo, hi, n);
        }
    }
}

proof fn lemma_count_within_above(s: Seq<U256>, lo: nat, hi: nat, from: int)
    requires
        0 <= from <= s.len(),
        forall|i: int| from <= i < s.len() ==> s[i].value() > hi,
    ensures
        count_within(s, lo, hi) <= from,
    decreases s.len(),
{
    if s.len() > 0 {
        if from == s.len() {
            lemma_count_within_above(s.drop_last(), lo, hi, from - 1);
        } else {
            assert(s.last().value() > hi);
            lemma_count_within_above(s.drop_last(), lo, hi, from);
        }
    }
}

/// Liars in the minority cannot move the median: where more than half of the
/// numbers lie between two bounds, so does the median. Where their count is even,
/// the bounds keep clear of the upper half of the 256-bit range, in which a sum of
/// two wraps around.
pub proof fn law_median_resists_a_minority(s: Seq<U256>, lo: nat, hi: nat)
    requires
        ascends(s),
        2 * count_within(s, lo, hi) > s.len(),
        s.len() % 2 == 0 ==> 2 * hi < u256_modulus(),
    ensures
        lo <= median(s) <= hi,
{
    let n = s.len() as int;
    let mid = n / 2;
    if n == 0 {
        assert(count_within(s, lo, hi) == 0);
    }
    if s[mid].value() < lo {
        lemma_count_within_below(s, lo, hi, mid + 1);
    }
    if s[mid].value() > hi {
        lemma_count_within_above(s, lo, hi, mid);
    }
    if n % 2 == 0 {
        if s[mid - 1].value() < lo {
            lemma_count_within_below(s, lo, hi, mid);
        }
        if s[mid - 1].value() > hi {
            lemma_count_within_above(s, lo, hi, mid - 1);
        }
    }
}

} // verus!

//! Numbers as big-endian bytes, bytes as hexadecimal text, and the hash that
//! binds them.

use crate::primitives::{Address, B256};
use vstd::prelude::*;

verus! {

/// The number that a row of bytes writes, most significant byte first.
pub open spec fn be_value(s: Seq<u8>) -> nat
    decreases s.len(),
{
    if s.len() == 0 {
        0
    } else {
        256 * be_value(s.drop_last()) + s.last() as nat
    }
}

/// A number as bytes, most significant first, with no leading zero byte.
pub open spec fn be_trimmed(n: nat) -> Seq<u8>
    decreases n,
{
    if n == 0 {
        seq![]
    } else {
        be_trimmed(n / 256).push((n % 256) as u8)
    }
}

/// A 64-bit number as eight bytes, most significant first.
pub open spec fn be_bytes(n: u64) -> Seq<u8> {
    seq![
        (n / 0x100_0000_0000_0000) as u8,
        ((n / 0x1_0000_0000_0000) % 256) as u8,
        ((n / 0x100_0000_0000) % 256) as u8,
        ((n / 0x1_0000_0000) % 256) as u8,
        ((n / 0x100_0000) % 256) as u8,
        ((n / 0x1_0000) % 256) as u8,
        ((n / 0x100) % 256) as u8,
        (n % 256) as u8,
    ]
}

/// Writes a 64-bit number as eight bytes, most significant first.
pub fn to_be_bytes(n: u64) -> (r: Vec<u8>)
    ensures
        r@ == be_bytes(n),
{
    let mut out: Vec<u8> = Vec::new();
    out.push((n / 0x100_0000_0000_0000) as u8);
    out.push(((n / 0x1_0000_0000_0000) % 256) as u8);
    out.push(((n / 0x100_0000_0000) % 256) as u8);
    out.push(((n / 0x1_0000_0000) % 256) as u8);
    out.push(((n / 0x100_0000) % 256) as u8);
    out.push(((n / 0x1_0000) % 256) as u8);
    out.push(((n / 0x100) % 256) as u8);
    out.push((n % 256) as u8);
    assert(out@ =~= be_bytes(n));
    out
}

/// Reads the first eight bytes of a word as a number, most significant first.
pub fn leading_u64(word: &B256) -> (r: u64)
    ensures
        r as nat == be_value(word@.take(8)),
{
    let mut value: u64 = 0;
    let mut i: usize = 0;
    assert(word@.take(0) =~= seq![]);
    while i < 8
        invariant
            i <= 8,
            value as nat == be_value(word@.take(i as int)),
            i == 0 ==> value < 1,
            i == 1 ==> value < 0x100,
            i == 2 ==> value < 0x1_0000,
            i == 3 ==> value < 0x100_0000,
            i == 4 ==> value < 0x1_0000_0000,
            i == 5 ==> value < 0x100_0000_0000,
            i == 6 ==> value < 0x1_0000_0000_0000,
            i == 7 ==> value < 0x100_0000_0000_0000,
        decreases 8 - i,
    {
        assert(word@.take(i + 1).drop_last() =~= word@.take(i as int));
        value = value * 256 + word.0[i] as u64;
        i = i + 1;
    }
    value
}

/// Eight bytes give the number back that they were written from.
pub proof fn lemma_be_bytes_value(n: u64)
    ensures
        be_bytes(n).len() == 8,
        be_value(be_bytes(n)) == n,
{
    let s = be_bytes(n);
    assert(s.take(0) =~= seq![]);
    lemma_be_value_step(s, 0);
    assert(be_value(s.take(1)) == n / 0x100_0000_0000_0000);
    lemma_be_value_step(s, 1);
    assert(n / 0x1_0000_0000_0000 == 256 * (n / 0x100_0000_0000_0000) + (n / 0x1_0000_0000_0000) % 256);
    assert(be_value(s.take(2)) == n / 0x1_0000_0000_0000);
    lemma_be_value_step(s, 2);
    assert(n / 0x100_0000_0000 == 256 * (n / 0x1_0000_0000_0000) + (n / 0x100_0000_0000) % 256);
    assert(be_value(s.take(3)) == n / 0x100_0000_0000);
    lemma_be_value_step(s, 3);
    assert(n / 0x1_0000_0000 == 256 * (n / 0x100_0000_0000) + (n / 0x1_0000_0000) % 256);
    assert(be_value(s.take(4)) == n / 0x1_0000_0000);
    lemma_be_value_step(s, 4);
    assert(n / 0x100_0000 == 256 * (n / 0x1_0000_0000) + (n / 0x100_0000) % 256);
    assert(be_value(s.take(5)) == n / 0x100_0000);
    lemma_be_value_step(s, 5);
    assert(n / 0x1_0000 == 256 * (n / 0x100_0000) + (n / 0x1_0000) % 256);
    assert(be_value(s.take(6)) == n / 0x1_0000);
    lemma_be_value_step(s, 6);
    assert(n / 0x100 == 256 * (n / 0x1_0000) + (n / 0x100) % 256);
    assert(be_value(s.take(7)) == n / 0x100);
    lemma_be_value_step(s, 7);
    assert(s.take(8) =~= s);
}

proof fn lemma_be_value_step(s: Seq<u8>, i: int)
    requires
        0 <= i < s.len(),
    ensures
        be_value(s.take(i + 1)) == 256 * be_value(s.take(i)) + s[i] as nat,
{
    assert(s.take(i + 1).drop_last() =~= s.take(i));
}

/// Trimmed bytes give the number back that they were written from, and begin
/// with no zero.
pub proof fn lemma_be_trimmed_value(n: nat)
    ensures
        be_value(be_trimmed(n)) == n,
        n > 0 ==> be_trimmed(n).len() > 0 && be_trimmed(n)[0] != 0,
    decreases n,
{
    if n > 0 {
        lemma_be_trimmed_value(n / 256);
        assert(be_trimmed(n).drop_last() =~= be_trimmed(n / 256));
    }
}

/// A number below a power of 256 needs no more bytes than the power.
pub proof fn lemma_be_trimmed_len(n: nat)
    ensures
        n < 0x100 ==> be_trimmed(n).len() <= 1,
        n < 0x1_0000_0000_0000_0000 ==> be_trimmed(n).len() <= 8,
{
    reveal_with_fuel(be_trimmed, 9);
}

/// Names the Keccak-256 hash of a row of bytes.
pub uninterp spec fn keccak(data: Seq<u8>) -> Seq<u8>;

/// Calls `alloy_primitives::keccak256`, the Keccak-256 hash.
#[verifier::external_body]
pub(crate) fn keccak256(data: &[u8]) -> (r: B256)
    ensures
        r@ == keccak(data@),
{
    B256(alloy_primitives::keccak256(data).0)
}

/// The lower-case hexadecimal digit of a number below sixteen.
pub open spec fn hex_digit(n: int) -> char {
    if n < 10 {
        ('0' as u32 + n as u32) as char
    } else {
        ('a' as u32 + (n - 10) as u32) as char
    }
}

/// Bytes as lower-case hexadecimal text, two digits each.
pub open spec fn hex_text(s: Seq<u8>) -> Seq<char>
    decreases s.len(),
{
    if s.len() == 0 {
        seq![]
    } else {
        hex_text(s.drop_last()).push(hex_digit(s.last() as int / 16)).push(
            hex_digit(s.last() as int % 16),
        )
    }
}

/// Formats an address with the `Debug` of `alloy_primitives::Address`: `0x` and
/// the twenty bytes in lower-case hexadecimal.
#[verifier::external_body]
pub(crate) fn address_text(a: &Address) -> (r: String)
    ensures
        r@ == "0x"@ + hex_text(a@),
{
    format!("{:?}", alloy_primitives::Address::new(a.0))
}

} // verus!

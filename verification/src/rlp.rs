//! Recursive-length-prefix items: the bytes of a word, an address, a number, a
//! list of bytes and a list's header.

use crate::bytes::{be_trimmed, lemma_be_trimmed_len, lemma_be_trimmed_value};
use crate::primitives::{Address, B256};
use vstd::prelude::*;

verus! {

/// The header of a list whose items take `n` bytes.
pub open spec fn list_header(n: nat) -> Seq<u8> {
    if n < 56 {
        seq![(0xc0 + n) as u8]
    } else {
        seq![(0xf7 + be_trimmed(n).len()) as u8] + be_trimmed(n)
    }
}

/// A list whose items take the bytes `items`.
pub open spec fn list_item(items: Seq<u8>) -> Seq<u8> {
    list_header(items.len()) + items
}

/// A 32-byte string.
pub open spec fn word_item(word: Seq<u8>) -> Seq<u8> {
    seq![0xa0u8] + word
}

/// A 20-byte string.
pub open spec fn address_item(address: Seq<u8>) -> Seq<u8> {
    seq![0x94u8] + address
}

/// An unsigned number: the empty string for zero, itself below 128, else its
/// bytes without leading zeros as a string.
pub open spec fn number_item(n: nat) -> Seq<u8> {
    if n == 0 {
        seq![0x80u8]
    } else if n < 0x80 {
        seq![n as u8]
    } else {
        seq![(0x80 + be_trimmed(n).len()) as u8] + be_trimmed(n)
    }
}

/// A row of bytes, each as a number of its own.
pub open spec fn byte_items(s: Seq<u8>) -> Seq<u8>
    decreases s.len(),
{
    if s.len() == 0 {
        seq![]
    } else {
        number_item(s[0] as nat) + byte_items(s.skip(1))
    }
}

/// A list of bytes.
pub open spec fn byte_list_item(s: Seq<u8>) -> Seq<u8> {
    list_item(byte_items(s))
}

/// Encodes with `alloy_rlp::Header::encode` the header of a list whose items
/// take `n` bytes.
#[verifier::external_body]
pub(crate) fn encode_list_header(n: usize) -> (r: Vec<u8>)
    ensures
        r@ == list_header(n as nat),
{
    let mut out: Vec<u8> = Vec::new();
    alloy_rlp::Header { list: true, payload_length: n }.encode(&mut out);
    out
}

/// Encodes a word with `alloy_rlp::Encodable` of `alloy_primitives::B256`: a
/// string of 32 bytes.
#[verifier::external_body]
pub(crate) fn encode_word(word: &B256) -> (r: Vec<u8>)
    ensures
        r@ == word_item(word@),
{
    alloy_rlp::encode(alloy_primitives::B256::from(word.0))
}

/// Encodes an address with `alloy_rlp::Encodable` of
/// `alloy_primitives::Address`: a string of 20 bytes.
#[verifier::external_body]
pub(crate) fn encode_address(address: &Address) -> (r: Vec<u8>)
    ensures
        r@ == address_item(address@),
{
    alloy_rlp::encode(alloy_primitives::Address::from(address.0))
}

/// Encodes a byte with `alloy_rlp::Encodable` of `u8`: the number's item.
#[verifier::external_body]
pub(crate) fn encode_u8(n: u8) -> (r: Vec<u8>)
    ensures
        r@ == number_item(n as nat),
{
    alloy_rlp::encode(n)
}

/// Encodes a number with `alloy_rlp::Encodable` of `u64`: the number's item.
#[verifier::external_body]
pub(crate) fn encode_u64(n: u64) -> (r: Vec<u8>)
    ensures
        r@ == number_item(n as nat),
{
    alloy_rlp::encode(n)
}

/// Encodes bytes with `alloy_rlp::Encodable` of `Vec<u8>`, which takes them as a
/// list of numbers.
#[verifier::external_body]
pub(crate) fn encode_byte_list(s: &Vec<u8>) -> (r: Vec<u8>)
    ensures
        r@ == byte_list_item(s@),
{
    alloy_rlp::encode(s)
}

/// Decodes a header with `alloy_rlp::Header::decode`. A list's header is taken in
/// its one shortest form only, and only where as many bytes follow as it announces.
/// Gives whether the header is that of a list, the announced length and what follows
/// the header; `None` for an error. Of the header of a string it is only said that
/// it is no list's.
#[verifier::external_body]
pub(crate) fn decode_header(buf: &[u8]) -> (r: Option<(bool, usize, &[u8])>)
    ensures
        r matches Some((true, n, rest)) ==> n <= rest@.len() && buf@ == list_header(n as nat)
            + rest@,
        !(r matches Some((true, _, _))) ==> forall|n: nat, rest: Seq<u8>|
            n <= rest.len() ==> buf@ != #[trigger] (list_header(n) + rest),
{
    let mut rest = buf;
    let header = alloy_rlp::Header::decode(&mut rest).ok()?;
    Some((header.list, header.payload_length, rest))
}

/// Decodes a word with `alloy_rlp::Decodable` of `alloy_primitives::B256`, which
/// takes exactly what the encoding of a word gives. Gives the word and what
/// follows it; `None` for an error.
#[verifier::external_body]
pub(crate) fn decode_word(buf: &[u8]) -> (r: Option<(B256, &[u8])>)
    ensures
        match r {
            Some((word, rest)) => buf@ == word_item(word@) + rest@,
            None => forall|word: Seq<u8>, rest: Seq<u8>|
                word.len() == 32 ==> buf@ != #[trigger] (word_item(word) + rest),
        },
{
    let mut rest = buf;
    let word: alloy_primitives::B256 = alloy_rlp::Decodable::decode(&mut rest).ok()?;
    Some((B256(word.0), rest))
}

/// Decodes an address with `alloy_rlp::Decodable` of `alloy_primitives::Address`,
/// which takes exactly what the encoding of an address gives. Gives the address
/// and what follows it; `None` for an error.
#[verifier::external_body]
pub(crate) fn decode_address(buf: &[u8]) -> (r: Option<(Address, &[u8])>)
    ensures
        match r {
            Some((address, rest)) => buf@ == address_item(address@) + rest@,
            None => forall|address: Seq<u8>, rest: Seq<u8>|
                address.len() == 20 ==> buf@ != #[trigger] (address_item(address) + rest),
        },
{
    let mut rest = buf;
    let address: alloy_primitives::Address = alloy_rlp::Decodable::decode(&mut rest).ok()?;
    Some((Address(address.into_array()), rest))
}

/// Decodes a byte with `alloy_rlp::Decodable` of `u8`, which takes exactly what
/// the encoding of a byte gives. Gives the byte and what follows it; `None` for
/// an error.
#[verifier::external_body]
pub(crate) fn decode_u8(buf: &[u8]) -> (r: Option<(u8, &[u8])>)
    ensures
        match r {
            Some((n, rest)) => buf@ == number_item(n as nat) + rest@,
            None => forall|n: u8, rest: Seq<u8>|
                buf@ != #[trigger] (number_item(n as nat) + rest),
        },
{
    let mut rest = buf;
    let n: u8 = alloy_rlp::Decodable::decode(&mut rest).ok()?;
    Some((n, rest))
}

/// Decodes a number with `alloy_rlp::Decodable` of `u64`, which takes exactly
/// what the encoding of a number gives. Gives the number and what follows it;
/// `None` for an error.
#[verifier::external_body]
pub(crate) fn decode_u64(buf: &[u8]) -> (r: Option<(u64, &[u8])>)
    ensures
        match r {
            Some((n, rest)) => buf@ == number_item(n as nat) + rest@,
            None => forall|n: u64, rest: Seq<u8>|
                buf@ != #[trigger] (number_item(n as nat) + rest),
        },
{
    let mut rest = buf;
    let n: u64 = alloy_rlp::Decodable::decode(&mut rest).ok()?;
    Some((n, rest))
}

/// Decodes a list of bytes with `alloy_rlp::Decodable` of `Vec<u8>`, which takes
/// exactly what the encoding of such a list gives. Gives the bytes and what
/// follows the list; `None` for an error.
#[verifier::external_body]
pub(crate) fn decode_byte_list(buf: &[u8]) -> (r: Option<(Vec<u8>, &[u8])>)
    ensures
        match r {
            Some((s, rest)) => buf@ == byte_list_item(s@) + rest@,
            None => forall|s: Seq<u8>, rest: Seq<u8>|
                buf@ != #[trigger] (byte_list_item(s) + rest),
        },
{
    let mut rest = buf;
    let s: Vec<u8> = alloy_rlp::Decodable::decode(&mut rest).ok()?;
    Some((s, rest))
}

/// Two items that begin the same bytes are the same number.
pub proof fn lemma_number_item_unique(a: nat, x: Seq<u8>, b: nat, y: Seq<u8>)
    requires
        a <= u64::MAX,
        b <= u64::MAX,
        number_item(a) + x == number_item(b) + y,
    ensures
        a == b,
        x == y,
{
    let l = number_item(a) + x;
    let r = number_item(b) + y;
    lemma_be_trimmed_len(a);
    lemma_be_trimmed_len(b);
    lemma_be_trimmed_value(a);
    lemma_be_trimmed_value(b);
    assert(l[0] == number_item(a)[0]);
    assert(r[0] == number_item(b)[0]);
    assert(number_item(a).len() == number_item(b).len());
    assert(l.take(number_item(a).len() as int) =~= number_item(a));
    assert(r.take(number_item(b).len() as int) =~= number_item(b));
    if a >= 0x80 {
        assert(number_item(a).skip(1) =~= be_trimmed(a));
        assert(number_item(b).skip(1) =~= be_trimmed(b));
    }
    assert(l.skip(number_item(a).len() as int) =~= x);
    assert(r.skip(number_item(b).len() as int) =~= y);
}

/// Two list headers that begin the same bytes announce the same length.
proof fn lemma_list_header_unique(a: nat, x: Seq<u8>, b: nat, y: Seq<u8>)
    requires
        a <= u64::MAX,
        b <= u64::MAX,
        list_header(a) + x == list_header(b) + y,
    ensures
        a == b,
        x == y,
{
    let l = list_header(a) + x;
    let r = list_header(b) + y;
    lemma_be_trimmed_len(a);
    lemma_be_trimmed_len(b);
    lemma_be_trimmed_value(a);
    lemma_be_trimmed_value(b);
    assert(l[0] == list_header(a)[0]);
    assert(r[0] == list_header(b)[0]);
    assert(list_header(a).len() == list_header(b).len());
    assert(l.take(list_header(a).len() as int) =~= list_header(a));
    assert(r.take(list_header(b).len() as int) =~= list_header(b));
    if a >= 56 {
        assert(list_header(a).skip(1) =~= be_trimmed(a));
        assert(list_header(b).skip(1) =~= be_trimmed(b));
    }
    assert(l.skip(list_header(a).len() as int) =~= x);
    assert(r.skip(list_header(b).len() as int) =~= y);
}

/// Two rows of bytes with the same items are the same.
proof fn lemma_byte_items_unique(a: Seq<u8>, b: Seq<u8>)
    requires
        byte_items(a) == byte_items(b),
    ensures
        a == b,
    decreases a.len(),
{
    if a.len() == 0 {
        if b.len() > 0 {
            assert(byte_items(b).len() == 0);
            lemma_be_trimmed_value(b[0] as nat);
        }
        assert(a =~= b);
    } else if b.len() == 0 {
        lemma_be_trimmed_value(a[0] as nat);
        assert(byte_items(a).len() == 0);
    } else {
        lemma_number_item_unique(
            a[0] as nat,
            byte_items(a.skip(1)),
            b[0] as nat,
            byte_items(b.skip(1)),
        );
        lemma_byte_items_unique(a.skip(1), b.skip(1));
        assert(a =~= seq![a[0]] + a.skip(1));
        assert(b =~= seq![b[0]] + b.skip(1));
    }
}

/// Two lists that begin the same bytes are the same list.
pub proof fn lemma_list_item_unique(a: Seq<u8>, x: Seq<u8>, b: Seq<u8>, y: Seq<u8>)
    requires
        list_item(a) + x == list_item(b) + y,
        a.len() <= u64::MAX,
        b.len() <= u64::MAX,
    ensures
        a == b,
        x == y,
{
    assert(list_item(a) + x =~= list_header(a.len()) + (a + x));
    assert(list_item(b) + y =~= list_header(b.len()) + (b + y));
    lemma_list_header_unique(a.len(), a + x, b.len(), b + y);
    assert((a + x).take(a.len() as int) =~= a);
    assert((b + y).take(b.len() as int) =~= b);
    assert((a + x).skip(a.len() as int) =~= x);
    assert((b + y).skip(b.len() as int) =~= y);
}

/// Two lists of bytes that begin the same bytes are the same.
pub proof fn lemma_byte_list_item_unique(a: Seq<u8>, x: Seq<u8>, b: Seq<u8>, y: Seq<u8>)
    requires
        byte_list_item(a) + x == byte_list_item(b) + y,
        (byte_list_item(a) + x).len() <= u64::MAX,
    ensures
        a == b,
        x == y,
{
    assert(byte_items(a).len() <= (byte_list_item(a) + x).len());
    assert(byte_items(b).len() <= (byte_list_item(b) + y).len());
    lemma_list_item_unique(byte_items(a), x, byte_items(b), y);
    lemma_byte_items_unique(a, b);
}

/// Two words that begin the same bytes are the same.
pub proof fn lemma_word_item_unique(a: Seq<u8>, x: Seq<u8>, b: Seq<u8>, y: Seq<u8>)
    requires
        a.len() == 32,
        b.len() == 32,
        word_item(a) + x == word_item(b) + y,
    ensures
        a == b,
        x == y,
{
    assert((word_item(a) + x).subrange(1, 33) =~= a);
    assert((word_item(b) + y).subrange(1, 33) =~= b);
    assert((word_item(a) + x).skip(33) =~= x);
    assert((word_item(b) + y).skip(33) =~= y);
}

/// Two addresses that begin the same bytes are the same.
pub proof fn lemma_address_item_unique(a: Seq<u8>, x: Seq<u8>, b: Seq<u8>, y: Seq<u8>)
    requires
        a.len() == 20,
        b.len() == 20,
        address_item(a) + x == address_item(b) + y,
    ensures
        a == b,
        x == y,
{
    assert((address_item(a) + x).subrange(1, 21) =~= a);
    assert((address_item(b) + y).subrange(1, 21) =~= b);
    assert((address_item(a) + x).skip(21) =~= x);
    assert((address_item(b) + y).skip(21) =~= y);
}

/// Reads a list's header: the length that it announces and what follows it.
pub(crate) fn take_list_header(buf: &[u8]) -> (r: Option<(usize, &[u8])>)
    ensures
        r matches Some((n, rest)) ==> n <= rest@.len() && buf@ == list_header(n as nat) + rest@,
        forall|n: nat, rest: Seq<u8>|
            n <= rest.len() && buf@ == #[trigger] (list_header(n) + rest) ==> (r matches Some(
                (m, after),
            ) && m == n && after@ == rest),
{
    let r = match decode_header(buf) {
        Some((list, n, rest)) => if list {
            Some((n, rest))
        } else {
            None
        },
        None => None,
    };
    assert(buf@.len() == buf.len());
    assert forall|n: nat, rest: Seq<u8>|
        n <= rest.len() && buf@ == #[trigger] (list_header(n) + rest) implies (r matches Some(
        (m, after),
    ) && m == n && after@ == rest) by {
        assert(rest.len() <= buf@.len());
        if let Some((m, after)) = r {
            lemma_list_header_unique(n, rest, m as nat, after@);
        }
    }
    r
}

/// Reads a word: the word and what follows it.
pub(crate) fn take_word(buf: &[u8]) -> (r: Option<(B256, &[u8])>)
    ensures
        r matches Some((word, rest)) ==> buf@ == word_item(word@) + rest@,
        forall|word: Seq<u8>, rest: Seq<u8>|
            word.len() == 32 && buf@ == #[trigger] (word_item(word) + rest) ==> (r matches Some(
                (got, after),
            ) && got@ == word && after@ == rest),
{
    let r = decode_word(buf);
    assert forall|word: Seq<u8>, rest: Seq<u8>|
        word.len() == 32 && buf@ == #[trigger] (word_item(word) + rest) implies (r matches Some(
        (got, after),
    ) && got@ == word && after@ == rest) by {
        if let Some((got, after)) = r {
            lemma_word_item_unique(word, rest, got@, after@);
        }
    }
    r
}

/// Reads an address: the address and what follows it.
pub(crate) fn take_address(buf: &[u8]) -> (r: Option<(Address, &[u8])>)
    ensures
        r matches Some((address, rest)) ==> buf@ == address_item(address@) + rest@,
        forall|address: Seq<u8>, rest: Seq<u8>|
            address.len() == 20 && buf@ == #[trigger] (address_item(address) + rest) ==> (
            r matches Some((got, after)) && got@ == address && after@ == rest),
{
    let r = decode_address(buf);
    assert forall|address: Seq<u8>, rest: Seq<u8>|
        address.len() == 20 && buf@ == #[trigger] (address_item(address) + rest) implies (
    r matches Some((got, after)) && got@ == address && after@ == rest) by {
        if let Some((got, after)) = r {
            lemma_address_item_unique(address, rest, got@, after@);
        }
    }
    r
}

/// Reads a byte: the byte and what follows it.
pub(crate) fn take_u8(buf: &[u8]) -> (r: Option<(u8, &[u8])>)
    ensures
        r matches Some((n, rest)) ==> buf@ == number_item(n as nat) + rest@,
        forall|n: u8, rest: Seq<u8>|
            buf@ == #[trigger] (number_item(n as nat) + rest) ==> (r matches Some((got, after))
                && got == n && after@ == rest),
{
    let r = decode_u8(buf);
    assert forall|n: u8, rest: Seq<u8>|
        buf@ == #[trigger] (number_item(n as nat) + rest) implies (r matches Some((got, after))
        && got == n && after@ == rest) by {
        if let Some((got, after)) = r {
            lemma_number_item_unique(n as nat, rest, got as nat, after@);
        }
    }
    r
}

/// Reads a number: the number and what follows it.
pub(crate) fn take_u64(buf: &[u8]) -> (r: Option<(u64, &[u8])>)
    ensures
        r matches Some((n, rest)) ==> buf@ == number_item(n as nat) + rest@,
        forall|n: u64, rest: Seq<u8>|
            buf@ == #[trigger] (number_item(n as nat) + rest) ==> (r matches Some((got, after))
                && got == n && after@ == rest),
{
    let r = decode_u64(buf);
    assert forall|n: u64, rest: Seq<u8>|
        buf@ == #[trigger] (number_item(n as nat) + rest) implies (r matches Some((got, after))
        && got == n && after@ == rest) by {
        if let Some((got, after)) = r {
            lemma_number_item_unique(n as nat, rest, got as nat, after@);
        }
    }
    r
}

/// Reads a list of bytes: the bytes and what follows the list.
pub(crate) fn take_byte_list(buf: &[u8]) -> (r: Option<(Vec<u8>, &[u8])>)
    ensures
        r matches Some((s, rest)) ==> buf@ == byte_list_item(s@) + rest@,
        forall|s: Seq<u8>, rest: Seq<u8>|
            buf@ == #[trigger] (byte_list_item(s) + rest) ==> (r matches Some((got, after))
                && got@ == s && after@ == rest),
{
    let r = decode_byte_list(buf);
    assert(buf@.len() == buf.len());
    assert forall|s: Seq<u8>, rest: Seq<u8>|
        buf@ == #[trigger] (byte_list_item(s) + rest) implies (r matches Some((got, after))
        && got@ == s && after@ == rest) by {
        if let Some((got, after)) = r {
            lemma_byte_list_item_unique(s, rest, got@, after@);
        }
    }
    r
}

} // verus!

//! Who a node is, and how long it waits, as its settings say.

use crate::attestation::{
    address_from_secret_key, address_of_key, is_secret_key, public_key_of, SigningKey,
};
use crate::primitives::Address;
use crate::protocol_store::ProtocolStore;
use crate::text::{chars_of, number_in, parse_number, string_of, strip, trim, trimmed, without_prefix};
use vstd::prelude::*;
use vstd::utf8::encode_utf8;

verus! {

/// The value of a hexadecimal digit in ASCII.
pub open spec fn hex_digit_value(b: u8) -> Option<int> {
    if 0x30 <= b <= 0x39 {
        Some(b - 0x30)
    } else if 0x61 <= b <= 0x66 {
        Some(b - 0x61 + 10)
    } else if 0x41 <= b <= 0x46 {
        Some(b - 0x41 + 10)
    } else {
        None
    }
}

/// The byte that two characters write: two hexadecimal digits, or a plus sign and
/// one.
pub open spec fn hex_pair_value(high: u8, low: u8) -> Option<int> {
    match hex_digit_value(low) {
        None => None,
        Some(l) => if high == 0x2B {
            Some(l)
        } else {
            match hex_digit_value(high) {
                None => None,
                Some(h) => Some(16 * h + l),
            }
        },
    }
}

/// Whether a text writes some bytes: two characters for each and nothing more.
pub open spec fn writes_in_hex(text: Seq<u8>, bytes: Seq<u8>) -> bool {
    text.len() == 2 * bytes.len() && forall|i: int|
        0 <= i < bytes.len() ==> hex_pair_value(text[2 * i], text[2 * i + 1]) == Some(
            #[trigger] bytes[i] as int,
        )
}

/// A setting in UTF-8, without the white space around it and without a leading
/// `0x`.
pub open spec fn hex_setting(raw: Seq<char>) -> Seq<u8> {
    encode_utf8(without_prefix(trimmed(raw), "0x"@))
}

fn hex_digit(b: u8) -> (r: Option<u8>)
    ensures
        match r {
            Some(n) => hex_digit_value(b) == Some(n as int) && n < 16,
            None => hex_digit_value(b) is None,
        },
{
    if 0x30 <= b && b <= 0x39 {
        Some(b - 0x30)
    } else if 0x61 <= b && b <= 0x66 {
        Some(b - 0x61 + 10)
    } else if 0x41 <= b && b <= 0x46 {
        Some(b - 0x41 + 10)
    } else {
        None
    }
}

fn hex_pair(high: u8, low: u8) -> (r: Option<u8>)
    ensures
        match r {
            Some(n) => hex_pair_value(high, low) == Some(n as int),
            None => hex_pair_value(high, low) is None,
        },
{
    match hex_digit(low) {
        None => None,
        Some(l) => if high == 0x2B {
            Some(l)
        } else {
            match hex_digit(high) {
                None => None,
                Some(h) => Some(16 * h + l),
            }
        },
    }
}

/// The bytes that a setting writes in hexadecimal; `None` where it writes none or
/// not as many as are asked for.
fn read_hex(raw: &str, count: usize) -> (r: Option<Vec<u8>>)
    requires
        count <= 32,
    ensures
        match r {
            Some(bytes) => bytes@.len() == count && writes_in_hex(hex_setting(raw@), bytes@),
            None => forall|bytes: Seq<u8>|
                bytes.len() == count ==> !#[trigger] writes_in_hex(hex_setting(raw@), bytes),
        },
{
    let chars = chars_of(raw);
    let digits = string_of(strip(trim(chars.as_slice()), "0x"));
    let text = digits.as_str().as_bytes();
    assert(text@ == hex_setting(raw@));
    if text.len() != 2 * count {
        return None;
    }
    let mut out: Vec<u8> = Vec::new();
    let mut i: usize = 0;
    while i < count
        invariant
            count <= 32,
            i <= count,
            i == out@.len(),
            text@ == hex_setting(raw@),
            text@.len() == 2 * count,
            forall|j: int|
                0 <= j < i ==> hex_pair_value(text@[2 * j], text@[2 * j + 1]) == Some(
                    #[trigger] out@[j] as int,
                ),
        decreases count - i,
    {
        match hex_pair(text[2 * i], text[2 * i + 1]) {
            Some(b) => {
                out.push(b);
            },
            None => {
                assert forall|bytes: Seq<u8>| bytes.len() == count implies !#[trigger] writes_in_hex(
                    hex_setting(raw@),
                    bytes,
                ) by {
                    if writes_in_hex(hex_setting(raw@), bytes) {
                        assert(Some(bytes[i as int] as int) == hex_pair_value(
                            text@[2 * i],
                            text@[2 * i + 1],
                        ));
                    }
                }
                return None;
            },
        }
        i = i + 1;
    }
    Some(out)
}

proof fn lemma_hex_writes_one_row(text: Seq<u8>, a: Seq<u8>, b: Seq<u8>)
    requires
        writes_in_hex(text, a),
        writes_in_hex(text, b),
    ensures
        a == b,
{
    assert forall|i: int| 0 <= i < a.len() implies a[i] == b[i] by {
        assert(Some(a[i] as int) == Some(b[i] as int));
    }
    assert(a =~= b);
}

/// The address that a node has where its settings name none.
pub open spec fn default_address() -> Seq<u8> {
    seq![
        0xf3u8, 0x9f, 0xd6, 0xe5, 0x1a, 0xad, 0x88, 0xf6, 0xf4, 0xce, 0x6a, 0xb8, 0x82, 0x72, 0x79,
        0xcf, 0xff, 0xb9, 0x22, 0x66,
    ]
}

/// Whether a setting names an address.
pub open spec fn names_address(raw: Option<Seq<char>>, address: Seq<u8>) -> bool {
    raw matches Some(text) && address.len() == 20 && writes_in_hex(hex_setting(text), address)
}

/// What a setting says, where there is one.
pub open spec fn setting_text(raw: Option<&str>) -> Option<Seq<char>> {
    match raw {
        Some(text) => Some(text@),
        None => None,
    }
}

/// The address of this node as a validator: the one that the setting names, or
/// the default where it names none.
pub fn node_validator_address(raw: Option<&str>) -> (r: Address)
    ensures
        names_address(setting_text(raw), r@) || (r@ == default_address() && forall|a: Seq<u8>|
            !#[trigger] names_address(setting_text(raw), a)),
        forall|a: Seq<u8>| #[trigger] names_address(setting_text(raw), a) ==> r@ == a,
{
    if let Some(text) = raw {
        if let Some(bytes) = read_hex(text, 20) {
            let mut a = [0u8; 20];
            let mut i: usize = 0;
            while i < 20
                invariant
                    i <= 20,
                    bytes@.len() == 20,
                    forall|j: int| 0 <= j < i ==> a@[j] == bytes@[j],
                decreases 20 - i,
            {
                a[i] = bytes[i];
                i = i + 1;
            }
            assert(a@ =~= bytes@);
            proof {
                assert forall|b: Seq<u8>| #[trigger]
                    names_address(setting_text(raw), b) implies a@ == b by {
                    lemma_hex_writes_one_row(hex_setting(text@), a@, b);
                }
            }
            return Address(a);
        }
        assert forall|a: Seq<u8>| !#[trigger] names_address(setting_text(raw), a) by {
            if a.len() == 20 {
                assert(!writes_in_hex(hex_setting(text@), a));
            }
        }
    }
    let a = Address(
        [
            0xf3,
            0x9f,
            0xd6,
            0xe5,
            0x1a,
            0xad,
            0x88,
            0xf6,
            0xf4,
            0xce,
            0x6a,
            0xb8,
            0x82,
            0x72,
            0x79,
            0xcf,
            0xff,
            0xb9,
            0x22,
            0x66,
        ],
    );
    assert(a@ =~= default_address());
    a
}

/// Whether a setting writes a secret key.
pub open spec fn names_key(raw: Option<Seq<char>>, secret: Seq<u8>) -> bool {
    raw matches Some(text) && is_secret_key(secret) && writes_in_hex(hex_setting(text), secret)
}

/// The key that this node signs with: the one that the setting writes, `None`
/// where it writes none.
pub fn node_validator_signing_key(raw: Option<&str>) -> (r: Option<SigningKey>)
    ensures
        match r {
            Some(key) => names_key(setting_text(raw), key@),
            None => forall|secret: Seq<u8>| !#[trigger] names_key(setting_text(raw), secret),
        },
{
    let text = match raw {
        Some(text) => text,
        None => {
            return None;
        },
    };
    let bytes = match read_hex(text, 32) {
        Some(bytes) => bytes,
        None => {
            assert forall|secret: Seq<u8>| !#[trigger] names_key(setting_text(raw), secret) by {
                if secret.len() == 32 {
                    assert(!writes_in_hex(hex_setting(text@), secret));
                }
            }
            return None;
        },
    };
    let mut secret = [0u8; 32];
    let mut i: usize = 0;
    while i < 32
        invariant
            i <= 32,
            bytes@.len() == 32,
            forall|j: int| 0 <= j < i ==> secret@[j] == bytes@[j],
        decreases 32 - i,
    {
        secret[i] = bytes[i];
        i = i + 1;
    }
    assert(secret@ =~= bytes@);
    let key = SigningKey::from_bytes(secret);
    proof {
        if key is None {
            assert forall|s: Seq<u8>| !#[trigger] names_key(setting_text(raw), s) by {
                if names_key(setting_text(raw), s) {
                    lemma_hex_writes_one_row(hex_setting(text@), secret@, s);
                }
            }
        }
    }
    key
}

/// Registers this node as a validator. `false` where it has a signing key whose
/// address is another: peers will reject what it signs.
pub fn ensure_validator_registered(
    store: &mut ProtocolStore,
    addr: Address,
    key: Option<&SigningKey>,
) -> (r: bool)
    requires
        old(store).wf(),
    ensures
        final(store).wf(),
        final(store)@ == old(store)@.with_validator(addr@),
        r == (match key {
            Some(sk) => address_of_key(public_key_of(sk@)) == addr@,
            None => true,
        }),
{
    store.register_validator(addr);
    match key {
        Some(sk) => address_from_secret_key(sk).same(&addr),
        None => true,
    }
}

/// The time that a window setting gives in milliseconds: a decimal number of 64
/// bits, or 200 where it is none.
pub open spec fn window_of(raw: Option<Seq<char>>) -> int {
    match raw {
        Some(text) => match number_in(text, u64::MAX as int) {
            Some(ms) => ms,
            None => 200,
        },
        None => 200,
    }
}

fn window_ms(raw: Option<&str>) -> (r: u64)
    ensures
        r == window_of(setting_text(raw)),
{
    if let Some(text) = raw {
        let chars = chars_of(text);
        if let Some(ms) = parse_number(chars.as_slice(), u64::MAX) {
            return ms;
        }
    }
    200
}

/// How long a fetcher lets its commitment travel before it reveals, in
/// milliseconds.
pub fn commit_window_ms(raw: Option<&str>) -> (r: u64)
    ensures
        r == window_of(setting_text(raw)),
{
    window_ms(raw)
}

/// How long a reveal may take after the commit window, in milliseconds.
pub fn reveal_window_ms(raw: Option<&str>) -> (r: u64)
    ensures
        r == window_of(setting_text(raw)),
{
    window_ms(raw)
}

} // verus!

//! Who signed an attestation, and how old it may be.

use crate::bytes::{be_value, keccak, keccak256};
use crate::primitives::{bytes_to_vec, Address, B256};
use vstd::prelude::*;
use vstd::slice::slice_subrange;

verus! {

/// How old an attestation may be, in seconds.
pub const ATTESTATION_MAX_AGE_SECS: u64 = 300;

/// How far ahead of this node's clock an attestation may be, in seconds.
pub const ATTESTATION_MAX_SKEW_SECS: u64 = 60;

/// The order of the secp256k1 curve.
pub open spec fn curve_order() -> nat {
    0xFFFFFFFF_FFFFFFFF_FFFFFFFF_FFFFFFFE_BAAEDCE6_AF48A03B_BFD25E8C_D0364141nat
}

/// By how much the prime of the curve's field is above the order of the curve.
pub open spec fn field_excess() -> nat {
    0x1_45512319_50B75FC4_402DA172_2FC9BAEEnat
}

/// Whether 32 bytes are a secret key: a number above zero and below the order of
/// the curve.
pub open spec fn is_secret_key(bytes: Seq<u8>) -> bool {
    bytes.len() == 32 && 0 < be_value(bytes) < curve_order()
}

/// Names the public key of a secret key, as 65 uncompressed bytes.
pub uninterp spec fn public_key_of(secret: Seq<u8>) -> Seq<u8>;

/// Names the recovery id and the 64 bytes of the signature that a secret key
/// gives a digest with the nonce of RFC 6979.
pub uninterp spec fn signature_of(digest: Seq<u8>, secret: Seq<u8>) -> (int, Seq<u8>);

/// Names the public key, as 65 uncompressed bytes, that a signature of 64 bytes
/// and a recovery id give for a digest.
pub uninterp spec fn recovered_key(digest: Seq<u8>, compact: Seq<u8>, recid: int) -> Option<
    Seq<u8>,
>;

/// Asks `secp256k1::SecretKey::from_slice` whether 32 bytes are a secret key. It
/// takes a number above zero and below the order of the curve.
#[verifier::external_body]
fn accepts_secret_key(bytes: &[u8; 32]) -> (r: bool)
    ensures
        r == is_secret_key(bytes@),
{
    secp256k1::SecretKey::from_slice(bytes).is_ok()
}

/// Derives with `secp256k1::PublicKey::from_secret_key` the public key of a
/// secret key, and serializes it uncompressed.
#[verifier::external_body]
fn derive_public_key(secret: &[u8; 32]) -> (r: [u8; 65])
    requires
        is_secret_key(secret@),
    ensures
        r@ == public_key_of(secret@),
{
    let sk = secp256k1::SecretKey::from_slice(secret).unwrap();
    secp256k1::PublicKey::from_secret_key(&secp256k1::Secp256k1::new(), &sk)
        .serialize_uncompressed()
}

/// Signs a digest with `secp256k1::Secp256k1::sign_ecdsa_recoverable`: the
/// recovery id, which is at most 3, and the 64 bytes of the signature. The public
/// key that the signature gives for the digest is that of the secret key. An id of
/// 2 or 3 tells that the nonce's point had a coordinate that is not below the order
/// of the curve; the first half of the signature is what that coordinate is above
/// it.
#[verifier::external_body]
fn sign_recoverable(digest: &B256, secret: &[u8; 32]) -> (r: (u8, [u8; 64]))
    requires
        is_secret_key(secret@),
    ensures
        (r.0 as int, r.1@) == signature_of(digest@, secret@),
        r.0 <= 3,
        r.0 >= 2 ==> be_value(r.1@.take(32)) < field_excess(),
        recovered_key(digest@, r.1@, r.0 as int) == Some(public_key_of(secret@)),
{
    let secp = secp256k1::Secp256k1::signing_only();
    let sk = secp256k1::SecretKey::from_slice(secret).unwrap();
    let message = secp256k1::Message::from_digest(digest.0);
    let (id, compact) = secp.sign_ecdsa_recoverable(&message, &sk).serialize_compact();
    (i32::from(id) as u8, compact)
}

/// Recovers with `secp256k1::Secp256k1::recover_ecdsa` the public key that a
/// signature of 64 bytes and a recovery id give for a digest, serialized
/// uncompressed. `None` where the id is above 3, where the bytes are no
/// signature or where no key is found.
#[verifier::external_body]
fn recover_public_key(digest: &B256, compact: &[u8], recid: u8) -> (r: Option<[u8; 65]>)
    requires
        compact@.len() == 64,
    ensures
        match r {
            Some(key) => recovered_key(digest@, compact@, recid as int) == Some(key@),
            None => recovered_key(digest@, compact@, recid as int) is None,
        },
        recid > 3 ==> r is None,
{
    let id = secp256k1::ecdsa::RecoveryId::try_from(recid as i32).ok()?;
    let sig = secp256k1::ecdsa::RecoverableSignature::from_compact(compact, id).ok()?;
    let message = secp256k1::Message::from_digest(digest.0);
    let key = secp256k1::Secp256k1::new().recover_ecdsa(&message, &sig).ok()?;
    Some(key.serialize_uncompressed())
}

/// The address of an uncompressed public key: the last 20 bytes of the hash of
/// the key without its leading byte.
pub open spec fn address_of_key(key: Seq<u8>) -> Seq<u8> {
    keccak(key.skip(1)).skip(12)
}

fn key_address(key: &[u8; 65]) -> (r: Address)
    ensures
        r@ == address_of_key(key@),
{
    let body = slice_subrange(key.as_slice(), 1, 65);
    assert(body@ =~= key@.skip(1));
    let hash = keccak256(body);
    let mut bytes = [0u8; 20];
    let mut i: usize = 0;
    while i < 20
        invariant
            i <= 20,
            forall|j: int| 0 <= j < i ==> bytes@[j] == hash@[j + 12],
        decreases 20 - i,
    {
        bytes[i] = hash.0[i + 12];
        i = i + 1;
    }
    let r = Address(bytes);
    assert(r@ =~= hash@.skip(12));
    r
}

/// A secret key that a validator signs with.
#[derive(Clone, Copy)]
pub struct SigningKey {
    bytes: [u8; 32],
}

impl View for SigningKey {
    type V = Seq<u8>;

    closed spec fn view(&self) -> Seq<u8> {
        self.bytes@
    }
}

impl SigningKey {
    #[verifier::type_invariant]
    spec fn inv(self) -> bool {
        is_secret_key(self.bytes@)
    }

    /// The key that 32 bytes write; `None` where they are no secret key.
    pub fn from_bytes(bytes: [u8; 32]) -> (r: Option<SigningKey>)
        ensures
            match r {
                Some(key) => is_secret_key(bytes@) && key@ == bytes@,
                None => !is_secret_key(bytes@),
            },
    {
        if accepts_secret_key(&bytes) {
            Some(SigningKey { bytes })
        } else {
            None
        }
    }
}

/// The address of the account that a key signs for.
pub fn address_from_secret_key(sk: &SigningKey) -> (r: Address)
    ensures
        r@ == address_of_key(public_key_of(sk@)),
{
    proof {
        use_type_invariant(sk);
    }
    let key = derive_public_key(&sk.bytes);
    key_address(&key)
}

/// The 65 bytes of a signature: its 64 bytes and the recovery id.
pub open spec fn attestation_signature(digest: Seq<u8>, secret: Seq<u8>) -> Seq<u8> {
    signature_of(digest, secret).1.push(signature_of(digest, secret).0 as u8)
}

/// The address that 65 bytes of a signature give for a digest.
pub open spec fn recovered_signer(digest: Seq<u8>, sig: Seq<u8>) -> Option<Seq<u8>> {
    if sig.len() != 65 {
        None
    } else {
        match recovered_key(digest, sig.take(64), sig[64] as int) {
            Some(key) => Some(address_of_key(key)),
            None => None,
        }
    }
}

/// Signs an attestation's digest. Whoever recovers the signer of the result gets
/// the address of the key. The last byte is the recovery id: 0 or 1 wherever the
/// first half of the signature is no number below the excess of the field, and
/// never above 3.
pub fn sign_attestation(digest: B256, sk: &SigningKey) -> (r: Vec<u8>)
    ensures
        r@ == attestation_signature(digest@, sk@),
        r@.len() == 65,
        r@[64] <= 3,
        be_value(r@.take(32)) >= field_excess() ==> r@[64] == 0 || r@[64] == 1,
        recovered_signer(digest@, r@) == Some(address_of_key(public_key_of(sk@))),
{
    proof {
        use_type_invariant(sk);
    }
    let (recid, compact) = sign_recoverable(&digest, &sk.bytes);
    let mut out = bytes_to_vec(compact.as_slice());
    out.push(recid);
    assert(out@.take(64) =~= compact@);
    assert(out@.take(32) =~= compact@.take(32));
    assert(out@ =~= attestation_signature(digest@, sk@));
    out
}

/// The address of the account that signed a digest; `None` where the signature
/// is not of 65 bytes or gives no key.
pub fn recover_attestation_signer(digest: B256, sig: &[u8]) -> (r: Option<Address>)
    ensures
        match r {
            Some(a) => recovered_signer(digest@, sig@) == Some(a@),
            None => recovered_signer(digest@, sig@) is None,
        },
        sig@.len() != 65 ==> r is None,
        sig@.len() == 65 && sig@[64] > 3 ==> r is None,
{
    if sig.len() != 65 {
        return None;
    }
    let compact = slice_subrange(sig, 0, 64);
    assert(compact@ =~= sig@.take(64));
    match recover_public_key(&digest, compact, sig[64]) {
        Some(key) => Some(key_address(&key)),
        None => None,
    }
}

/// Whether an attestation's time lies no further ahead of this node's clock and
/// no further behind it than is allowed.
pub open spec fn is_fresh(timestamp_secs: u64, now_secs: u64) -> bool {
    timestamp_secs <= now_secs + ATTESTATION_MAX_SKEW_SECS && now_secs - timestamp_secs
        <= ATTESTATION_MAX_AGE_SECS
}

/// Whether an attestation's time is fresh.
pub fn attestation_fresh(timestamp_secs: u64, now_secs: u64) -> (r: bool)
    requires
        now_secs + ATTESTATION_MAX_SKEW_SECS <= u64::MAX,
    ensures
        r == is_fresh(timestamp_secs, now_secs),
{
    if timestamp_secs > now_secs + ATTESTATION_MAX_SKEW_SECS {
        return false;
    }
    now_secs.saturating_sub(timestamp_secs) <= ATTESTATION_MAX_AGE_SECS
}

} // verus!

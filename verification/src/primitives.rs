//! Fixed-size values of the chain: 32-byte words, 20-byte addresses and
//! 256-bit unsigned integers.

use vstd::prelude::*;

verus! {

/// Whether two byte slices hold the same bytes.
pub fn same_bytes(a: &[u8], b: &[u8]) -> (r: bool)
    ensures
        r == (a@ == b@),
{
    if a.len() != b.len() {
        return false;
    }
    let n: usize = a.len();
    let mut i: usize = 0;
    while i < n
        invariant
            i <= n,
            n == a@.len(),
            n == b@.len(),
            forall|j: int| 0 <= j < i ==> a@[j] == b@[j],
        decreases n - i,
    {
        if a[i] != b[i] {
            return false;
        }
        i = i + 1;
    }
    assert(a@ =~= b@);
    true
}

/// A copy of a byte slice.
pub fn bytes_to_vec(a: &[u8]) -> (r: Vec<u8>)
    ensures
        r@ == a@,
{
    let mut out: Vec<u8> = Vec::new();
    out.extend_from_slice(a);
    assert(out@ =~= a@);
    out
}

/// A 32-byte word: a hash, a commitment, a salt.
#[derive(Clone, Copy, Debug, PartialEq, Eq, Hash)]
pub struct B256(pub [u8; 32]);

impl View for B256 {
    type V = Seq<u8>;

    open spec fn view(&self) -> Seq<u8> {
        self.0@
    }
}

impl B256 {
    pub fn same(&self, other: &B256) -> (r: bool)
        ensures
            r == (self@ == other@),
    {
        same_bytes(self.0.as_slice(), other.0.as_slice())
    }

    pub fn zero() -> (r: B256)
        ensures
            r@ == Seq::new(32, |i: int| 0u8),
    {
        let r = B256([0u8; 32]);
        assert(r@ =~= Seq::new(32, |i: int| 0u8));
        r
    }
}

/// The address of an account: the last 20 bytes of a public key's hash.
#[derive(Clone, Copy, Debug, PartialEq, Eq, Hash)]
pub struct Address(pub [u8; 20]);

impl View for Address {
    type V = Seq<u8>;

    open spec fn view(&self) -> Seq<u8> {
        self.0@
    }
}

impl Address {
    pub fn same(&self, other: &Address) -> (r: bool)
        ensures
            r == (self@ == other@),
    {
        same_bytes(self.0.as_slice(), other.0.as_slice())
    }
}

impl From<[u8; 32]> for B256 {
    fn from(bytes: [u8; 32]) -> (r: B256) {
        B256(bytes)
    }
}

impl vstd::std_specs::convert::FromSpecImpl<[u8; 32]> for B256 {
    open spec fn obeys_from_spec() -> bool {
        true
    }

    open spec fn from_spec(bytes: [u8; 32]) -> B256 {
        B256(bytes)
    }
}

impl From<[u8; 20]> for Address {
    fn from(bytes: [u8; 20]) -> (r: Address) {
        Address(bytes)
    }
}

impl vstd::std_specs::convert::FromSpecImpl<[u8; 20]> for Address {
    open spec fn obeys_from_spec() -> bool {
        true
    }

    open spec fn from_spec(bytes: [u8; 20]) -> Address {
        Address(bytes)
    }
}

/// Two to the power of 256.
pub open spec fn u256_modulus() -> nat {
    0x1_0000000000000000_0000000000000000_0000000000000000_0000000000000000nat
}

/// A 256-bit unsigned integer: four 64-bit limbs, least significant first.
#[derive(Clone, Copy, Debug, PartialEq, Eq, Hash)]
pub struct U256 {
    pub limbs: [u64; 4],
}

impl U256 {
    /// The number that the limbs write.
    pub open spec fn value(self) -> nat {
        self.limbs@[0] as nat + 0x1_0000000000000000nat * (self.limbs@[1] as nat + 0x1_0000000000000000nat
            * (self.limbs@[2] as nat + 0x1_0000000000000000nat * (self.limbs@[3] as nat)))
    }

    /// A 64-bit number as a 256-bit one.
    pub fn from_u64(n: u64) -> (r: U256)
        ensures
            r.value() == n,
    {
        U256 { limbs: [n, 0, 0, 0] }
    }

    /// Compares with `<` of `alloy_primitives::U256`, the order of the numbers.
    #[verifier::external_body]
    pub(crate) fn less(self, other: U256) -> (r: bool)
        ensures
            r == (self.value() < other.value()),
    {
        alloy_primitives::U256::from_limbs(self.limbs) < alloy_primitives::U256::from_limbs(
            other.limbs,
        )
    }

    /// Adds with `+` of `alloy_primitives::U256`, which wraps around at the end of
    /// the 256-bit range.
    #[verifier::external_body]
    pub(crate) fn plus(self, other: U256) -> (r: U256)
        ensures
            r.value() == (self.value() + other.value()) % u256_modulus(),
    {
        let sum = alloy_primitives::U256::from_limbs(self.limbs) + alloy_primitives::U256::from_limbs(
            other.limbs,
        );
        U256 { limbs: sum.into_limbs() }
    }

    /// Divides with `/` of `alloy_primitives::U256`: the quotient, rounded down.
    #[verifier::external_body]
    pub(crate) fn divided_by(self, divisor: U256) -> (r: U256)
        requires
            divisor.value() != 0,
        ensures
            r.value() == self.value() / divisor.value(),
    {
        let quotient = alloy_primitives::U256::from_limbs(self.limbs)
            / alloy_primitives::U256::from_limbs(divisor.limbs);
        U256 { limbs: quotient.into_limbs() }
    }
}

impl From<u64> for U256 {
    fn from(n: u64) -> (r: U256) {
        U256 { limbs: [n, 0, 0, 0] }
    }
}

impl vstd::std_specs::convert::FromSpecImpl<u64> for U256 {
    open spec fn obeys_from_spec() -> bool {
        true
    }

    open spec fn from_spec(n: u64) -> U256 {
        U256 { limbs: [n, 0, 0, 0] }
    }
}

} // verus!

//! The messages of the `extern/1` subprotocol and the hashes that peers agree on.

use crate::bytes::{be_bytes, keccak, keccak256, lemma_be_bytes_value, to_be_bytes};
use crate::primitives::{Address, B256};
use crate::rlp::{
    address_item, byte_list_item, encode_address, encode_byte_list, encode_list_header,
    encode_u64, encode_u8, encode_word, lemma_address_item_unique, lemma_byte_list_item_unique,
    lemma_list_item_unique, lemma_number_item_unique, lemma_word_item_unique, list_header,
    list_item, number_item, take_address, take_byte_list, take_list_header, take_u64, take_u8,
    take_word, word_item,
};
use vstd::prelude::*;
use vstd::utf8::{encode_scalar, encode_utf8, encode_utf8_decode_utf8};

verus! {

/// The first byte of a message that carries a value in the open.
pub const MSG_TYPE_DATA: u8 = 0x00;

/// The first byte of a message that carries a commitment.
pub const MSG_TYPE_COMMIT: u8 = 0x01;

/// The first byte of a message that carries a reveal.
pub const MSG_TYPE_REVEAL: u8 = 0x02;

/// A value as it was fetched, sent in the open.
#[derive(Clone, Debug, PartialEq, Eq)]
pub struct ExternDataMsg {
    pub request_hash: B256,
    pub value: Vec<u8>,
    pub response_type: u8,
    pub validator: Address,
}

/// What an [`ExternDataMsg`] holds.
pub struct DataMsgView {
    pub request_hash: Seq<u8>,
    pub value: Seq<u8>,
    pub response_type: u8,
    pub validator: Seq<u8>,
}

impl View for ExternDataMsg {
    type V = DataMsgView;

    open spec fn view(&self) -> DataMsgView {
        DataMsgView {
            request_hash: self.request_hash@,
            value: self.value@,
            response_type: self.response_type,
            validator: self.validator@,
        }
    }
}

impl DataMsgView {
    /// Words take 32 bytes and addresses 20.
    pub open spec fn valid(self) -> bool {
        &&& self.request_hash.len() == 32
        &&& self.validator.len() == 20
    }

    /// The items of the message, in order.
    pub open spec fn items(self) -> Seq<u8> {
        word_item(self.request_hash) + (byte_list_item(self.value) + (number_item(self.response_type as nat) + address_item(self.validator)))
    }

    /// The message as a list of its items.
    pub open spec fn bytes(self) -> Seq<u8> {
        list_item(self.items())
    }
}

/// The message that begins `data`, and what follows it.
pub open spec fn data_msg_in(data: Seq<u8>) -> Option<(DataMsgView, Seq<u8>)> {
    if exists|m: DataMsgView, rest: Seq<u8>| m.valid() && data == #[trigger] (m.bytes() + rest) {
        let (m, rest) = choose|m: DataMsgView, rest: Seq<u8>|
            m.valid() && data == #[trigger] (m.bytes() + rest);
        Some((m, rest))
    } else {
        None
    }
}

/// Decoding gives back what was encoded: the bytes of a message, whatever
/// follows them, are read as that message and that rest.
pub proof fn law_data_msg_round_trip(m: DataMsgView, rest: Seq<u8>)
    requires
        m.valid(),
        (m.bytes() + rest).len() <= usize::MAX,
    ensures
        data_msg_in(m.bytes() + rest) == Some((m, rest)),
{
    let data = m.bytes() + rest;
    assert(m.valid() && data == m.bytes() + rest);
    let (n, after) = data_msg_in(data)->0;
    assert(n.valid() && data == n.bytes() + after);
    lemma_data_msg_unique(m, rest, n, after);
}

proof fn lemma_data_msg_unique(a: DataMsgView, x: Seq<u8>, b: DataMsgView, y: Seq<u8>)
    requires
        a.valid(),
        b.valid(),
        a.bytes() + x == b.bytes() + y,
        (a.bytes() + x).len() <= u64::MAX,
    ensures
        a == b,
        x == y,
{
    assert(a.items().len() <= (a.bytes() + x).len());
    assert(b.items().len() <= (b.bytes() + y).len());
    lemma_list_item_unique(a.items(), x, b.items(), y);
    let a1 = byte_list_item(a.value) + (number_item(a.response_type as nat) + address_item(a.validator));
    let b1 = byte_list_item(b.value) + (number_item(b.response_type as nat) + address_item(b.validator));
    lemma_word_item_unique(a.request_hash, a1, b.request_hash, b1);
    let a2 = number_item(a.response_type as nat) + address_item(a.validator);
    let b2 = number_item(b.response_type as nat) + address_item(b.validator);
    lemma_byte_list_item_unique(a.value, a2, b.value, b2);
    let a3 = address_item(a.validator);
    let b3 = address_item(b.validator);
    lemma_number_item_unique(a.response_type as nat, a3, b.response_type as nat, b3);
    let a4 = Seq::<u8>::empty();
    let b4 = Seq::<u8>::empty();
    assert(a3 =~= address_item(a.validator) + a4);
    assert(b3 =~= address_item(b.validator) + b4);
    lemma_address_item_unique(a.validator, a4, b.validator, b4);
}

impl ExternDataMsg {
    /// Appends the message to `out`.
    pub fn encode(&self, out: &mut Vec<u8>)
        ensures
            final(out)@ == old(out)@ + self@.bytes(),
    {
        let mut items: Vec<u8> = Vec::new();
        items.append(&mut encode_word(&self.request_hash));
        items.append(&mut encode_byte_list(&self.value));
        items.append(&mut encode_u8(self.response_type));
        items.append(&mut encode_address(&self.validator));
        assert(items@ =~= self@.items());
        out.append(&mut encode_list_header(items.len()));
        out.append(&mut items);
        assert(out@ =~= old(out)@ + self@.bytes());
    }

    /// Reads the message that begins `data`: the message and what follows it, or
    /// `None` where `data` begins with no such message.
    pub fn decode(data: &[u8]) -> (r: Option<(ExternDataMsg, &[u8])>)
        ensures
            match r {
                Some((m, rest)) => data_msg_in(data@) == Some((m@, rest@)),
                None => data_msg_in(data@) is None,
            },
    {
        let r = Self::take(data);
        proof {
            if let Some((m, rest)) = &r {
                assert(m@.valid());
                assert(data@ == m@.bytes() + rest@);
                assert(data@.len() == data.len());
                law_data_msg_round_trip(m@, rest@);
            }
        }
        r
    }

    fn take(data: &[u8]) -> (r: Option<(ExternDataMsg, &[u8])>)
        ensures
            r matches Some((m, rest)) ==> data@ == m@.bytes() + rest@,
            r is None ==> forall|m: DataMsgView, rest: Seq<u8>|
                m.valid() ==> data@ != #[trigger] (m.bytes() + rest),
    {
        let ghost fits = |m: DataMsgView, rest: Seq<u8>| m.valid() && data@ == m.bytes() + rest;
        assert forall|m: DataMsgView, rest: Seq<u8>| #[trigger] fits(m, rest) implies data@ == list_header(
            m.items().len(),
        ) + (m.items() + rest) by {
            assert(m.bytes() + rest =~= list_header(m.items().len()) + (m.items() + rest));
        }
        let (length, t0) = match take_list_header(data) {
            Some(found) => found,
            None => {
                assert forall|m: DataMsgView, rest: Seq<u8>| m.valid() implies data@ != #[trigger] (
                m.bytes() + rest) by {
                    assert(!fits(m, rest));
                }
                return None;
            },
        };
        assert forall|m: DataMsgView, rest: Seq<u8>| #[trigger] fits(m, rest) implies t0@ == word_item(m.request_hash) + (byte_list_item(m.value) + (number_item(m.response_type as nat) + (address_item(m.validator) + rest))) by {
            assert(t0@ == m.items() + rest);
            assert(m.items() + rest =~= word_item(m.request_hash) + (byte_list_item(m.value) + (number_item(m.response_type as nat) + (address_item(m.validator) + rest))));
        }
        let (request_hash, t1) = match take_word(t0) {
            Some(found) => found,
            None => {
                assert forall|m: DataMsgView, rest: Seq<u8>| m.valid() implies data@ != #[trigger] (
                m.bytes() + rest) by {
                    assert(!fits(m, rest));
                }
                return None;
            },
        };
        assert forall|m: DataMsgView, rest: Seq<u8>| #[trigger] fits(m, rest) implies t1@ == byte_list_item(m.value) + (number_item(m.response_type as nat) + (address_item(m.validator) + rest)) by {
        }
        let (value, t2) = match take_byte_list(t1) {
            Some(found) => found,
            None => {
                assert forall|m: DataMsgView, rest: Seq<u8>| m.valid() implies data@ != #[trigger] (
                m.bytes() + rest) by {
                    assert(!fits(m, rest));
                }
                return None;
            },
        };
        assert forall|m: DataMsgView, rest: Seq<u8>| #[trigger] fits(m, rest) implies t2@ == number_item(m.response_type as nat) + (address_item(m.validator) + rest) by {
        }
        let (response_type, t3) = match take_u8(t2) {
            Some(found) => found,
            None => {
                assert forall|m: DataMsgView, rest: Seq<u8>| m.valid() implies data@ != #[trigger] (
                m.bytes() + rest) by {
                    assert(!fits(m, rest));
                }
                return None;
            },
        };
        assert forall|m: DataMsgView, rest: Seq<u8>| #[trigger] fits(m, rest) implies t3@ == address_item(m.validator) + rest by {
        }
        let (validator, t4) = match take_address(t3) {
            Some(found) => found,
            None => {
                assert forall|m: DataMsgView, rest: Seq<u8>| m.valid() implies data@ != #[trigger] (
                m.bytes() + rest) by {
                    assert(!fits(m, rest));
                }
                return None;
            },
        };
        let m = ExternDataMsg { request_hash, value, response_type, validator };
        if t0.len() - t4.len() != length {
            assert forall|m: DataMsgView, rest: Seq<u8>| m.valid() implies data@ != #[trigger] (m.bytes()
                + rest) by {
                if fits(m, rest) {
                    assert(t4@ == rest);
                    assert(t0@ == m.items() + rest);
                }
            }
            return None;
        }
        assert(t0@ =~= m@.items() + t4@);
        assert(data@ =~= m@.bytes() + t4@);
        Some((m, t4))
    }
}

/// The first half of commit and reveal: a commitment that hides the value.
#[derive(Clone, Debug, PartialEq, Eq)]
pub struct ExternCommitMsg {
    pub request_hash: B256,
    pub commitment: B256,
    pub validator: Address,
}

/// What an [`ExternCommitMsg`] holds.
pub struct CommitMsgView {
    pub request_hash: Seq<u8>,
    pub commitment: Seq<u8>,
    pub validator: Seq<u8>,
}

impl View for ExternCommitMsg {
    type V = CommitMsgView;

    open spec fn view(&self) -> CommitMsgView {
        CommitMsgView {
            request_hash: self.request_hash@,
            commitment: self.commitment@,
            validator: self.validator@,
        }
    }
}

impl CommitMsgView {
    /// Words take 32 bytes and addresses 20.
    pub open spec fn valid(self) -> bool {
        &&& self.request_hash.len() == 32
        &&& self.commitment.len() == 32
        &&& self.validator.len() == 20
    }

    /// The items of the message, in order.
    pub open spec fn items(self) -> Seq<u8> {
        word_item(self.request_hash) + (word_item(self.commitment) + address_item(self.validator))
    }

    /// The message as a list of its items.
    pub open spec fn bytes(self) -> Seq<u8> {
        list_item(self.items())
    }
}

/// The message that begins `data`, and what follows it.
pub open spec fn commit_msg_in(data: Seq<u8>) -> Option<(CommitMsgView, Seq<u8>)> {
    if exists|m: CommitMsgView, rest: Seq<u8>| m.valid() && data == #[trigger] (m.bytes() + rest) {
        let (m, rest) = choose|m: CommitMsgView, rest: Seq<u8>|
            m.valid() && data == #[trigger] (m.bytes() + rest);
        Some((m, rest))
    } else {
        None
    }
}

/// Decoding gives back what was encoded: the bytes of a message, whatever
/// follows them, are read as that message and that rest.
pub proof fn law_commit_msg_round_trip(m: CommitMsgView, rest: Seq<u8>)
    requires
        m.valid(),
        (m.bytes() + rest).len() <= usize::MAX,
    ensures
        commit_msg_in(m.bytes() + rest) == Some((m, rest)),
{
    let data = m.bytes() + rest;
    assert(m.valid() && data == m.bytes() + rest);
    let (n, after) = commit_msg_in(data)->0;
    assert(n.valid() && data == n.bytes() + after);
    lemma_commit_msg_unique(m, rest, n, after);
}

proof fn lemma_commit_msg_unique(a: CommitMsgView, x: Seq<u8>, b: CommitMsgView, y: Seq<u8>)
    requires
        a.valid(),
        b.valid(),
        a.bytes() + x == b.bytes() + y,
        (a.bytes() + x).len() <= u64::MAX,
    ensures
        a == b,
        x == y,
{
    assert(a.items().len() <= (a.bytes() + x).len());
    assert(b.items().len() <= (b.bytes() + y).len());
    lemma_list_item_unique(a.items(), x, b.items(), y);
    let a1 = word_item(a.commitment) + address_item(a.validator);
    let b1 = word_item(b.commitment) + address_item(b.validator);
    lemma_word_item_unique(a.request_hash, a1, b.request_hash, b1);
    let a2 = address_item(a.validator);
    let b2 = address_item(b.validator);
    lemma_word_item_unique(a.commitment, a2, b.commitment, b2);
    let a3 = Seq::<u8>::empty();
    let b3 = Seq::<u8>::empty();
    assert(a2 =~= address_item(a.validator) + a3);
    assert(b2 =~= address_item(b.validator) + b3);
    lemma_address_item_unique(a.validator, a3, b.validator, b3);
}

impl ExternCommitMsg {
    /// Appends the message to `out`.
    pub fn encode(&self, out: &mut Vec<u8>)
        ensures
            final(out)@ == old(out)@ + self@.bytes(),
    {
        let mut items: Vec<u8> = Vec::new();
        items.append(&mut encode_word(&self.request_hash));
        items.append(&mut encode_word(&self.commitment));
        items.append(&mut encode_address(&self.validator));
        assert(items@ =~= self@.items());
        out.append(&mut encode_list_header(items.len()));
        out.append(&mut items);
        assert(out@ =~= old(out)@ + self@.bytes());
    }

    /// Reads the message that begins `data`: the message and what follows it, or
    /// `None` where `data` begins with no such message.
    pub fn decode(data: &[u8]) -> (r: Option<(ExternCommitMsg, &[u8])>)
        ensures
            match r {
                Some((m, rest)) => commit_msg_in(data@) == Some((m@, rest@)),
                None => commit_msg_in(data@) is None,
            },
    {
        let r = Self::take(data);
        proof {
            if let Some((m, rest)) = &r {
                assert(m@.valid());
                assert(data@ == m@.bytes() + rest@);
                assert(data@.len() == data.len());
                law_commit_msg_round_trip(m@, rest@);
            }
        }
        r
    }

    fn take(data: &[u8]) -> (r: Option<(ExternCommitMsg, &[u8])>)
        ensures
            r matches Some((m, rest)) ==> data@ == m@.bytes() + rest@,
            r is None ==> forall|m: CommitMsgView, rest: Seq<u8>|
                m.valid() ==> data@ != #[trigger] (m.bytes() + rest),
    {
        let ghost fits = |m: CommitMsgView, rest: Seq<u8>| m.valid() && data@ == m.bytes() + rest;
        assert forall|m: CommitMsgView, rest: Seq<u8>| #[trigger] fits(m, rest) implies data@ == list_header(
            m.items().len(),
        ) + (m.items() + rest) by {
            assert(m.bytes() + rest =~= list_header(m.items().len()) + (m.items() + rest));
        }
        let (length, t0) = match take_list_header(data) {
            Some(found) => found,
            None => {
                assert forall|m: CommitMsgView, rest: Seq<u8>| m.valid() implies data@ != #[trigger] (
                m.bytes() + rest) by {
                    assert(!fits(m, rest));
                }
                return None;
            },
        };
        assert forall|m: CommitMsgView, rest: Seq<u8>| #[trigger] fits(m, rest) implies t0@ == word_item(m.request_hash) + (word_item(m.commitment) + (address_item(m.validator) + rest)) by {
            assert(t0@ == m.items() + rest);
            assert(m.items() + rest =~= word_item(m.request_hash) + (word_item(m.commitment) + (address_item(m.validator) + rest)));
        }
        let (request_hash, t1) = match take_word(t0) {
            Some(found) => found,
            None => {
                assert forall|m: CommitMsgView, rest: Seq<u8>| m.valid() implies data@ != #[trigger] (
                m.bytes() + rest) by {
                    assert(!fits(m, rest));
                }
                return None;
            },
        };
        assert forall|m: CommitMsgView, rest: Seq<u8>| #[trigger] fits(m, rest) implies t1@ == word_item(m.commitment) + (address_item(m.validator) + rest) by {
        }
        let (commitment, t2) = match take_word(t1) {
            Some(found) => found,
            None => {
                assert forall|m: CommitMsgView, rest: Seq<u8>| m.valid() implies data@ != #[trigger] (
                m.bytes() + rest) by {
                    assert(!fits(m, rest));
                }
                return None;
            },
        };
        assert forall|m: CommitMsgView, rest: Seq<u8>| #[trigger] fits(m, rest) implies t2@ == address_item(m.validator) + rest by {
        }
        let (validator, t3) = match take_address(t2) {
            Some(found) => found,
            None => {
                assert forall|m: CommitMsgView, rest: Seq<u8>| m.valid() implies data@ != #[trigger] (
                m.bytes() + rest) by {
                    assert(!fits(m, rest));
                }
                return None;
            },
        };
        let m = ExternCommitMsg { request_hash, commitment, validator };
        if t0.len() - t3.len() != length {
            assert forall|m: CommitMsgView, rest: Seq<u8>| m.valid() implies data@ != #[trigger] (m.bytes()
                + rest) by {
                if fits(m, rest) {
                    assert(t3@ == rest);
                    assert(t0@ == m.items() + rest);
                }
            }
            return None;
        }
        assert(t0@ =~= m@.items() + t3@);
        assert(data@ =~= m@.bytes() + t3@);
        Some((m, t3))
    }
}

/// The second half of commit and reveal: the value and the salt that the
/// commitment was made of, and the attestation of the TLS session that the value
/// came from.
#[derive(Clone, Debug, PartialEq, Eq)]
pub struct ExternRevealMsg {
    pub request_hash: B256,
    pub value: Vec<u8>,
    pub salt: B256,
    pub validator: Address,
    pub cert_der: Vec<u8>,
    pub response_hash: B256,
    pub timestamp_secs: u64,
    pub attestation_sig: Vec<u8>,
}

/// What an [`ExternRevealMsg`] holds.
pub struct RevealMsgView {
    pub request_hash: Seq<u8>,
    pub value: Seq<u8>,
    pub salt: Seq<u8>,
    pub validator: Seq<u8>,
    pub cert_der: Seq<u8>,
    pub response_hash: Seq<u8>,
    pub timestamp_secs: u64,
    pub attestation_sig: Seq<u8>,
}

impl View for ExternRevealMsg {
    type V = RevealMsgView;

    open spec fn view(&self) -> RevealMsgView {
        RevealMsgView {
            request_hash: self.request_hash@,
            value: self.value@,
            salt: self.salt@,
            validator: self.validator@,
            cert_der: self.cert_der@,
            response_hash: self.response_hash@,
            timestamp_secs: self.timestamp_secs,
            attestation_sig: self.attestation_sig@,
        }
    }
}

impl RevealMsgView {
    /// Words take 32 bytes and addresses 20.
    pub open spec fn valid(self) -> bool {
        &&& self.request_hash.len() == 32
        &&& self.salt.len() == 32
        &&& self.validator.len() == 20
        &&& self.response_hash.len() == 32
    }

    /// The items of the message, in order.
    pub open spec fn items(self) -> Seq<u8> {
        word_item(self.request_hash) + (byte_list_item(self.value) + (word_item(self.salt) + (address_item(self.validator) + (byte_list_item(self.cert_der) + (word_item(self.response_hash) + (number_item(self.timestamp_secs as nat) + byte_list_item(self.attestation_sig)))))))
    }

    /// The message as a list of its items.
    pub open spec fn bytes(self) -> Seq<u8> {
        list_item(self.items())
    }
}

/// The message that begins `data`, and what follows it.
pub open spec fn reveal_msg_in(data: Seq<u8>) -> Option<(RevealMsgView, Seq<u8>)> {
    if exists|m: RevealMsgView, rest: Seq<u8>| m.valid() && data == #[trigger] (m.bytes() + rest) {
        let (m, rest) = choose|m: RevealMsgView, rest: Seq<u8>|
            m.valid() && data == #[trigger] (m.bytes() + rest);
        Some((m, rest))
    } else {
        None
    }
}

/// Decoding gives back what was encoded: the bytes of a message, whatever
/// follows them, are read as that message and that rest.
pub proof fn law_reveal_msg_round_trip(m: RevealMsgView, rest: Seq<u8>)
    requires
        m.valid(),
        (m.bytes() + rest).len() <= usize::MAX,
    ensures
        reveal_msg_in(m.bytes() + rest) == Some((m, rest)),
{
    let data = m.bytes() + rest;
    assert(m.valid() && data == m.bytes() + rest);
    let (n, after) = reveal_msg_in(data)->0;
    assert(n.valid() && data == n.bytes() + after);
    lemma_reveal_msg_unique(m, rest, n, after);
}

proof fn lemma_reveal_msg_unique(a: RevealMsgView, x: Seq<u8>, b: RevealMsgView, y: Seq<u8>)
    requires
        a.valid(),
        b.valid(),
        a.bytes() + x == b.bytes() + y,
        (a.bytes() + x).len() <= u64::MAX,
    ensures
        a == b,
        x == y,
{
    assert(a.items().len() <= (a.bytes() + x).len());
    assert(b.items().len() <= (b.bytes() + y).len());
    lemma_list_item_unique(a.items(), x, b.items(), y);
    let a1 = byte_list_item(a.value) + (word_item(a.salt) + (address_item(a.validator) + (byte_list_item(a.cert_der) + (word_item(a.response_hash) + (number_item(a.timestamp_secs as nat) + byte_list_item(a.attestation_sig))))));
    let b1 = byte_list_item(b.value) + (word_item(b.salt) + (address_item(b.validator) + (byte_list_item(b.cert_der) + (word_item(b.response_hash) + (number_item(b.timestamp_secs as nat) + byte_list_item(b.attestation_sig))))));
    lemma_word_item_unique(a.request_hash, a1, b.request_hash, b1);
    let a2 = word_item(a.salt) + (address_item(a.validator) + (byte_list_item(a.cert_der) + (word_item(a.response_hash) + (number_item(a.timestamp_secs as nat) + byte_list_item(a.attestation_sig)))));
    let b2 = word_item(b.salt) + (address_item(b.validator) + (byte_list_item(b.cert_der) + (word_item(b.response_hash) + (number_item(b.timestamp_secs as nat) + byte_list_item(b.attestation_sig)))));
    lemma_byte_list_item_unique(a.value, a2, b.value, b2);
    let a3 = address_item(a.validator) + (byte_list_item(a.cert_der) + (word_item(a.response_hash) + (number_item(a.timestamp_secs as nat) + byte_list_item(a.attestation_sig))));
    let b3 = address_item(b.validator) + (byte_list_item(b.cert_der) + (word_item(b.response_hash) + (number_item(b.timestamp_secs as nat) + byte_list_item(b.attestation_sig))));
    lemma_word_item_unique(a.salt, a3, b.salt, b3);
    let a4 = byte_list_item(a.cert_der) + (word_item(a.response_hash) + (number_item(a.timestamp_secs as nat) + byte_list_item(a.attestation_sig)));
    let b4 = byte_list_item(b.cert_der) + (word_item(b.response_hash) + (number_item(b.timestamp_secs as nat) + byte_list_item(b.attestation_sig)));
    lemma_address_item_unique(a.validator, a4, b.validator, b4);
    let a5 = word_item(a.response_hash) + (number_item(a.timestamp_secs as nat) + byte_list_item(a.attestation_sig));
    let b5 = word_item(b.response_hash) + (number_item(b.timestamp_secs as nat) + byte_list_item(b.attestation_sig));
    lemma_byte_list_item_unique(a.cert_der, a5, b.cert_der, b5);
    let a6 = number_item(a.timestamp_secs as nat) + byte_list_item(a.attestation_sig);
    let b6 = number_item(b.timestamp_secs as nat) + byte_list_item(b.attestation_sig);
    lemma_word_item_unique(a.response_hash, a6, b.response_hash, b6);
    let a7 = byte_list_item(a.attestation_sig);
    let b7 = byte_list_item(b.attestation_sig);
    lemma_number_item_unique(a.timestamp_secs as nat, a7, b.timestamp_secs as nat, b7);
    let a8 = Seq::<u8>::empty();
    let b8 = Seq::<u8>::empty();
    assert(a7 =~= byte_list_item(a.attestation_sig) + a8);
    assert(b7 =~= byte_list_item(b.attestation_sig) + b8);
    lemma_byte_list_item_unique(a.attestation_sig, a8, b.attestation_sig, b8);
}

impl ExternRevealMsg {
    /// Appends the message to `out`.
    pub fn encode(&self, out: &mut Vec<u8>)
        ensures
            final(out)@ == old(out)@ + self@.bytes(),
    {
        let mut items: Vec<u8> = Vec::new();
        items.append(&mut encode_word(&self.request_hash));
        items.append(&mut encode_byte_list(&self.value));
        items.append(&mut encode_word(&self.salt));
        items.append(&mut encode_address(&self.validator));
        items.append(&mut encode_byte_list(&self.cert_der));
        items.append(&mut encode_word(&self.response_hash));
        items.append(&mut encode_u64(self.timestamp_secs));
        items.append(&mut encode_byte_list(&self.attestation_sig));
        assert(items@ =~= self@.items());
        out.append(&mut encode_list_header(items.len()));
        out.append(&mut items);
        assert(out@ =~= old(out)@ + self@.bytes());
    }

    /// Reads the message that begins `data`: the message and what follows it, or
    /// `None` where `data` begins with no such message.
    pub fn decode(data: &[u8]) -> (r: Option<(ExternRevealMsg, &[u8])>)
        ensures
            match r {
                Some((m, rest)) => reveal_msg_in(data@) == Some((m@, rest@)),
                None => reveal_msg_in(data@) is None,
            },
    {
        let r = Self::take(data);
        proof {
            if let Some((m, rest)) = &r {
                assert(m@.valid());
                assert(data@ == m@.bytes() + rest@);
                assert(data@.len() == data.len());
                law_reveal_msg_round_trip(m@, rest@);
            }
        }
        r
    }

    #[verifier::rlimit(60)]
    fn take(data: &[u8]) -> (r: Option<(ExternRevealMsg, &[u8])>)
        ensures
            r matches Some((m, rest)) ==> data@ == m@.bytes() + rest@,
            r is None ==> forall|m: RevealMsgView, rest: Seq<u8>|
                m.valid() ==> data@ != #[trigger] (m.bytes() + rest),
    {
        let ghost fits = |m: RevealMsgView, rest: Seq<u8>| m.valid() && data@ == m.bytes() + rest;
        assert forall|m: RevealMsgView, rest: Seq<u8>| #[trigger] fits(m, rest) implies data@ == list_header(
            m.items().len(),
        ) + (m.items() + rest) by {
            assert(m.bytes() + rest =~= list_header(m.items().len()) + (m.items() + rest));
        }
        let (length, t0) = match take_list_header(data) {
            Some(found) => found,
            None => {
                assert forall|m: RevealMsgView, rest: Seq<u8>| m.valid() implies data@ != #[trigger] (
                m.bytes() + rest) by {
                    assert(!fits(m, rest));
                }
                return None;
            },
        };
        assert forall|m: RevealMsgView, rest: Seq<u8>| #[trigger] fits(m, rest) implies t0@ == word_item(m.request_hash) + (byte_list_item(m.value) + (word_item(m.salt) + (address_item(m.validator) + (byte_list_item(m.cert_der) + (word_item(m.response_hash) + (number_item(m.timestamp_secs as nat) + (byte_list_item(m.attestation_sig) + rest))))))) by {
            assert(t0@ == m.items() + rest);
            assert(m.items() + rest =~= word_item(m.request_hash) + (byte_list_item(m.value) + (word_item(m.salt) + (address_item(m.validator) + (byte_list_item(m.cert_der) + (word_item(m.response_hash) + (number_item(m.timestamp_secs as nat) + (byte_list_item(m.attestation_sig) + rest))))))));
        }
        let (request_hash, t1) = match take_word(t0) {
            Some(found) => found,
            None => {
                assert forall|m: RevealMsgView, rest: Seq<u8>| m.valid() implies data@ != #[trigger] (
                m.bytes() + rest) by {
                    assert(!fits(m, rest));
                }
                return None;
            },
        };
        assert forall|m: RevealMsgView, rest: Seq<u8>| #[trigger] fits(m, rest) implies t1@ == byte_list_item(m.value) + (word_item(m.salt) + (address_item(m.validator) + (byte_list_item(m.cert_der) + (word_item(m.response_hash) + (number_item(m.timestamp_secs as nat) + (byte_list_item(m.attestation_sig) + rest)))))) by {
        }
        let (value, t2) = match take_byte_list(t1) {
            Some(found) => found,
            None => {
                assert forall|m: RevealMsgView, rest: Seq<u8>| m.valid() implies data@ != #[trigger] (
                m.bytes() + rest) by {
                    assert(!fits(m, rest));
                }
                return None;
            },
        };
        assert forall|m: RevealMsgView, rest: Seq<u8>| #[trigger] fits(m, rest) implies t2@ == word_item(m.salt) + (address_item(m.validator) + (byte_list_item(m.cert_der) + (word_item(m.response_hash) + (number_item(m.timestamp_secs as nat) + (byte_list_item(m.attestation_sig) + rest))))) by {
        }
        let (salt, t3) = match take_word(t2) {
            Some(found) => found,
            None => {
                assert forall|m: RevealMsgView, rest: Seq<u8>| m.valid() implies data@ != #[trigger] (
                m.bytes() + rest) by {
                    assert(!fits(m, rest));
                }
                return None;
            },
        };
        assert forall|m: RevealMsgView, rest: Seq<u8>| #[trigger] fits(m, rest) implies t3@ == address_item(m.validator) + (byte_list_item(m.cert_der) + (word_item(m.response_hash) + (number_item(m.timestamp_secs as nat) + (byte_list_item(m.attestation_sig) + rest)))) by {
        }
        let (validator, t4) = match take_address(t3) {
            Some(found) => found,
            None => {
                assert forall|m: RevealMsgView, rest: Seq<u8>| m.valid() implies data@ != #[trigger] (
                m.bytes() + rest) by {
                    assert(!fits(m, rest));
                }
                return None;
            },
        };
        assert forall|m: RevealMsgView, rest: Seq<u8>| #[trigger] fits(m, rest) implies t4@ == byte_list_item(m.cert_der) + (word_item(m.response_hash) + (number_item(m.timestamp_secs as nat) + (byte_list_item(m.attestation_sig) + rest))) by {
        }
        let (cert_der, t5) = match take_byte_list(t4) {
            Some(found) => found,
            None => {
                assert forall|m: RevealMsgView, rest: Seq<u8>| m.valid() implies data@ != #[trigger] (
                m.bytes() + rest) by {
                    assert(!fits(m, rest));
                }
                return None;
            },
        };
        assert forall|m: RevealMsgView, rest: Seq<u8>| #[trigger] fits(m, rest) implies t5@ == word_item(m.response_hash) + (number_item(m.timestamp_secs as nat) + (byte_list_item(m.attestation_sig) + rest)) by {
        }
        let (response_hash, t6) = match take_word(t5) {
            Some(found) => found,
            None => {
                assert forall|m: RevealMsgView, rest: Seq<u8>| m.valid() implies data@ != #[trigger] (
                m.bytes() + rest) by {
                    assert(!fits(m, rest));
                }
                return None;
            },
        };
        assert forall|m: RevealMsgView, rest: Seq<u8>| #[trigger] fits(m, rest) implies t6@ == number_item(m.timestamp_secs as nat) + (byte_list_item(m.attestation_sig) + rest) by {
        }
        let (timestamp_secs, t7) = match take_u64(t6) {
            Some(found) => found,
            None => {
                assert forall|m: RevealMsgView, rest: Seq<u8>| m.valid() implies data@ != #[trigger] (
                m.bytes() + rest) by {
                    assert(!fits(m, rest));
                }
                return None;
            },
        };
        assert forall|m: RevealMsgView, rest: Seq<u8>| #[trigger] fits(m, rest) implies t7@ == byte_list_item(m.attestation_sig) + rest by {
        }
        let (attestation_sig, t8) = match take_byte_list(t7) {
            Some(found) => found,
            None => {
                assert forall|m: RevealMsgView, rest: Seq<u8>| m.valid() implies data@ != #[trigger] (
                m.bytes() + rest) by {
                    assert(!fits(m, rest));
                }
                return None;
            },
        };
        let m = ExternRevealMsg { request_hash, value, salt, validator, cert_der, response_hash, timestamp_secs, attestation_sig };
        if t0.len() - t8.len() != length {
            assert forall|m: RevealMsgView, rest: Seq<u8>| m.valid() implies data@ != #[trigger] (m.bytes()
                + rest) by {
                if fits(m, rest) {
                    assert(t8@ == rest);
                    assert(t0@ == m.items() + rest);
                }
            }
            return None;
        }
        assert(t0@ =~= m@.items() + t8@);
        assert(data@ =~= m@.bytes() + t8@);
        Some((m, t8))
    }
}

/// What the hash of a request is taken of: the address, the method and the path
/// in UTF-8, each closed by `0xFF`, and the response type.
pub open spec fn request_preimage(
    url: Seq<char>,
    method: Seq<char>,
    response_path: Seq<char>,
    response_type: u8,
) -> Seq<u8> {
    encode_utf8(url) + (seq![0xFFu8] + (encode_utf8(method) + (seq![0xFFu8] + (encode_utf8(
        response_path,
    ) + seq![0xFFu8, response_type]))))
}

/// The hash that names a request among peers.
pub fn compute_request_hash(
    url: &str,
    method: &str,
    response_path: &str,
    response_type: u8,
) -> (r: B256)
    ensures
        r@ == keccak(request_preimage(url@, method@, response_path@, response_type)),
{
    let mut data: Vec<u8> = Vec::new();
    data.extend_from_slice(url.as_bytes());
    data.push(0xFF);
    data.extend_from_slice(method.as_bytes());
    data.push(0xFF);
    data.extend_from_slice(response_path.as_bytes());
    data.push(0xFF);
    data.push(response_type);
    assert(data@ =~= request_preimage(url@, method@, response_path@, response_type));
    keccak256(data.as_slice())
}

/// What the fetcher signs the hash of: the request's hash, the domain, the hash
/// of the certificate and the hash of the response, each closed by `0xFF`, and
/// the time in eight bytes.
pub open spec fn attestation_preimage(
    request_hash: Seq<u8>,
    domain: Seq<char>,
    cert_fingerprint: Seq<u8>,
    response_hash: Seq<u8>,
    timestamp_secs: u64,
) -> Seq<u8> {
    request_hash + (seq![0xFFu8] + (encode_utf8(domain) + (seq![0xFFu8] + (cert_fingerprint + (seq![
        0xFFu8,
    ] + (response_hash + (seq![0xFFu8] + be_bytes(timestamp_secs))))))))
}

/// The digest that the fetcher signs for a TLS session.
pub open spec fn attestation_digest(
    request_hash: Seq<u8>,
    domain: Seq<char>,
    cert_der: Seq<u8>,
    response_hash: Seq<u8>,
    timestamp_secs: u64,
) -> Seq<u8> {
    keccak(
        attestation_preimage(request_hash, domain, keccak(cert_der), response_hash, timestamp_secs),
    )
}

/// The digest that the fetcher signs for a TLS session, and that its peers check
/// the signature against. The certificate enters by the hash that is taken of it
/// here.
pub fn compute_attestation_digest(
    request_hash: B256,
    domain: &str,
    cert_der: &[u8],
    response_hash: B256,
    timestamp_secs: u64,
) -> (r: B256)
    ensures
        r@ == attestation_digest(
            request_hash@,
            domain@,
            cert_der@,
            response_hash@,
            timestamp_secs,
        ),
{
    let cert_fingerprint = keccak256(cert_der);
    let mut data: Vec<u8> = Vec::new();
    data.extend_from_slice(request_hash.0.as_slice());
    data.push(0xFF);
    data.extend_from_slice(domain.as_bytes());
    data.push(0xFF);
    data.extend_from_slice(cert_fingerprint.0.as_slice());
    data.push(0xFF);
    data.extend_from_slice(response_hash.0.as_slice());
    data.push(0xFF);
    data.append(&mut to_be_bytes(timestamp_secs));
    assert(data@ =~= attestation_preimage(
        request_hash@,
        domain@,
        keccak(cert_der@),
        response_hash@,
        timestamp_secs,
    ));
    keccak256(data.as_slice())
}

/// What a commitment is the hash of.
pub open spec fn commitment_preimage(value: Seq<u8>, salt: Seq<u8>) -> Seq<u8> {
    value + salt
}

/// The commitment to a value under a salt.
pub fn compute_commitment(value: &[u8], salt: &[u8; 32]) -> (r: B256)
    ensures
        r@ == keccak(commitment_preimage(value@, salt@)),
{
    let mut preimage: Vec<u8> = Vec::new();
    preimage.extend_from_slice(value);
    preimage.extend_from_slice(salt.as_slice());
    assert(preimage@ =~= commitment_preimage(value@, salt@));
    keccak256(preimage.as_slice())
}

/// No byte of a text in UTF-8 is `0xFF`.
proof fn lemma_utf8_has_no_ff(s: Seq<char>)
    ensures
        forall|i: int| 0 <= i < encode_utf8(s).len() ==> encode_utf8(s)[i] != 0xFF,
    decreases s.len(),
{
    if s.len() > 0 {
        let c = s[0] as u32;
        assert((c & 0x7F) as u8 != 0xFF && 0xC0 | ((c >> 6) & 0x1F) as u8 != 0xFF && 0xE0 | ((c
            >> 12) & 0x0F) as u8 != 0xFF && 0xF0 | ((c >> 18) & 0x7) as u8 != 0xFF && 0x80 | (c
            & 0x3F) as u8 != 0xFF && 0x80 | ((c >> 6) & 0x3F) as u8 != 0xFF && 0x80 | ((c >> 12)
            & 0x3F) as u8 != 0xFF) by (bit_vector);
        let head = encode_scalar(c);
        let tail = encode_utf8(s.drop_first());
        assert(forall|i: int| 0 <= i < head.len() ==> head[i] != 0xFF);
        lemma_utf8_has_no_ff(s.drop_first());
        assert(encode_utf8(s) == head + tail);
        assert forall|i: int| 0 <= i < encode_utf8(s).len() implies encode_utf8(s)[i] != 0xFF by {
            if i >= head.len() {
                assert(encode_utf8(s)[i] == tail[i - head.len()]);
            }
        }
    }
}

/// A text in UTF-8 that is closed by `0xFF` can be told from what follows it.
proof fn lemma_closed_text(a: Seq<char>, x: Seq<u8>, b: Seq<char>, y: Seq<u8>)
    requires
        encode_utf8(a) + (seq![0xFFu8] + x) == encode_utf8(b) + (seq![0xFFu8] + y),
    ensures
        a == b,
        x == y,
{
    lemma_utf8_has_no_ff(a);
    lemma_utf8_has_no_ff(b);
    let l = encode_utf8(a);
    let r = encode_utf8(b);
    let s = l + (seq![0xFFu8] + x);
    let t = r + (seq![0xFFu8] + y);
    if l.len() < r.len() {
        assert(s[l.len() as int] == 0xFF);
        assert(t[l.len() as int] == r[l.len() as int]);
    }
    if r.len() < l.len() {
        assert(t[r.len() as int] == 0xFF);
        assert(s[r.len() as int] == l[r.len() as int]);
    }
    assert(s.take(l.len() as int) =~= l);
    assert(t.take(r.len() as int) =~= r);
    assert(s.skip(l.len() as int + 1) =~= x);
    assert(t.skip(r.len() as int + 1) =~= y);
    encode_utf8_decode_utf8(a);
    encode_utf8_decode_utf8(b);
}

/// Two requests that are hashed over the same bytes are the same request: no
/// address, method, path or response type can run into its neighbour.
pub proof fn law_request_preimage_is_injective(
    url1: Seq<char>,
    method1: Seq<char>,
    path1: Seq<char>,
    type1: u8,
    url2: Seq<char>,
    method2: Seq<char>,
    path2: Seq<char>,
    type2: u8,
)
    requires
        request_preimage(url1, method1, path1, type1) == request_preimage(
            url2,
            method2,
            path2,
            type2,
        ),
    ensures
        url1 == url2,
        method1 == method2,
        path1 == path2,
        type1 == type2,
{
    let c1 = encode_utf8(path1) + seq![0xFFu8, type1];
    let c2 = encode_utf8(path2) + seq![0xFFu8, type2];
    let b1 = encode_utf8(method1) + (seq![0xFFu8] + c1);
    let b2 = encode_utf8(method2) + (seq![0xFFu8] + c2);
    lemma_closed_text(url1, b1, url2, b2);
    lemma_closed_text(method1, c1, method2, c2);
    assert(c1 =~= encode_utf8(path1) + (seq![0xFFu8] + seq![type1]));
    assert(c2 =~= encode_utf8(path2) + (seq![0xFFu8] + seq![type2]));
    lemma_closed_text(path1, seq![type1], path2, seq![type2]);
    assert(seq![type1][0] == seq![type2][0]);
}

/// Two attestations that are hashed over the same bytes attest the same request,
/// domain, certificate hash, response hash and time.
pub proof fn law_attestation_preimage_is_injective(
    request1: Seq<u8>,
    domain1: Seq<char>,
    fingerprint1: Seq<u8>,
    response1: Seq<u8>,
    time1: u64,
    request2: Seq<u8>,
    domain2: Seq<char>,
    fingerprint2: Seq<u8>,
    response2: Seq<u8>,
    time2: u64,
)
    requires
        request1.len() == 32,
        request2.len() == 32,
        fingerprint1.len() == 32,
        fingerprint2.len() == 32,
        response1.len() == 32,
        response2.len() == 32,
        attestation_preimage(request1, domain1, fingerprint1, response1, time1)
            == attestation_preimage(request2, domain2, fingerprint2, response2, time2),
    ensures
        request1 == request2,
        domain1 == domain2,
        fingerprint1 == fingerprint2,
        response1 == response2,
        time1 == time2,
{
    let d1 = fingerprint1 + (seq![0xFFu8] + (response1 + (seq![0xFFu8] + be_bytes(time1))));
    let d2 = fingerprint2 + (seq![0xFFu8] + (response2 + (seq![0xFFu8] + be_bytes(time2))));
    let c1 = encode_utf8(domain1) + (seq![0xFFu8] + d1);
    let c2 = encode_utf8(domain2) + (seq![0xFFu8] + d2);
    let a1 = attestation_preimage(request1, domain1, fingerprint1, response1, time1);
    let a2 = attestation_preimage(request2, domain2, fingerprint2, response2, time2);
    assert(a1.take(32) =~= request1);
    assert(a2.take(32) =~= request2);
    assert(a1.skip(33) =~= c1);
    assert(a2.skip(33) =~= c2);
    lemma_closed_text(domain1, d1, domain2, d2);
    assert(d1.take(32) =~= fingerprint1);
    assert(d2.take(32) =~= fingerprint2);
    assert(d1.subrange(33, 65) =~= response1);
    assert(d2.subrange(33, 65) =~= response2);
    assert(d1.skip(66) =~= be_bytes(time1));
    assert(d2.skip(66) =~= be_bytes(time2));
    lemma_be_bytes_value(time1);
    lemma_be_bytes_value(time2);
}

/// Two commitments that are taken of the same bytes bind the same value and salt.
pub proof fn law_commitment_preimage_is_injective(
    value1: Seq<u8>,
    salt1: Seq<u8>,
    value2: Seq<u8>,
    salt2: Seq<u8>,
)
    requires
        salt1.len() == 32,
        salt2.len() == 32,
        commitment_preimage(value1, salt1) == commitment_preimage(value2, salt2),
    ensures
        value1 == value2,
        salt1 == salt2,
{
    let a = commitment_preimage(value1, salt1);
    let b = commitment_preimage(value2, salt2);
    assert(a.take(value1.len() as int) =~= value1);
    assert(b.take(value2.len() as int) =~= value2);
    assert(a.skip(value1.len() as int) =~= salt1);
    assert(b.skip(value2.len() as int) =~= salt2);
}

} // verus!

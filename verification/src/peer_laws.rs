//! What messages look like on their way, what they do at a peer, and in which order a
//! connection asks and sends.

use crate::bytes::{be_bytes, be_trimmed, keccak};
use crate::extern_p2p::{
    after_commit, after_data, after_incoming, after_reveal, asked_in, can_come, incoming_fits,
    queued_by, reports, store_after_event, stored_reveal, ActionView, ConnectionView, Event,
    Incoming, Phase,
};
use crate::extern_proto::{
    attestation_digest, attestation_preimage, commit_msg_in, data_msg_in, request_preimage,
    reveal_msg_in, CommitMsgView, DataMsgView, RevealMsgView,
};
use crate::records::{CommitView, SubmissionView};
use crate::rlp::{byte_list_item, list_header, number_item};
use crate::store_view::StoreView;
use vstd::prelude::*;
use vstd::utf8::encode_utf8;

verus! {

/// What names a request is taken of its URL, its method and its response path in UTF-8,
/// with the byte 255 behind each of them, and of its response type.
pub proof fn law_a_request_is_named_by_four_parts(
    url: Seq<char>,
    method: Seq<char>,
    path: Seq<char>,
    response_type: u8,
)
    ensures
        request_preimage(url, method, path, response_type) == encode_utf8(url).push(255)
            + encode_utf8(method).push(255) + encode_utf8(path).push(255).push(response_type),
{
    assert(request_preimage(url, method, path, response_type) =~= encode_utf8(url).push(255)
        + encode_utf8(method).push(255) + encode_utf8(path).push(255).push(response_type));
}

/// What a fetcher signs is taken of the request's hash, the domain, the certificate's
/// hash and the response's hash, with the byte 255 behind each of them, and of the time
/// in eight bytes.
pub proof fn law_an_attestation_is_taken_of_five_parts(
    request_hash: Seq<u8>,
    domain: Seq<char>,
    cert_der: Seq<u8>,
    response_hash: Seq<u8>,
    timestamp_secs: u64,
)
    ensures
        attestation_digest(request_hash, domain, cert_der, response_hash, timestamp_secs) == keccak(
            request_hash.push(255) + encode_utf8(domain).push(255) + keccak(cert_der).push(255)
                + response_hash.push(255) + be_bytes(timestamp_secs),
        ),
{
    assert(attestation_preimage(
        request_hash,
        domain,
        keccak(cert_der),
        response_hash,
        timestamp_secs,
    ) =~= request_hash.push(255) + encode_utf8(domain).push(255) + keccak(cert_der).push(255)
        + response_hash.push(255) + be_bytes(timestamp_secs));
}

/// A value in the open is a list of the request's hash, the value, the response type and
/// the validator.
pub proof fn law_a_data_message_lists_its_fields(m: DataMsgView)
    ensures
        ({
            let items = m.request_hash.insert(0, 0xa0) + byte_list_item(m.value) + number_item(
                m.response_type as nat,
            ) + m.validator.insert(0, 0x94);
            m.bytes() == list_header(items.len()) + items
        }),
{
    let items = m.request_hash.insert(0, 0xa0) + byte_list_item(m.value) + number_item(
        m.response_type as nat,
    ) + m.validator.insert(0, 0x94);
    assert(m.items() =~= items);
}

/// A commitment is a list of the request's hash, the commitment and the validator: 87
/// bytes of items, and so 89 bytes in all.
pub proof fn law_a_commit_message_lists_its_fields(m: CommitMsgView)
    requires
        m.request_hash.len() == 32,
        m.commitment.len() == 32,
        m.validator.len() == 20,
    ensures
        m.valid(),
        m.bytes().len() == 89,
        m.bytes().take(3) == seq![0xf8u8, 87, 0xa0],
        m.bytes().subrange(3, 35) == m.request_hash,
        m.bytes()[35] == 0xa0,
        m.bytes().subrange(36, 68) == m.commitment,
        m.bytes()[68] == 0x94,
        m.bytes().skip(69) == m.validator,
{
    assert(m.items().len() == 87);
    reveal_with_fuel(be_trimmed, 3);
    assert(list_header(87) =~= seq![0xf8u8, 87]);
    assert(m.bytes().take(3) =~= seq![0xf8u8, 87, 0xa0]);
    assert(m.bytes().subrange(3, 35) =~= m.request_hash);
    assert(m.bytes().subrange(36, 68) =~= m.commitment);
    assert(m.bytes().skip(69) =~= m.validator);
}

/// A reveal is a list of the request's hash, the value, the salt, the validator, the
/// certificate, the response's hash, the time and the signature.
pub proof fn law_a_reveal_message_lists_its_fields(m: RevealMsgView)
    ensures
        ({
            let items = m.request_hash.insert(0, 0xa0) + byte_list_item(m.value) + m.salt.insert(
                0,
                0xa0,
            ) + m.validator.insert(0, 0x94) + byte_list_item(m.cert_der) + m.response_hash.insert(
                0,
                0xa0,
            ) + number_item(m.timestamp_secs as nat) + byte_list_item(m.attestation_sig);
            m.bytes() == list_header(items.len()) + items
        }),
{
    let items = m.request_hash.insert(0, 0xa0) + byte_list_item(m.value) + m.salt.insert(0, 0xa0)
        + m.validator.insert(0, 0x94) + byte_list_item(m.cert_der) + m.response_hash.insert(0, 0xa0)
        + number_item(m.timestamp_secs as nat) + byte_list_item(m.attestation_sig);
    assert(m.items() =~= items);
}

/// Whether a message is readable depends on the lengths of its words and addresses only.
pub proof fn law_messages_are_valid_by_their_lengths(
    d: DataMsgView,
    c: CommitMsgView,
    r: RevealMsgView,
)
    ensures
        d.valid() <==> d.request_hash.len() == 32 && d.validator.len() == 20,
        c.valid() <==> c.request_hash.len() == 32 && c.commitment.len() == 32 && c.validator.len()
            == 20,
        r.valid() <==> r.request_hash.len() == 32 && r.salt.len() == 32 && r.validator.len() == 20
            && r.response_hash.len() == 32,
{
}

/// A value in the open registers its validator and joins the submissions of its request,
/// as one for block zero, exactly where it is not refused; nothing else changes.
pub proof fn law_a_data_message_submits_its_value(v: StoreView, m: DataMsgView, other: Seq<u8>)
    ensures
        ({
            let w = v.with_validator(m.validator);
            let after = after_data(v, m);
            let s = SubmissionView {
                request_id: m.request_hash,
                validator: m.validator,
                value: m.value,
                block_submitted: 0,
            };
            &&& after.validators == w.validators
            &&& w.submission_fault(m.request_hash, m.validator, 0) is None
                ==> after.submissions.get(m.request_hash) == Some(
                v.submissions[m.request_hash].push(s),
            )
            &&& w.submission_fault(m.request_hash, m.validator, 0) is Some ==> after.submissions
                == v.submissions
            &&& other != m.request_hash ==> after.submissions.get(other) == v.submissions.get(other)
            &&& after == (StoreView {
                validators: after.validators,
                submissions: after.submissions,
                ..v
            })
        }),
{
}

/// A commitment registers its validator and is stored with the time of its arrival, in
/// the place of an earlier one; nothing else changes.
pub proof fn law_a_commit_message_stores_its_commitment(
    v: StoreView,
    m: CommitMsgView,
    received_at_ms: u64,
)
    ensures
        ({
            let after = after_commit(v, m, received_at_ms);
            &&& after.validators == v.with_validator(m.validator).validators
            &&& after.commits == v.commits.insert(
                (m.request_hash, m.validator),
                CommitView {
                    request_hash: m.request_hash,
                    validator: m.validator,
                    commitment: m.commitment,
                    received_at_ms,
                },
            )
            &&& after == (StoreView { validators: after.validators, commits: after.commits, ..v })
        }),
{
}

/// A reveal registers its validator and is stored field by field, marked as verified
/// exactly where the hash of its value and its salt is what its validator committed to
/// for its request; nothing else changes.
pub proof fn law_a_reveal_message_stores_its_reveal(v: StoreView, m: RevealMsgView)
    ensures
        ({
            let after = after_reveal(v, m);
            let k = (m.request_hash, m.validator);
            let r = stored_reveal(v, m);
            &&& after.validators == v.with_validator(m.validator).validators
            &&& after.reveals == v.reveals.insert(k, r)
            &&& after == (StoreView { validators: after.validators, reveals: after.reveals, ..v })
            &&& r.request_hash == m.request_hash
            &&& r.validator == m.validator
            &&& r.value == m.value
            &&& r.salt == m.salt
            &&& r.cert_der == m.cert_der
            &&& r.response_hash == m.response_hash
            &&& r.timestamp_secs == m.timestamp_secs
            &&& r.attestation_sig == m.attestation_sig
            &&& r.verified <==> v.commits.dom().contains(k) && v.commits[k].commitment == keccak(
                m.value + m.salt,
            )
        }),
{
}

/// The first byte tells the kind of a message: 0 a value, 1 a commitment, 2 a reveal.
/// The bytes behind it are read as a message of that kind, and what follows the message
/// does not count. Any other first byte, and no byte at all, change nothing.
pub proof fn law_the_first_byte_tells_the_kind(v: StoreView, data: Seq<u8>, received_at_ms: u64)
    ensures
        data.len() == 0 || data[0] > 2 ==> after_incoming(v, data, received_at_ms) == v,
        data.len() > 0 && data[0] == 0 ==> match data_msg_in(data.skip(1)) {
            Some((m, _)) => after_incoming(v, data, received_at_ms) == after_data(v, m),
            None => after_incoming(v, data, received_at_ms) == v,
        },
        data.len() > 0 && data[0] == 1 ==> match commit_msg_in(data.skip(1)) {
            Some((m, _)) => after_incoming(v, data, received_at_ms) == after_commit(
                v,
                m,
                received_at_ms,
            ),
            None => after_incoming(v, data, received_at_ms) == v,
        },
        data.len() > 0 && data[0] == 2 ==> match reveal_msg_in(data.skip(1)) {
            Some((m, _)) => after_incoming(v, data, received_at_ms) == after_reveal(v, m),
            None => after_incoming(v, data, received_at_ms) == v,
        },
{
}

/// Bytes can be handled wherever they carry no value in the open, or one for a request
/// whose window ends within 64 bits.
pub proof fn law_bytes_fit_where_their_window_does(v: StoreView, data: Seq<u8>)
    ensures
        data.len() == 0 || data[0] != 0 || data_msg_in(data.skip(1)) is None ==> incoming_fits(
            v,
            data,
        ),
        data.len() > 0 && data[0] == 0 ==> (data_msg_in(data.skip(1)) matches Some((m, _))
            ==> incoming_fits(v, data) == v.window_fits(m.request_hash)),
{
}

/// What is queued for a message is one row of bytes: its kind and its list. Nothing else
/// queues anything.
pub proof fn law_each_message_is_queued_under_its_kind(event: Event)
    ensures
        match event {
            Event::Data(m) => queued_by(event) == seq![m@.bytes().insert(0, 0)],
            Event::Commit(m) => queued_by(event) == seq![m@.bytes().insert(0, 1)],
            Event::Reveal(m) => queued_by(event) == seq![m@.bytes().insert(0, 2)],
            _ => queued_by(event) == Seq::<Seq<u8>>::empty(),
        },
{
    match event {
        Event::Data(m) => {
            assert(seq![0u8] + m@.bytes() =~= m@.bytes().insert(0, 0));
        },
        Event::Commit(m) => {
            assert(seq![1u8] + m@.bytes() =~= m@.bytes().insert(0, 1));
        },
        Event::Reveal(m) => {
            assert(seq![2u8] + m@.bytes() =~= m@.bytes().insert(0, 2));
        },
        _ => {},
    }
}

/// A report tells of the bytes that came what they were: nothing, of no known kind, no
/// message of their kind, or the message that they begin with, and of that whether its
/// value was refused and why, or whether it matched its commitment.
pub proof fn law_a_report_tells_what_came(v: StoreView, data: Seq<u8>, r: Incoming)
    requires
        reports(v, data, r),
    ensures
        r is Nothing <==> data.len() == 0,
        r is Unknown <==> data.len() > 0 && data[0] > 2,
        r matches Incoming::Unknown(id) ==> id == data[0],
        r matches Incoming::Unreadable(id) ==> id == data[0],
        data.len() > 0 && data[0] == 0 ==> match data_msg_in(data.skip(1)) {
            Some((m, _)) => r matches Incoming::Data(told, refused) && told@ == m && (match refused {
                Some(fault) => v.with_validator(m.validator).submission_fault(
                    m.request_hash,
                    m.validator,
                    0,
                ) == Some(fault@),
                None => v.with_validator(m.validator).submission_fault(
                    m.request_hash,
                    m.validator,
                    0,
                ) is None,
            }),
            None => r is Unreadable,
        },
        data.len() > 0 && data[0] == 1 ==> match commit_msg_in(data.skip(1)) {
            Some((m, _)) => r matches Incoming::Commit(told) && told@ == m,
            None => r is Unreadable,
        },
        data.len() > 0 && data[0] == 2 ==> match reveal_msg_in(data.skip(1)) {
            Some((m, _)) => r matches Incoming::Reveal(told, matched) && told@ == m && (matched
                <==> v.commits.dom().contains((m.request_hash, m.validator)) && v.commits[(
                m.request_hash,
                m.validator,
            )].commitment == keccak(m.value + m.salt)),
            None => r is Unreadable,
        },
{
}

/// Only what a peer sent changes the store.
pub proof fn law_only_the_peer_changes_the_store(v: StoreView, event: Event, received_at_ms: u64)
    ensures
        event matches Event::PeerSent(data) ==> store_after_event(v, event, received_at_ms)
            == after_incoming(v, data@, received_at_ms),
        !(event is PeerSent) ==> store_after_event(v, event, received_at_ms) == v,
{
}

/// A round begins by sending what waits longest, where anything does, and asks the peer
/// only otherwise.
pub proof fn law_a_round_sends_what_waits_before_it_asks(c: ConnectionView)
    ensures
        c.queue.len() > 0 ==> c.after(Event::Polled).1 == ActionView::Send(c.queue[0])
            && c.after(Event::Polled).0.phase == Phase::Start && c.after(Event::Polled).0.queue
            == c.queue.subrange(1, c.queue.len() as int),
        c.queue.len() == 0 ==> c.after(Event::Polled).1 == ActionView::AskPeer
            && c.after(Event::Polled).0 == (ConnectionView { phase: Phase::Peer, ..c }),
{
}

/// The peer is asked until it is silent; then the channel of values, the channel of
/// commitments and the channel of reveals are asked, each until it is empty; and then
/// the message that waits longest is sent, or the round ends in waiting.
pub proof fn law_a_round_asks_in_order(c: ConnectionView, event: Event)
    requires
        can_come(c.phase, event),
    ensures
        event is PeerSent ==> c.after(event) == (c, ActionView::AskPeer),
        event is PeerSilent ==> c.after(event) == (
            ConnectionView { phase: Phase::Data, ..c },
            ActionView::AskData,
        ),
        event is ChannelEmpty && c.phase == Phase::Data ==> c.after(event) == (
            ConnectionView { phase: Phase::Commit, ..c },
            ActionView::AskCommit,
        ),
        event is ChannelEmpty && c.phase == Phase::Commit ==> c.after(event) == (
            ConnectionView { phase: Phase::Reveal, ..c },
            ActionView::AskReveal,
        ),
        event is ChannelEmpty && c.phase == Phase::Reveal && c.queue.len() > 0 ==> c.after(event)
            == (
            ConnectionView {
                phase: Phase::Start,
                queue: c.queue.subrange(1, c.queue.len() as int),
            },
            ActionView::Send(c.queue[0]),
        ),
        event is ChannelEmpty && c.phase == Phase::Reveal && c.queue.len() == 0 ==> c.after(event)
            == (ConnectionView { phase: Phase::Start, ..c }, ActionView::Wait),
{
}

/// A message of a channel joins the queue at its end, lost messages change nothing, and
/// the same channel is asked again.
pub proof fn law_a_channel_is_asked_until_it_is_empty(c: ConnectionView, event: Event)
    requires
        can_come(c.phase, event),
        event is Data || event is Commit || event is Reveal || event is ChannelLagged,
    ensures
        c.after(event).0 == (ConnectionView { queue: c.queue + queued_by(event), ..c }),
        c.after(event).1 == (match c.phase {
            Phase::Data => ActionView::AskData,
            Phase::Commit => ActionView::AskCommit,
            _ => ActionView::AskReveal,
        }),
        event is ChannelLagged ==> c.after(event).0 == c,
{
    if event is ChannelLagged {
        assert(c.queue + queued_by(event) =~= c.queue);
    }
}

/// A closed peer and a closed channel close the stream, at any place of the round, and
/// nothing else does.
pub proof fn law_a_stream_closes_with_its_peer_or_a_channel(c: ConnectionView, event: Event)
    requires
        can_come(c.phase, event),
    ensures
        c.after(event).1 is Close <==> event is PeerClosed || event is ChannelClosed,
        c.after(event).1 is Close ==> c.after(event).0 == (ConnectionView {
            phase: Phase::Start,
            ..c
        }),
{
}

/// In each phase exactly the answers to what was asked for there can come.
pub proof fn law_only_answers_come_in_a_phase(phase: Phase, event: Event)
    ensures
        phase == Phase::Start ==> (can_come(phase, event) <==> event is Polled),
        phase == Phase::Peer ==> (can_come(phase, event) <==> event is PeerSent || event is PeerClosed
            || event is PeerSilent),
        phase == Phase::Data ==> (can_come(phase, event) <==> event is Data || event is ChannelEmpty
            || event is ChannelClosed || event is ChannelLagged),
        phase == Phase::Commit ==> (can_come(phase, event) <==> event is Commit
            || event is ChannelEmpty || event is ChannelClosed || event is ChannelLagged),
        phase == Phase::Reveal ==> (can_come(phase, event) <==> event is Reveal
            || event is ChannelEmpty || event is ChannelClosed || event is ChannelLagged),
        asked_in(Phase::Start) == ActionView::Wait,
{
}

} // verus!

//! The `extern/1` subprotocol: what a message from a peer does to the store, and
//! what is sent to a peer in which order.

use crate::extern_proto::{
    commit_msg_in, data_msg_in, law_commit_msg_round_trip, law_data_msg_round_trip,
    law_reveal_msg_round_trip, reveal_msg_in, CommitMsgView, DataMsgView, ExternCommitMsg,
    ExternDataMsg, ExternRevealMsg, RevealMsgView, MSG_TYPE_COMMIT, MSG_TYPE_DATA, MSG_TYPE_REVEAL,
};
use crate::primitives::bytes_to_vec;
use crate::protocol_store::{ProtocolStore, ValidatorCommit};
use crate::records::{CommitView, RequestStatus, RevealView, SubmissionView};
use crate::store_view::{StoreView, SUBMISSION_WINDOW};
use std::collections::VecDeque;
use vstd::prelude::*;
use vstd::slice::slice_subrange;

verus! {

/// The name of the subprotocol.
pub const EXTERN_PROTO_NAME: &'static str = "extern";

/// The version of the subprotocol.
pub const EXTERN_PROTO_VERSION: usize = 1;

/// How many kinds of messages the subprotocol has.
pub const EXTERN_PROTO_MSG_COUNT: u8 = 3;

/// What a value sent in the open does to a store: its validator is registered, and
/// the value is submitted for block zero, where it is not refused.
pub open spec fn after_data(v: StoreView, m: DataMsgView) -> StoreView {
    let w = v.with_validator(m.validator);
    if w.submission_fault(m.request_hash, m.validator, 0) is None {
        w.with_submission(
            SubmissionView {
                request_id: m.request_hash,
                validator: m.validator,
                value: m.value,
                block_submitted: 0,
            },
        )
    } else {
        w
    }
}

/// What a commitment does to a store: its validator is registered, and the
/// commitment is stored.
pub open spec fn after_commit(v: StoreView, m: CommitMsgView, received_at_ms: u64) -> StoreView {
    v.with_validator(m.validator).with_commit(
        CommitView {
            request_hash: m.request_hash,
            validator: m.validator,
            commitment: m.commitment,
            received_at_ms,
        },
    )
}

/// What is stored of a reveal.
pub open spec fn stored_reveal(v: StoreView, m: RevealMsgView) -> RevealView {
    RevealView {
        request_hash: m.request_hash,
        validator: m.validator,
        value: m.value,
        salt: m.salt,
        verified: v.matches_commit(m.request_hash, m.validator, m.value, m.salt),
        cert_der: m.cert_der,
        response_hash: m.response_hash,
        timestamp_secs: m.timestamp_secs,
        attestation_sig: m.attestation_sig,
    }
}

/// What a reveal does to a store: its validator is registered, and the reveal is
/// stored, with whether it matches the commitment.
pub open spec fn after_reveal(v: StoreView, m: RevealMsgView) -> StoreView {
    v.with_validator(m.validator).with_reveal(stored_reveal(v, m))
}

/// What the bytes of a peer do to a store. Those that are no message do nothing.
pub open spec fn after_incoming(v: StoreView, data: Seq<u8>, received_at_ms: u64) -> StoreView {
    if data.len() == 0 {
        v
    } else if data[0] == MSG_TYPE_DATA {
        match data_msg_in(data.skip(1)) {
            Some((m, _)) => after_data(v, m),
            None => v,
        }
    } else if data[0] == MSG_TYPE_COMMIT {
        match commit_msg_in(data.skip(1)) {
            Some((m, _)) => after_commit(v, m, received_at_ms),
            None => v,
        }
    } else if data[0] == MSG_TYPE_REVEAL {
        match reveal_msg_in(data.skip(1)) {
            Some((m, _)) => after_reveal(v, m),
            None => v,
        }
    } else {
        v
    }
}

/// Whether the submission window of the request that the bytes of a peer carry a
/// value for ends within 64 bits.
pub open spec fn incoming_fits(v: StoreView, data: Seq<u8>) -> bool {
    data.len() > 0 && data[0] == MSG_TYPE_DATA ==> (data_msg_in(data.skip(1)) matches Some((m, _))
        ==> v.window_fits(m.request_hash))
}

/// What became of the bytes of a peer.
#[derive(Debug)]
pub enum Incoming {
    /// There were none.
    Nothing,
    /// Their first byte is that of no message.
    Unknown(u8),
    /// They are no message of the kind that their first byte tells.
    Unreadable(u8),
    /// A value in the open, and why it was refused, if it was.
    Data(ExternDataMsg, Option<String>),
    /// A commitment.
    Commit(ExternCommitMsg),
    /// A reveal, and whether it matched its commitment.
    Reveal(ExternRevealMsg, bool),
}

/// Whether a report tells what became of the bytes of a peer.
pub open spec fn reports(v: StoreView, data: Seq<u8>, r: Incoming) -> bool {
    match r {
        Incoming::Nothing => data.len() == 0,
        Incoming::Unknown(id) => data.len() > 0 && id == data[0] && id != MSG_TYPE_DATA && id
            != MSG_TYPE_COMMIT && id != MSG_TYPE_REVEAL,
        Incoming::Unreadable(id) => data.len() > 0 && id == data[0] && {
            ||| id == MSG_TYPE_DATA && data_msg_in(data.skip(1)) is None
            ||| id == MSG_TYPE_COMMIT && commit_msg_in(data.skip(1)) is None
            ||| id == MSG_TYPE_REVEAL && reveal_msg_in(data.skip(1)) is None
        },
        Incoming::Data(message, refused) => data.len() > 0 && data[0] == MSG_TYPE_DATA && (
        data_msg_in(data.skip(1)) matches Some((m, _)) && m == message@) && (match refused {
            Some(fault) => Some(fault@),
            None => None,
        }) == v.with_validator(message@.validator).submission_fault(
            message@.request_hash,
            message@.validator,
            0,
        ),
        Incoming::Commit(message) => data.len() > 0 && data[0] == MSG_TYPE_COMMIT && (commit_msg_in(
            data.skip(1),
        ) matches Some((m, _)) && m == message@),
        Incoming::Reveal(message, matched) => data.len() > 0 && data[0] == MSG_TYPE_REVEAL && (
        reveal_msg_in(data.skip(1)) matches Some((m, _)) && m == message@) && matched
            == v.matches_commit(
            message@.request_hash,
            message@.validator,
            message@.value,
            message@.salt,
        ),
    }
}

fn take_data(store: &mut ProtocolStore, message: ExternDataMsg) -> (r: Incoming)
    requires
        old(store).wf(),
        old(store)@.window_fits(message@.request_hash),
    ensures
        final(store).wf(),
        final(store)@ == after_data(old(store)@, message@),
        r matches Incoming::Data(m, refused) && m == message && (match refused {
            Some(fault) => Some(fault@),
            None => None,
        }) == old(store)@.with_validator(message@.validator).submission_fault(
            message@.request_hash,
            message@.validator,
            0,
        ),
{
    store.register_validator(message.validator);
    let value = bytes_to_vec(message.value.as_slice());
    let refused = match store.submit_value(message.request_hash, message.validator, value, 0) {
        Ok(_) => None,
        Err(fault) => Some(fault),
    };
    Incoming::Data(message, refused)
}

fn take_commit(store: &mut ProtocolStore, message: ExternCommitMsg, received_at_ms: u64) -> (r:
    Incoming)
    requires
        old(store).wf(),
    ensures
        final(store).wf(),
        final(store)@ == after_commit(old(store)@, message@, received_at_ms),
        r == Incoming::Commit(message),
{
    store.register_validator(message.validator);
    store.store_commit(
        ValidatorCommit {
            request_hash: message.request_hash,
            validator: message.validator,
            commitment: message.commitment,
            received_at_ms,
        },
    );
    Incoming::Commit(message)
}

fn take_reveal(store: &mut ProtocolStore, message: ExternRevealMsg) -> (r: Incoming)
    requires
        old(store).wf(),
    ensures
        final(store).wf(),
        final(store)@ == after_reveal(old(store)@, message@),
        r == Incoming::Reveal(
            message,
            old(store)@.matches_commit(
                message@.request_hash,
                message@.validator,
                message@.value,
                message@.salt,
            ),
        ),
{
    store.register_validator(message.validator);
    let matched = store.store_reveal(
        message.request_hash,
        message.validator,
        bytes_to_vec(message.value.as_slice()),
        message.salt.0,
        bytes_to_vec(message.cert_der.as_slice()),
        message.response_hash,
        message.timestamp_secs,
        bytes_to_vec(message.attestation_sig.as_slice()),
    );
    Incoming::Reveal(message, matched)
}

/// Does to the store what the bytes of a peer ask for, and tells what became of
/// them.
pub fn handle_incoming(store: &mut ProtocolStore, data: &[u8], received_at_ms: u64) -> (r: Incoming)
    requires
        old(store).wf(),
        incoming_fits(old(store)@, data@),
    ensures
        final(store).wf(),
        final(store)@ == after_incoming(old(store)@, data@, received_at_ms),
        reports(old(store)@, data@, r),
{
    if data.len() == 0 {
        return Incoming::Nothing;
    }
    let id: u8 = data[0];
    let payload = slice_subrange(data, 1, data.len());
    assert(payload@ =~= data@.skip(1));
    if id == MSG_TYPE_DATA {
        match ExternDataMsg::decode(payload) {
            Some((message, _)) => take_data(store, message),
            None => Incoming::Unreadable(id),
        }
    } else if id == MSG_TYPE_COMMIT {
        match ExternCommitMsg::decode(payload) {
            Some((message, _)) => take_commit(store, message, received_at_ms),
            None => Incoming::Unreadable(id),
        }
    } else if id == MSG_TYPE_REVEAL {
        match ExternRevealMsg::decode(payload) {
            Some((message, _)) => take_reveal(store, message),
            None => Incoming::Unreadable(id),
        }
    } else {
        Incoming::Unknown(id)
    }
}

/// Whether the submission window of the request that the bytes of a peer carry a
/// value for ends within 64 bits, as `handle_incoming` asks.
pub fn can_handle(store: &ProtocolStore, data: &[u8]) -> (r: bool)
    requires
        store.wf(),
    ensures
        r == incoming_fits(store@, data@),
{
    if data.len() == 0 || data[0] != MSG_TYPE_DATA {
        return true;
    }
    let payload = slice_subrange(data, 1, data.len());
    assert(payload@ =~= data@.skip(1));
    match ExternDataMsg::decode(payload) {
        None => true,
        Some((message, _)) => match store.get_request(&message.request_hash) {
            None => true,
            Some(request) => request.status != RequestStatus::Pending || request.block_created
                <= u64::MAX - SUBMISSION_WINDOW,
        },
    }
}

/// Where a connection is in a round of polling: before it, at its peer, or at one
/// of the three channels whose messages go out.
#[derive(Clone, Copy, Debug, PartialEq, Eq, Structural)]
pub enum Phase {
    Start,
    Peer,
    Data,
    Commit,
    Reveal,
}

/// A connection to a peer: where it is in a round of polling, and what waits to be
/// sent.
#[derive(Debug)]
pub struct Connection {
    phase: Phase,
    pending_out: VecDeque<Vec<u8>>,
}

/// What a connection holds.
#[verifier::ext_equal]
pub struct ConnectionView {
    pub phase: Phase,
    pub queue: Seq<Seq<u8>>,
}

impl View for Connection {
    type V = ConnectionView;

    closed spec fn view(&self) -> ConnectionView {
        ConnectionView {
            phase: self.phase,
            queue: self.pending_out@.map_values(|m: Vec<u8>| m@),
        }
    }
}

/// What happened: a round of polling begins, or what was asked for came.
#[derive(Debug)]
pub enum Event {
    /// A round begins.
    Polled,
    /// The peer sent some bytes.
    PeerSent(Vec<u8>),
    /// The peer closed the connection.
    PeerClosed,
    /// The peer has sent nothing more.
    PeerSilent,
    /// A value to send in the open.
    Data(ExternDataMsg),
    /// A commitment to send.
    Commit(ExternCommitMsg),
    /// A reveal to send.
    Reveal(ExternRevealMsg),
    /// The channel holds nothing more.
    ChannelEmpty,
    /// The channel is closed.
    ChannelClosed,
    /// The channel has lost messages.
    ChannelLagged,
}

/// What to do next.
#[derive(Debug)]
pub enum Action {
    /// Send a message to the peer: the round is over.
    Send(Vec<u8>),
    /// Close the stream: the round is over.
    Close,
    /// Ask to be polled again: the round is over.
    Wait,
    /// Ask the peer for bytes.
    AskPeer,
    /// Ask the channel of values for a message.
    AskData,
    /// Ask the channel of commitments for a message.
    AskCommit,
    /// Ask the channel of reveals for a message.
    AskReveal,
}

/// What an action says.
pub enum ActionView {
    Send(Seq<u8>),
    Close,
    Wait,
    AskPeer,
    AskData,
    AskCommit,
    AskReveal,
}

impl View for Action {
    type V = ActionView;

    open spec fn view(&self) -> ActionView {
        match self {
            Action::Send(message) => ActionView::Send(message@),
            Action::Close => ActionView::Close,
            Action::Wait => ActionView::Wait,
            Action::AskPeer => ActionView::AskPeer,
            Action::AskData => ActionView::AskData,
            Action::AskCommit => ActionView::AskCommit,
            Action::AskReveal => ActionView::AskReveal,
        }
    }
}

/// Whether an event can come in a phase: the answer to what was asked for there.
pub open spec fn can_come(phase: Phase, event: Event) -> bool {
    match event {
        Event::Polled => phase == Phase::Start,
        Event::PeerSent(_) | Event::PeerClosed | Event::PeerSilent => phase == Phase::Peer,
        Event::Data(_) => phase == Phase::Data,
        Event::Commit(_) => phase == Phase::Commit,
        Event::Reveal(_) => phase == Phase::Reveal,
        Event::ChannelEmpty | Event::ChannelClosed | Event::ChannelLagged => phase == Phase::Data
            || phase == Phase::Commit || phase == Phase::Reveal,
    }
}

/// The message that an event queues for the peer: its kind and its bytes.
pub open spec fn queued_by(event: Event) -> Seq<Seq<u8>> {
    match event {
        Event::Data(m) => seq![seq![MSG_TYPE_DATA] + m@.bytes()],
        Event::Commit(m) => seq![seq![MSG_TYPE_COMMIT] + m@.bytes()],
        Event::Reveal(m) => seq![seq![MSG_TYPE_REVEAL] + m@.bytes()],
        _ => seq![],
    }
}

/// What is asked for in a phase.
pub open spec fn asked_in(phase: Phase) -> ActionView {
    match phase {
        Phase::Start => ActionView::Wait,
        Phase::Peer => ActionView::AskPeer,
        Phase::Data => ActionView::AskData,
        Phase::Commit => ActionView::AskCommit,
        Phase::Reveal => ActionView::AskReveal,
    }
}

impl ConnectionView {
    /// A connection that goes on in a phase.
    pub open spec fn in_phase(self, phase: Phase) -> (ConnectionView, ActionView) {
        (ConnectionView { phase, ..self }, asked_in(phase))
    }

    /// A round that ends by sending the first message that waits, or, where none
    /// does, goes on in a phase.
    pub open spec fn send_or(self, phase: Phase) -> (ConnectionView, ActionView) {
        if self.queue.len() > 0 {
            (
                ConnectionView { phase: Phase::Start, queue: self.queue.skip(1) },
                ActionView::Send(self.queue[0]),
            )
        } else {
            self.in_phase(phase)
        }
    }

    /// What an event makes of a connection, and what to do next. A round sends what
    /// waits, before anything else; then it takes what the peer sent, queues what
    /// the channels hold, and sends the first message of the queue.
    pub open spec fn after(self, event: Event) -> (ConnectionView, ActionView) {
        match event {
            Event::Polled => self.send_or(Phase::Peer),
            Event::PeerSent(_) => self.in_phase(Phase::Peer),
            Event::PeerSilent => self.in_phase(Phase::Data),
            Event::PeerClosed | Event::ChannelClosed => (
                ConnectionView { phase: Phase::Start, ..self },
                ActionView::Close,
            ),
            Event::Data(_) | Event::Commit(_) | Event::Reveal(_) => (
                ConnectionView { queue: self.queue + queued_by(event), ..self },
                asked_in(self.phase),
            ),
            Event::ChannelLagged => self.in_phase(self.phase),
            Event::ChannelEmpty => match self.phase {
                Phase::Data => self.in_phase(Phase::Commit),
                Phase::Commit => self.in_phase(Phase::Reveal),
                _ => self.send_or(Phase::Start),
            },
        }
    }
}

/// What an event does to the store: what a peer sent is handled.
pub open spec fn store_after_event(v: StoreView, event: Event, received_at_ms: u64) -> StoreView {
    match event {
        Event::PeerSent(data) => after_incoming(v, data@, received_at_ms),
        _ => v,
    }
}

impl Connection {
    /// A connection with nothing to send.
    pub fn new() -> (r: Connection)
        ensures
            r@ == (ConnectionView { phase: Phase::Start, queue: seq![] }),
    {
        let r = Connection { phase: Phase::Start, pending_out: VecDeque::new() };
        assert(r@ =~= (ConnectionView { phase: Phase::Start, queue: seq![] }));
        r
    }

    /// Where the connection is in a round of polling.
    pub fn phase(&self) -> (r: Phase)
        ensures
            r == self@.phase,
    {
        self.phase
    }

    fn ask(&mut self, phase: Phase) -> (r: Action)
        ensures
            (final(self)@, r@) == old(self)@.in_phase(phase),
    {
        self.phase = phase;
        match phase {
            Phase::Start => Action::Wait,
            Phase::Peer => Action::AskPeer,
            Phase::Data => Action::AskData,
            Phase::Commit => Action::AskCommit,
            Phase::Reveal => Action::AskReveal,
        }
    }

    fn send_or_ask(&mut self, phase: Phase) -> (r: Action)
        ensures
            (final(self)@, r@) == old(self)@.send_or(phase),
    {
        match self.pending_out.pop_front() {
            Some(message) => {
                self.phase = Phase::Start;
                assert(self@.queue =~= old(self)@.queue.skip(1));
                assert(old(self)@.queue[0] == message@);
                Action::Send(message)
            },
            None => self.ask(phase),
        }
    }

    fn close(&mut self) -> (r: Action)
        ensures
            final(self)@ == (ConnectionView { phase: Phase::Start, ..old(self)@ }),
            r@ == ActionView::Close,
    {
        self.phase = Phase::Start;
        Action::Close
    }

    fn queue_message(&mut self, message: Vec<u8>) -> (r: Action)
        ensures
            final(self)@ == (ConnectionView {
                queue: old(self)@.queue + seq![message@],
                ..old(self)@
            }),
            r@ == asked_in(old(self)@.phase),
    {
        let phase = self.phase;
        self.pending_out.push_back(message);
        assert(self@.queue =~= old(self)@.queue + seq![message@]);
        self.ask(phase)
    }

    /// Takes an event, and tells what to do next and what became of the bytes of
    /// the peer, where it was the peer that sent some.
    pub fn step(&mut self, store: &mut ProtocolStore, event: Event, received_at_ms: u64) -> (r: (
        Action,
        Option<Incoming>,
    ))
        requires
            old(store).wf(),
            can_come(old(self)@.phase, event),
            event matches Event::PeerSent(data) ==> incoming_fits(old(store)@, data@),
        ensures
            final(store).wf(),
            (final(self)@, r.0@) == old(self)@.after(event),
            final(store)@ == store_after_event(old(store)@, event, received_at_ms),
            match event {
                Event::PeerSent(data) => r.1 matches Some(report) && reports(
                    old(store)@,
                    data@,
                    report,
                ),
                _ => r.1 is None,
            },
    {
        match event {
            Event::Polled => (self.send_or_ask(Phase::Peer), None),
            Event::PeerSent(data) => {
                let report = handle_incoming(store, data.as_slice(), received_at_ms);
                (self.ask(Phase::Peer), Some(report))
            },
            Event::PeerSilent => (self.ask(Phase::Data), None),
            Event::PeerClosed => (self.close(), None),
            Event::ChannelClosed => (self.close(), None),
            Event::Data(message) => {
                let mut bytes: Vec<u8> = Vec::new();
                bytes.push(MSG_TYPE_DATA);
                message.encode(&mut bytes);
                assert(bytes@ =~= seq![MSG_TYPE_DATA] + message@.bytes());
                (self.queue_message(bytes), None)
            },
            Event::Commit(message) => {
                let mut bytes: Vec<u8> = Vec::new();
                bytes.push(MSG_TYPE_COMMIT);
                message.encode(&mut bytes);
                assert(bytes@ =~= seq![MSG_TYPE_COMMIT] + message@.bytes());
                (self.queue_message(bytes), None)
            },
            Event::Reveal(message) => {
                let mut bytes: Vec<u8> = Vec::new();
                bytes.push(MSG_TYPE_REVEAL);
                message.encode(&mut bytes);
                assert(bytes@ =~= seq![MSG_TYPE_REVEAL] + message@.bytes());
                (self.queue_message(bytes), None)
            },
            Event::ChannelLagged => {
                let phase = self.phase;
                (self.ask(phase), None)
            },
            Event::ChannelEmpty => match self.phase {
                Phase::Data => (self.ask(Phase::Commit), None),
                Phase::Commit => (self.ask(Phase::Reveal), None),
                _ => (self.send_or_ask(Phase::Start), None),
            },
        }
    }
}

/// The message that an action sends.
pub open spec fn sent_by(action: ActionView) -> Seq<Seq<u8>> {
    match action {
        ActionView::Send(message) => seq![message],
        _ => seq![],
    }
}

/// The messages that a row of events queues.
pub open spec fn all_queued(events: Seq<Event>) -> Seq<Seq<u8>>
    decreases events.len(),
{
    if events.len() == 0 {
        seq![]
    } else {
        all_queued(events.drop_last()) + queued_by(events.last())
    }
}

/// What a row of events makes of a connection, and the messages that are sent.
pub open spec fn run(c: ConnectionView, events: Seq<Event>) -> (ConnectionView, Seq<Seq<u8>>)
    decreases events.len(),
{
    if events.len() == 0 {
        (c, seq![])
    } else {
        let (before, sent) = run(c, events.drop_last());
        let (then, action) = before.after(events.last());
        (then, sent + sent_by(action))
    }
}

/// Messages go out in the order in which they were queued, none twice, and those
/// that have not gone out still wait.
pub proof fn law_messages_go_out_in_order(c: ConnectionView, events: Seq<Event>)
    ensures
        run(c, events).1 + run(c, events).0.queue == c.queue + all_queued(events),
    decreases events.len(),
{
    if events.len() == 0 {
        assert(run(c, events).1 + run(c, events).0.queue =~= c.queue + all_queued(events));
    } else {
        law_messages_go_out_in_order(c, events.drop_last());
        let (before, sent) = run(c, events.drop_last());
        let event = events.last();
        let (then, action) = before.after(event);
        assert(sent_by(action) + then.queue =~= before.queue + queued_by(event));
        assert(sent + sent_by(action) + then.queue =~= sent + (sent_by(action) + then.queue));
        assert(sent + (before.queue + queued_by(event)) =~= sent + before.queue + queued_by(event));
        assert(c.queue + all_queued(events.drop_last()) + queued_by(event) =~= c.queue + (all_queued(
            events.drop_last(),
        ) + queued_by(event)));
    }
}

/// A round that ends in waiting has nothing left to send.
pub proof fn law_a_connection_waits_only_with_an_empty_queue(c: ConnectionView, event: Event)
    requires
        can_come(c.phase, event),
        c.after(event).1 == ActionView::Wait,
    ensures
        c.after(event).0.queue.len() == 0,
        c.after(event).0.phase == Phase::Start,
{
}

/// The bytes of a peer that are no message leave the store as it was.
pub proof fn law_noise_leaves_the_store_alone(v: StoreView, data: Seq<u8>, received_at_ms: u64)
    requires
        data.len() > 0 && data[0] == MSG_TYPE_DATA ==> data_msg_in(data.skip(1)) is None,
        data.len() > 0 && data[0] == MSG_TYPE_COMMIT ==> commit_msg_in(data.skip(1)) is None,
        data.len() > 0 && data[0] == MSG_TYPE_REVEAL ==> reveal_msg_in(data.skip(1)) is None,
    ensures
        after_incoming(v, data, received_at_ms) == v,
{
}

/// What a node sends does at its peer what the message says: the bytes that are
/// queued for a message are handled as that message.
pub proof fn law_what_is_sent_is_what_is_handled(
    v: StoreView,
    data: DataMsgView,
    commit: CommitMsgView,
    reveal: RevealMsgView,
    received_at_ms: u64,
)
    requires
        data.valid(),
        commit.valid(),
        reveal.valid(),
        data.bytes().len() <= usize::MAX,
        commit.bytes().len() <= usize::MAX,
        reveal.bytes().len() <= usize::MAX,
    ensures
        after_incoming(v, seq![MSG_TYPE_DATA] + data.bytes(), received_at_ms) == after_data(
            v,
            data,
        ),
        after_incoming(v, seq![MSG_TYPE_COMMIT] + commit.bytes(), received_at_ms) == after_commit(
            v,
            commit,
            received_at_ms,
        ),
        after_incoming(v, seq![MSG_TYPE_REVEAL] + reveal.bytes(), received_at_ms) == after_reveal(
            v,
            reveal,
        ),
{
    let none = Seq::<u8>::empty();
    assert((seq![MSG_TYPE_DATA] + data.bytes()).skip(1) =~= data.bytes() + none);
    law_data_msg_round_trip(data, none);
    assert((seq![MSG_TYPE_COMMIT] + commit.bytes()).skip(1) =~= commit.bytes() + none);
    law_commit_msg_round_trip(commit, none);
    assert((seq![MSG_TYPE_REVEAL] + reveal.bytes()).skip(1) =~= reveal.bytes() + none);
    law_reveal_msg_round_trip(reveal, none);
}

/// Whatever a peer sends, nothing is taken out of the store: every validator keeps
/// its place, requests, results and the block's values stay as they are, and what
/// was committed, revealed or submitted for stays so.
pub proof fn law_a_peer_takes_nothing_out(v: StoreView, data: Seq<u8>, received_at_ms: u64)
    requires
        v.valid(),
    ensures
        ({
            let after = after_incoming(v, data, received_at_ms);
            &&& v.validators.is_prefix_of(after.validators)
            &&& after.pending == v.pending
            &&& after.finalized == v.finalized
            &&& after.block_cache == v.block_cache
            &&& after.request_nonce == v.request_nonce
            &&& v.commits.dom().subset_of(after.commits.dom())
            &&& v.reveals.dom().subset_of(after.reveals.dom())
            &&& after.submissions.dom() == v.submissions.dom()
            &&& forall|id: Seq<u8>| #[trigger]
                v.submissions.dom().contains(id) ==> v.submissions[id].is_prefix_of(
                    after.submissions[id],
                )
        }),
{
    let after = after_incoming(v, data, received_at_ms);
    assert(after.submissions.dom() =~= v.submissions.dom());
    assert forall|id: Seq<u8>| #[trigger]
        v.submissions.dom().contains(id) implies v.submissions[id].is_prefix_of(
        after.submissions[id],
    ) by {
        assert(v.submissions[id].is_prefix_of(v.submissions[id]));
    }
}

/// A reveal that a peer sends in the name of a validator touches the reveal of
/// that validator for that request and no other; and so does a commitment.
pub proof fn law_a_message_touches_its_own_entry_only(
    v: StoreView,
    commit: CommitMsgView,
    reveal: RevealMsgView,
    received_at_ms: u64,
    k: (Seq<u8>, Seq<u8>),
)
    ensures
        k != (commit.request_hash, commit.validator) ==> after_commit(
            v,
            commit,
            received_at_ms,
        ).commits.get(k) == v.commits.get(k),
        after_commit(v, commit, received_at_ms).reveals == v.reveals,
        k != (reveal.request_hash, reveal.validator) ==> after_reveal(v, reveal).reveals.get(k)
            == v.reveals.get(k),
        after_reveal(v, reveal).commits == v.commits,
{
}

} // verus!

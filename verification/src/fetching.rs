//! The designated fetcher's way to its answer: it commits, lets the commitment
//! travel, reveals and answers, in this order.

use crate::attestation::{address_of_key, public_key_of, recovered_signer, SigningKey};
use crate::extern_proto::{
    attestation_digest, CommitMsgView, ExternCommitMsg, ExternRevealMsg, RevealMsgView,
};
use crate::externevm::{
    attest_response, attest_with_salt, commit_of, fetch_fault, fetched_cert, fetched_json,
    fetched_value, keep_and_return, path_can_be_followed, reveal_of, with_answer, Answer,
    AnswerView, CallView, PendingCall, GAS_FETCH,
};
use crate::http::HttpResult;
use crate::primitives::{bytes_to_vec, Address};
use crate::protocol_store::{ProtocolStore, ValidatorCommit};
use crate::records::CommitView;
use crate::store_view::StoreView;
use crate::url::host_of;
use vstd::prelude::*;

verus! {

/// How far the fetcher is.
#[derive(Clone, Copy, Debug, PartialEq, Eq, Structural)]
pub enum FetchPhase {
    /// It has made its commitment and its reveal.
    Fetched,
    /// It has stored its commitment and handed it out.
    Committed,
    /// It has let the commitment travel.
    Waited,
    /// It has handed out its reveal.
    Revealed,
    /// It has answered.
    Answered,
}

/// A value that was fetched for a call, on its way to the answer.
#[derive(Debug)]
pub struct Fetch {
    call: PendingCall,
    commit: ExternCommitMsg,
    reveal: ExternRevealMsg,
    phase: FetchPhase,
}

/// What a fetch holds. Its commitment is that to its reveal.
pub struct FetchView {
    pub call: CallView,
    pub reveal: RevealMsgView,
    pub phase: FetchPhase,
}

impl View for Fetch {
    type V = FetchView;

    closed spec fn view(&self) -> FetchView {
        FetchView { call: self.call@, reveal: self.reveal@, phase: self.phase }
    }
}

/// What to do next.
#[derive(Debug)]
pub enum FetchAction {
    /// Send the commitment to the peers.
    SendCommit(ExternCommitMsg),
    /// Wait for so many milliseconds.
    Wait(u64),
    /// Send the reveal to the peers.
    SendReveal(ExternRevealMsg),
    /// Answer the call.
    Finish(Answer),
}

/// What an action says.
pub enum FetchActionView {
    SendCommit(CommitMsgView),
    Wait(u64),
    SendReveal(RevealMsgView),
    Finish(AnswerView),
}

impl View for FetchAction {
    type V = FetchActionView;

    open spec fn view(&self) -> FetchActionView {
        match self {
            FetchAction::SendCommit(commit) => FetchActionView::SendCommit(commit@),
            FetchAction::Wait(ms) => FetchActionView::Wait(*ms),
            FetchAction::SendReveal(reveal) => FetchActionView::SendReveal(reveal@),
            FetchAction::Finish(answer) => FetchActionView::Finish(answer@),
        }
    }
}

impl FetchView {
    /// What is stored of the fetcher's own commitment.
    pub open spec fn own_commit(self, now_ms: u64) -> CommitView {
        let commit = commit_of(self.reveal);
        CommitView {
            request_hash: commit.request_hash,
            validator: commit.validator,
            commitment: commit.commitment,
            received_at_ms: now_ms,
        }
    }

    /// The phase that follows.
    pub open spec fn next_phase(self) -> FetchPhase {
        match self.phase {
            FetchPhase::Fetched => FetchPhase::Committed,
            FetchPhase::Committed => FetchPhase::Waited,
            FetchPhase::Waited => FetchPhase::Revealed,
            FetchPhase::Revealed => FetchPhase::Answered,
            FetchPhase::Answered => FetchPhase::Answered,
        }
    }

    /// The fetch after a step.
    pub open spec fn after_step(self) -> FetchView {
        FetchView { phase: self.next_phase(), ..self }
    }

    /// What a step asks for: the commitment is sent, then its window is waited for,
    /// then the reveal is sent, then the call is answered with the value.
    pub open spec fn action(self, window_ms: u64) -> Option<FetchActionView> {
        match self.phase {
            FetchPhase::Fetched => Some(FetchActionView::SendCommit(commit_of(self.reveal))),
            FetchPhase::Committed => Some(FetchActionView::Wait(window_ms)),
            FetchPhase::Waited => Some(FetchActionView::SendReveal(self.reveal)),
            FetchPhase::Revealed => Some(
                FetchActionView::Finish(AnswerView::Return(GAS_FETCH, self.reveal.value)),
            ),
            FetchPhase::Answered => None,
        }
    }

    /// What a step does to the store: the commitment is stored before it is sent, and
    /// the value is kept for the block with the answer.
    pub open spec fn store_after(self, v: StoreView, now_ms: u64) -> StoreView {
        match self.phase {
            FetchPhase::Fetched => v.with_commit(self.own_commit(now_ms)),
            FetchPhase::Revealed => with_answer(v, self.call, self.reveal.value),
            _ => v,
        }
    }
}

impl Fetch {
    #[verifier::type_invariant]
    spec fn inv(self) -> bool {
        self.commit@ == commit_of(self.reveal@)
    }

    /// Makes the commitment and the reveal of the value of a response under a salt,
    /// or tells why the call stops.
    pub fn begin_with_salt(
        call: PendingCall,
        me: Address,
        http: &Result<HttpResult, String>,
        float_reading: Option<u64>,
        key: Option<&SigningKey>,
        now_secs: u64,
        salt: [u8; 32],
    ) -> (r: Result<Fetch, String>)
        requires
            path_can_be_followed(call@.request, fetched_json(*http)),
        ensures
            match r {
                Err(fault) => fetch_fault(call@, *http, float_reading, key is Some) == Some(
                    fault@,
                ),
                Ok(fetch) => {
                    &&& fetch_fault(call@, *http, float_reading, key is Some) is None
                    &&& fetch@.call == call@
                    &&& fetch@.phase == FetchPhase::Fetched
                    &&& fetch@.reveal == reveal_of(
                        call@,
                        me@,
                        fetched_value(call@.request, fetched_json(*http), float_reading)->Ok_0,
                        salt@,
                        http->Ok_0.body_bytes@,
                        fetched_cert(*http)->0,
                        now_secs,
                        key->0@,
                    )
                    &&& signed_by(fetch@, address_of_key(public_key_of(key->0@)))
                },
            },
    {
        match attest_with_salt(&call, me, http, float_reading, key, now_secs, salt) {
            Ok((commit, reveal)) => Ok(Fetch { call, commit, reveal, phase: FetchPhase::Fetched }),
            Err(fault) => Err(fault),
        }
    }

    /// Makes the commitment and the reveal of the value of a response under a random
    /// salt, or tells why the call stops.
    pub fn begin(
        call: PendingCall,
        me: Address,
        http: &Result<HttpResult, String>,
        float_reading: Option<u64>,
        key: Option<&SigningKey>,
        now_secs: u64,
    ) -> (r: Result<Fetch, String>)
        requires
            path_can_be_followed(call@.request, fetched_json(*http)),
        ensures
            match r {
                Err(fault) => fetch_fault(call@, *http, float_reading, key is Some) == Some(
                    fault@,
                ),
                Ok(fetch) => {
                    &&& fetch_fault(call@, *http, float_reading, key is Some) is None
                    &&& fetch@.call == call@
                    &&& fetch@.phase == FetchPhase::Fetched
                    &&& fetch@.reveal == reveal_of(
                        call@,
                        me@,
                        fetched_value(call@.request, fetched_json(*http), float_reading)->Ok_0,
                        fetch@.reveal.salt,
                        http->Ok_0.body_bytes@,
                        fetched_cert(*http)->0,
                        now_secs,
                        key->0@,
                    )
                    &&& signed_by(fetch@, address_of_key(public_key_of(key->0@)))
                },
            },
    {
        match attest_response(&call, me, http, float_reading, key, now_secs) {
            Ok((commit, reveal)) => Ok(Fetch { call, commit, reveal, phase: FetchPhase::Fetched }),
            Err(fault) => Err(fault),
        }
    }

    /// Takes the next step: stores the commitment and hands it out, asks for the
    /// window to be waited for, hands out the reveal, or keeps the value and answers.
    /// `None` once the call is answered.
    pub fn step(&mut self, store: &mut ProtocolStore, now_ms: u64, window_ms: u64) -> (r: Option<
        FetchAction,
    >)
        requires
            old(store).wf(),
        ensures
            final(store).wf(),
            final(self)@ == old(self)@.after_step(),
            final(store)@ == old(self)@.store_after(old(store)@, now_ms),
            action_view(r) == old(self)@.action(window_ms),
    {
        proof {
            use_type_invariant(&*self);
        }
        match self.phase {
            FetchPhase::Fetched => {
                let commit = ExternCommitMsg {
                    request_hash: self.commit.request_hash,
                    commitment: self.commit.commitment,
                    validator: self.commit.validator,
                };
                store.store_commit(
                    ValidatorCommit {
                        request_hash: commit.request_hash,
                        validator: commit.validator,
                        commitment: commit.commitment,
                        received_at_ms: now_ms,
                    },
                );
                self.phase = FetchPhase::Committed;
                Some(FetchAction::SendCommit(commit))
            },
            FetchPhase::Committed => {
                self.phase = FetchPhase::Waited;
                Some(FetchAction::Wait(window_ms))
            },
            FetchPhase::Waited => {
                let reveal = ExternRevealMsg {
                    request_hash: self.reveal.request_hash,
                    value: bytes_to_vec(self.reveal.value.as_slice()),
                    salt: self.reveal.salt,
                    validator: self.reveal.validator,
                    cert_der: bytes_to_vec(self.reveal.cert_der.as_slice()),
                    response_hash: self.reveal.response_hash,
                    timestamp_secs: self.reveal.timestamp_secs,
                    attestation_sig: bytes_to_vec(self.reveal.attestation_sig.as_slice()),
                };
                self.phase = FetchPhase::Revealed;
                Some(FetchAction::SendReveal(reveal))
            },
            FetchPhase::Revealed => {
                let value = bytes_to_vec(self.reveal.value.as_slice());
                let answer = keep_and_return(
                    store,
                    self.call.request_hash,
                    self.call.block_number,
                    value,
                    GAS_FETCH,
                );
                self.phase = FetchPhase::Answered;
                Some(FetchAction::Finish(answer))
            },
            FetchPhase::Answered => None,
        }
    }
}

/// What an action says, where there is one.
pub open spec fn action_view(r: Option<FetchAction>) -> Option<FetchActionView> {
    match r {
        Some(action) => Some(action@),
        None => None,
    }
}

/// Whether the attestation of a fetch is signed by an address.
pub open spec fn signed_by(fetch: FetchView, signer: Seq<u8>) -> bool {
    recovered_signer(
        attestation_digest(
            fetch.call.request_hash,
            host_of(fetch.call.request.0),
            fetch.reveal.cert_der,
            fetch.reveal.response_hash,
            fetch.reveal.timestamp_secs,
        ),
        fetch.reveal.attestation_sig,
    ) == Some(signer)
}

/// A fetch, a store and what was done, after a row of steps. Each step is taken at a
/// time and with a window, both in milliseconds.
pub open spec fn run(fetch: FetchView, v: StoreView, steps: Seq<(u64, u64)>) -> (
    FetchView,
    StoreView,
    Seq<FetchActionView>,
)
    decreases steps.len(),
{
    if steps.len() == 0 {
        (fetch, v, seq![])
    } else {
        let (f, w, done) = run(fetch, v, steps.drop_last());
        let (now_ms, window_ms) = steps.last();
        (
            f.after_step(),
            f.store_after(w, now_ms),
            match f.action(window_ms) {
                Some(action) => done.push(action),
                None => done,
            },
        )
    }
}

/// Which phase a fetch is in after so many steps.
spec fn phase_after(n: nat) -> FetchPhase {
    if n == 0 {
        FetchPhase::Fetched
    } else if n == 1 {
        FetchPhase::Committed
    } else if n == 2 {
        FetchPhase::Waited
    } else if n == 3 {
        FetchPhase::Revealed
    } else {
        FetchPhase::Answered
    }
}

/// All that a fetch does: it sends its commitment, waits for the window of its second
/// step, sends its reveal and answers.
pub open spec fn whole_way(fetch: FetchView, window_ms: u64) -> Seq<FetchActionView> {
    seq![
        FetchActionView::SendCommit(commit_of(fetch.reveal)),
        FetchActionView::Wait(window_ms),
        FetchActionView::SendReveal(fetch.reveal),
        FetchActionView::Finish(AnswerView::Return(GAS_FETCH, fetch.reveal.value)),
    ]
}

/// However far a fetch is run, it has done the beginning of its whole way and nothing
/// else: commit, wait, reveal, answer, each once and in this order.
pub proof fn law_a_fetch_commits_waits_reveals_and_answers(
    fetch: FetchView,
    v: StoreView,
    steps: Seq<(u64, u64)>,
)
    requires
        fetch.phase == FetchPhase::Fetched,
    ensures
        run(fetch, v, steps).2 == whole_way(fetch, steps[1].1).take(
            if steps.len() < 4 {
                steps.len() as int
            } else {
                4
            },
        ),
{
    lemma_run(fetch, v, steps);
}

proof fn lemma_run(fetch: FetchView, v: StoreView, steps: Seq<(u64, u64)>)
    requires
        fetch.phase == FetchPhase::Fetched,
    ensures
        run(fetch, v, steps).0 == (FetchView { phase: phase_after(steps.len()), ..fetch }),
        run(fetch, v, steps).2 == whole_way(fetch, steps[1].1).take(
            if steps.len() < 4 {
                steps.len() as int
            } else {
                4
            },
        ),
        steps.len() >= 1 ==> run(fetch, v, steps).1.commits.get(
            (fetch.reveal.request_hash, fetch.reveal.validator),
        ) == Some(fetch.own_commit(steps[0].0)),
    decreases steps.len(),
{
    let way = whole_way(fetch, steps[1].1);
    if steps.len() == 0 {
        assert(run(fetch, v, steps).2 =~= way.take(0));
    } else {
        let before = steps.drop_last();
        lemma_run(fetch, v, before);
        let n = before.len() as int;
        if n >= 1 {
            assert(before[0] == steps[0]);
        }
        if n >= 2 {
            assert(before[1] == steps[1]);
        } else {
            assert(whole_way(fetch, before[1].1).take(n) =~= way.take(n));
        }
        if n < 4 {
            assert(way.take(n + 1) =~= way.take(n).push(way[n]));
        }
    }
}

/// A reveal goes out only after its commitment was stored and sent and the window was
/// waited for: wherever a run has sent a reveal, it has sent before it the commitment
/// to that reveal, then waited for the window it was given, and the store has held the
/// commitment since its first step.
pub proof fn law_a_reveal_goes_out_after_its_commitment(
    fetch: FetchView,
    v: StoreView,
    steps: Seq<(u64, u64)>,
    i: int,
)
    requires
        fetch.phase == FetchPhase::Fetched,
        0 <= i < run(fetch, v, steps).2.len(),
        run(fetch, v, steps).2[i] is SendReveal,
    ensures
        ({
            let done = run(fetch, v, steps).2;
            &&& i == 2
            &&& done[i] == FetchActionView::SendReveal(fetch.reveal)
            &&& done[0] == FetchActionView::SendCommit(commit_of(fetch.reveal))
            &&& done[1] == FetchActionView::Wait(steps[1].1)
        }),
        forall|n: int|
            1 <= n <= steps.len() ==> (#[trigger] run(fetch, v, steps.take(n))).1.commits.get(
                (fetch.reveal.request_hash, fetch.reveal.validator),
            ) == Some(fetch.own_commit(steps[0].0)),
{
    lemma_run(fetch, v, steps);
    assert forall|n: int| 1 <= n <= steps.len() implies (#[trigger] run(
        fetch,
        v,
        steps.take(n),
    )).1.commits.get((fetch.reveal.request_hash, fetch.reveal.validator)) == Some(
        fetch.own_commit(steps[0].0),
    ) by {
        lemma_run(fetch, v, steps.take(n));
        assert(steps.take(n)[0] == steps[0]);
    }
}

/// A fetch that is run to its end answers with the value that it committed to and
/// revealed, and that value is kept for the block.
pub proof fn law_a_fetch_answers_with_what_it_revealed(
    fetch: FetchView,
    v: StoreView,
    steps: Seq<(u64, u64)>,
)
    requires
        fetch.phase == FetchPhase::Fetched,
        steps.len() == 4,
    ensures
        run(fetch, v, steps).0.phase == FetchPhase::Answered,
        run(fetch, v, steps).2.last() == FetchActionView::Finish(
            AnswerView::Return(GAS_FETCH, fetch.reveal.value),
        ),
        run(fetch, v, steps).1.block_cache.get((fetch.call.request_hash, fetch.call.block_number))
            == Some(fetch.reveal.value),
{
    lemma_run(fetch, v, steps);
    lemma_run(fetch, v, steps.drop_last());
}

} // verus!

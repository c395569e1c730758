//! What each operation on the protocol store changes, and what it leaves as it is.

use crate::bytes::{be_bytes, be_value, hex_text, keccak, lemma_be_bytes_value};
use crate::records::{
    CommitView, FinalizedView, OutcomeView, RequestStatus, RequestView, RevealView, SubmissionView,
};
use crate::store_view::{address_name, judged_reveal, request_id_preimage, status_name, StoreView};
use vstd::prelude::*;

verus! {

/// Registering appends a validator that is not there yet, leaves the others at their
/// places and changes nothing else.
pub proof fn law_registering_appends_a_new_validator(v: StoreView, a: Seq<u8>)
    ensures
        v.with_validator(a).validators == (if v.validators.contains(a) {
            v.validators
        } else {
            v.validators + seq![a]
        }),
        v.with_validator(a) == (StoreView { validators: v.with_validator(a).validators, ..v }),
{
    assert(v.validators.push(a) =~= v.validators + seq![a]);
}

/// The fetcher of a request is found by counting round the registry as many places as
/// the first eight bytes of the hash say, most significant first.
pub proof fn law_the_fetcher_is_counted_round_the_registry(
    v: StoreView,
    n: u64,
    rest: Seq<u8>,
)
    requires
        v.validators.len() > 0,
    ensures
        v.fetcher(be_bytes(n) + rest) == Some(v.validators[n as int % v.validators.len() as int]),
        be_value(be_bytes(n)) == n,
{
    lemma_be_bytes_value(n);
    assert((be_bytes(n) + rest).take(8) =~= be_bytes(n));
}

/// Keeping a value changes the cache at the request and the block only.
pub proof fn law_keeping_a_value_changes_one_entry(
    v: StoreView,
    hash: Seq<u8>,
    block: u64,
    value: Seq<u8>,
    other: (Seq<u8>, u64),
)
    ensures
        v.with_cached(hash, block, value).block_cache.get((hash, block)) == Some(value),
        other != (hash, block) ==> v.with_cached(hash, block, value).block_cache.get(other)
            == v.block_cache.get(other),
        v.with_cached(hash, block, value) == (StoreView {
            block_cache: v.with_cached(hash, block, value).block_cache,
            ..v
        }),
{
}

/// Eviction keeps exactly the values of the current block, of the one before it and of
/// later ones, and changes nothing else.
pub proof fn law_eviction_changes_the_cache_only(
    v: StoreView,
    current_block: u64,
    k: (Seq<u8>, u64),
)
    ensures
        k.1 + 2 <= current_block ==> v.without_old_cache(current_block).block_cache.get(k) is None,
        current_block <= k.1 + 1 ==> v.without_old_cache(current_block).block_cache.get(k)
            == v.block_cache.get(k),
        v.without_old_cache(current_block) == (StoreView {
            block_cache: v.without_old_cache(current_block).block_cache,
            ..v
        }),
{
}

/// Storing a commitment changes the entry of its request and its validator only, and
/// its hash is read back.
pub proof fn law_storing_a_commitment_changes_one_entry(
    v: StoreView,
    c: CommitView,
    other: (Seq<u8>, Seq<u8>),
)
    ensures
        v.with_commit(c).commits.get((c.request_hash, c.validator)) == Some(c),
        v.with_commit(c).commitment(c.request_hash, c.validator) == Some(c.commitment),
        other != (c.request_hash, c.validator) ==> v.with_commit(c).commits.get(other)
            == v.commits.get(other) && v.with_commit(c).commitment(other.0, other.1)
            == v.commitment(other.0, other.1),
        v.with_commit(c) == (StoreView { commits: v.with_commit(c).commits, ..v }),
        v.commits.get(other) is None ==> v.commitment(other.0, other.1) is None,
{
}

/// A value and a salt match a commitment exactly where the hash of the value with the
/// salt behind it is what was committed to.
pub proof fn law_a_match_is_the_hash_of_value_and_salt(
    v: StoreView,
    hash: Seq<u8>,
    validator: Seq<u8>,
    value: Seq<u8>,
    salt: Seq<u8>,
)
    ensures
        v.matches_commit(hash, validator, value, salt) <==> v.commits.dom().contains(
            (hash, validator),
        ) && v.commits[(hash, validator)].commitment == keccak(value + salt),
{
}

/// Storing a reveal changes the entry of its request and its validator only; its value
/// is read back as verified exactly where it is marked so.
pub proof fn law_storing_a_reveal_changes_one_entry(
    v: StoreView,
    r: RevealView,
    other: (Seq<u8>, Seq<u8>),
)
    ensures
        v.with_reveal(r).reveals.get((r.request_hash, r.validator)) == Some(r),
        v.with_reveal(r).verified_reveal(r.request_hash, r.validator) == (if r.verified {
            Some(r.value)
        } else {
            None
        }),
        v.with_reveal(r).has_verified_reveal(r.request_hash, r.validator) <==> r.verified,
        other != (r.request_hash, r.validator) ==> v.with_reveal(r).reveals.get(other)
            == v.reveals.get(other) && v.with_reveal(r).verified_reveal(other.0, other.1)
            == v.verified_reveal(other.0, other.1),
        v.with_reveal(r) == (StoreView { reveals: v.with_reveal(r).reveals, ..v }),
        v.reveals.get(other) is None ==> v.verified_reveal(other.0, other.1) is None,
{
}

/// A reveal is verified exactly where it matches its commitment, its designated
/// validator signed it, its certificate vouches and its time lies from 300 seconds
/// behind the clock to 60 ahead of it; otherwise the first of these that fails is told.
pub proof fn law_a_reveal_is_judged_in_order(
    r: RevealView,
    validator: Seq<u8>,
    signer: Option<Seq<u8>>,
    cert_fault: Option<Seq<char>>,
    now_secs: u64,
)
    ensures
        judged_reveal(r, validator, signer, cert_fault, now_secs) == OutcomeView::Verified(r.value)
            <==> r.verified && signer == Some(validator) && cert_fault is None && -60 <= now_secs
            - r.timestamp_secs <= 300,
        judged_reveal(r, validator, signer, cert_fault, now_secs) is Verified
            || judged_reveal(r, validator, signer, cert_fault, now_secs) is Rejected,
        judged_reveal(r, validator, signer, cert_fault, now_secs) matches OutcomeView::Verified(
            value,
        ) ==> value == r.value,
        !r.verified ==> judged_reveal(r, validator, signer, cert_fault, now_secs)
            == OutcomeView::Rejected("commitment mismatch"@),
        r.verified && signer is None ==> judged_reveal(r, validator, signer, cert_fault, now_secs)
            == OutcomeView::Rejected("attestation signature recovery failed"@),
        r.verified ==> (signer matches Some(a) ==> (a != validator ==> judged_reveal(
            r,
            validator,
            signer,
            cert_fault,
            now_secs,
        ) == OutcomeView::Rejected(
            "attestation signer "@ + ("0x"@ + hex_text(a)) + " != designated fetcher "@ + ("0x"@
                + hex_text(validator)),
        ))),
        r.verified && signer == Some(validator) ==> (cert_fault matches Some(fault)
            ==> judged_reveal(r, validator, signer, cert_fault, now_secs)
            == OutcomeView::Rejected("cert validation failed: "@ + fault)),
        r.verified && signer == Some(validator) && cert_fault is None && !(-60 <= now_secs
            - r.timestamp_secs <= 300) ==> judged_reveal(
            r,
            validator,
            signer,
            cert_fault,
            now_secs,
        ) == OutcomeView::Rejected("attestation timestamp outside freshness window"@),
{
}

/// A request is pending a reveal exactly while none is there by that validator for it.
pub proof fn law_a_reveal_is_awaited_while_none_is_there(
    v: StoreView,
    hash: Seq<u8>,
    validator: Seq<u8>,
    domain: Seq<char>,
    now_secs: u64,
    cert_now: (i128, bool),
)
    ensures
        v.reveal_outcome(hash, validator, domain, now_secs, cert_now) is Pending
            <==> !v.reveals.dom().contains((hash, validator)),
        v.reveal_outcome(hash, validator, domain, now_secs, cert_now) is Verified ==> v.reveals[(
            hash,
            validator,
        )].verified && v.verified_reveal(hash, validator) == Some(
            v.reveal_outcome(hash, validator, domain, now_secs, cert_now)->Verified_0,
        ),
{
}

/// Another nonce changes nothing else.
pub proof fn law_a_nonce_changes_nothing_else(v: StoreView, nonce: u64)
    ensures
        v.with_nonce(nonce).request_nonce == nonce,
        v.with_nonce(nonce) == (StoreView { request_nonce: nonce, ..v }),
{
}

/// Storing a request puts it in with no submissions and changes no other request.
pub proof fn law_storing_a_request_changes_one_entry(
    v: StoreView,
    q: RequestView,
    other: Seq<u8>,
)
    ensures
        v.with_request(q).pending.get(q.request_id) == Some(q),
        v.with_request(q).submissions.get(q.request_id) == Some(Seq::<SubmissionView>::empty()),
        other != q.request_id ==> v.with_request(q).pending.get(other) == v.pending.get(other)
            && v.with_request(q).submissions.get(other) == v.submissions.get(other),
        v.with_request(q) == (StoreView {
            pending: v.with_request(q).pending,
            submissions: v.with_request(q).submissions,
            ..v
        }),
{
}

/// A submission is taken exactly where its request is there and pending, no more than
/// two blocks are behind the request's own, the validator is registered and has
/// submitted nothing for the request.
pub proof fn law_a_submission_is_taken_in_time_and_once(
    v: StoreView,
    id: Seq<u8>,
    validator: Seq<u8>,
    block_number: u64,
)
    ensures
        v.submission_fault(id, validator, block_number) is None <==> {
            &&& v.pending.dom().contains(id)
            &&& v.pending[id].status == RequestStatus::Pending
            &&& block_number <= v.pending[id].block_created + 2
            &&& v.validators.contains(validator)
            &&& forall|i: int|
                0 <= i < v.submissions[id].len() ==> (#[trigger] v.submissions[id][i]).validator
                    != validator
        },
{
}

/// What is said of a refused submission names what failed first.
pub proof fn law_a_refused_submission_is_told_apart(
    v: StoreView,
    id: Seq<u8>,
    validator: Seq<u8>,
    block_number: u64,
)
    ensures
        !v.pending.dom().contains(id) ==> v.submission_fault(id, validator, block_number) == Some(
            "Request not found"@,
        ),
        v.pending.dom().contains(id) ==> {
            let q = v.pending[id];
            &&& q.status == RequestStatus::Finalized ==> v.submission_fault(
                id,
                validator,
                block_number,
            ) == Some("Request not pending, status: "@ + "Finalized"@)
            &&& q.status == RequestStatus::TimedOut ==> v.submission_fault(
                id,
                validator,
                block_number,
            ) == Some("Request not pending, status: "@ + "TimedOut"@)
            &&& q.status == RequestStatus::Pending && block_number > q.block_created + 2
                ==> v.submission_fault(id, validator, block_number) == Some(
                "Submission window closed"@,
            )
            &&& q.status == RequestStatus::Pending && block_number <= q.block_created + 2
                && !v.validators.contains(validator) ==> v.submission_fault(
                id,
                validator,
                block_number,
            ) == Some("Not a registered validator"@)
            &&& q.status == RequestStatus::Pending && block_number <= q.block_created + 2
                && v.validators.contains(validator) && (exists|i: int|
                0 <= i < v.submissions[id].len() && (#[trigger] v.submissions[id][i]).validator
                    == validator) ==> v.submission_fault(id, validator, block_number) == Some(
                "Validator already submitted"@,
            )
        },
        status_name(RequestStatus::Pending) == "Pending"@,
{
}

/// A submission joins those of its request at the end and changes nothing else.
pub proof fn law_a_submission_joins_its_row(v: StoreView, s: SubmissionView, other: Seq<u8>)
    ensures
        v.with_submission(s).submissions.get(s.request_id) == Some(
            v.submissions[s.request_id] + seq![s],
        ),
        other != s.request_id ==> v.with_submission(s).submissions.get(other) == v.submissions.get(
            other,
        ),
        v.with_submission(s) == (StoreView { submissions: v.with_submission(s).submissions, ..v }),
{
    assert(v.submissions[s.request_id].push(s) =~= v.submissions[s.request_id] + seq![s]);
}

/// A pending request takes submissions up to and with the second block behind its own
/// and is ready from the third on; a settled request is neither open nor ready.
pub proof fn law_a_window_closes_after_two_blocks(q: RequestView, current_block: u64)
    ensures
        StoreView::is_open(q, current_block) <==> q.status == RequestStatus::Pending
            && current_block < q.block_created + 3,
        StoreView::is_ready(q, current_block) <==> q.status == RequestStatus::Pending
            && current_block >= q.block_created + 3,
{
}

/// Another status is all that changes, and of one request only.
pub proof fn law_a_status_changes_nothing_else(
    v: StoreView,
    id: Seq<u8>,
    status: RequestStatus,
    other: Seq<u8>,
)
    requires
        v.pending.dom().contains(id),
    ensures
        v.with_status(id, status).pending.dom() == v.pending.dom(),
        v.with_status(id, status).pending[id] == (RequestView { status, ..v.pending[id] }),
        other != id ==> v.with_status(id, status).pending.get(other) == v.pending.get(other),
        v.with_status(id, status) == (StoreView { pending: v.with_status(id, status).pending, ..v }),
        v.with_status(id, status).with_status(id, v.pending[id].status) == v,
{
    assert(v.with_status(id, status).pending.dom() =~= v.pending.dom());
    assert(v.with_status(id, status).with_status(id, v.pending[id].status).pending =~= v.pending);
}

/// A result is read back, its request is finalized, and nothing else changes.
pub proof fn law_a_result_finalizes_its_request(v: StoreView, f: FinalizedView, other: Seq<u8>)
    requires
        v.pending.dom().contains(f.request_id),
    ensures
        v.with_result(f).finalized.get(f.request_id) == Some(f),
        v.with_result(f).pending[f.request_id] == (RequestView {
            status: RequestStatus::Finalized,
            ..v.pending[f.request_id]
        }),
        v.with_result(f).pending.dom() == v.pending.dom(),
        other != f.request_id ==> v.with_result(f).finalized.get(other) == v.finalized.get(other)
            && v.with_result(f).pending.get(other) == v.pending.get(other),
        v.with_result(f) == (StoreView {
            pending: v.with_result(f).pending,
            finalized: v.with_result(f).finalized,
            ..v
        }),
{
    assert(v.with_result(f).pending.dom() =~= v.pending.dom());
}

/// Cleanup takes out exactly the settled requests that are older than the limit, with
/// their submissions and results; the others stay as they are, and so does the rest.
pub proof fn law_cleanup_takes_out_the_old_and_settled(
    v: StoreView,
    current_block: u64,
    max_age: u64,
    id: Seq<u8>,
)
    ensures
        ({
            let after = v.after_cleanup(current_block, max_age);
            let leaves = v.pending.dom().contains(id) && v.pending[id].status
                != RequestStatus::Pending && current_block - v.pending[id].block_created > max_age;
            &&& leaves ==> !after.pending.dom().contains(id) && !after.submissions.dom().contains(
                id,
            ) && !after.finalized.dom().contains(id)
            &&& !leaves ==> after.pending.get(id) == v.pending.get(id) && after.submissions.get(id)
                == v.submissions.get(id) && after.finalized.get(id) == v.finalized.get(id)
            &&& after == (StoreView {
                pending: after.pending,
                submissions: after.submissions,
                finalized: after.finalized,
                ..v
            })
        }),
{
}

/// The end of a window, and the age of a settled request, are out of reach only in the
/// last blocks that 64 bits can number.
pub proof fn law_only_the_last_blocks_do_not_fit(v: StoreView, id: Seq<u8>, max_age: u64)
    ensures
        v.window_fits(id) <==> !(v.pending.dom().contains(id) && v.pending[id].status
            == RequestStatus::Pending && v.pending[id].block_created > u64::MAX - 2),
        v.windows_fit() <==> forall|k: Seq<u8>| #[trigger]
            v.pending.dom().contains(k) && v.pending[k].status == RequestStatus::Pending
                ==> v.pending[k].block_created <= u64::MAX - 2,
        v.ages_fit(max_age) <==> forall|k: Seq<u8>| #[trigger]
            v.pending.dom().contains(k) && v.pending[k].status != RequestStatus::Pending
                ==> v.pending[k].block_created <= u64::MAX - max_age,
{
    if v.windows_fit() {
        assert forall|k: Seq<u8>| #[trigger]
            v.pending.dom().contains(k) && v.pending[k].status
                == RequestStatus::Pending implies v.pending[k].block_created <= u64::MAX - 2 by {
            assert(v.window_fits(k));
        }
    }
}

/// A new store holds nothing, and its first nonce is zero.
pub proof fn law_a_new_store_holds_nothing(k: Seq<u8>, pair: (Seq<u8>, Seq<u8>), entry: (Seq<u8>, u64))
    ensures
        StoreView::empty().pending.get(k) is None,
        StoreView::empty().submissions.get(k) is None,
        StoreView::empty().finalized.get(k) is None,
        StoreView::empty().commits.get(pair) is None,
        StoreView::empty().reveals.get(pair) is None,
        StoreView::empty().block_cache.get(entry) is None,
        StoreView::empty().validators.len() == 0,
        StoreView::empty().request_nonce == 0,
        StoreView::empty().valid(),
{
}

/// A list of chosen requests holds each request of the store that is chosen, once, and
/// no other: those that are open up to the second block behind their own, and those
/// that are ready from the third on.
pub proof fn law_a_list_holds_each_chosen_request_once(
    v: StoreView,
    open: Seq<RequestView>,
    ready: Seq<RequestView>,
    current_block: u64,
    id: Seq<u8>,
)
    requires
        v.valid(),
        v.lists(open, |q: RequestView| StoreView::is_open(q, current_block)),
        v.lists(ready, |q: RequestView| StoreView::is_ready(q, current_block)),
    ensures
        forall|i: int, j: int| 0 <= i < j < open.len() ==> open[i] != open[j],
        forall|i: int, j: int| 0 <= i < j < ready.len() ==> ready[i] != ready[j],
        v.pending.dom().contains(id) ==> {
            let q = v.pending[id];
            &&& open.contains(q) <==> q.status == RequestStatus::Pending && current_block
                <= q.block_created + 2
            &&& ready.contains(q) <==> q.status == RequestStatus::Pending && current_block
                > q.block_created + 2
        },
        forall|i: int|
            0 <= i < open.len() ==> v.pending.dom().contains((#[trigger] open[i]).request_id)
                && v.pending[open[i].request_id] == open[i],
        forall|i: int|
            0 <= i < ready.len() ==> v.pending.dom().contains((#[trigger] ready[i]).request_id)
                && v.pending[ready[i].request_id] == ready[i],
{
    if v.pending.dom().contains(id) {
        assert(v.holds(v.pending[id]));
    }
    assert forall|i: int| 0 <= i < open.len() implies v.pending.dom().contains(
        (#[trigger] open[i]).request_id,
    ) && v.pending[open[i].request_id] == open[i] by {
        assert(open.contains(open[i]));
    }
    assert forall|i: int| 0 <= i < ready.len() implies v.pending.dom().contains(
        (#[trigger] ready[i]).request_id,
    ) && v.pending[ready[i].request_id] == ready[i] by {
        assert(ready.contains(ready[i]));
    }
}

/// A request's identifier is taken of the block, the place in the block and the nonce,
/// in eight bytes each.
pub proof fn law_an_identifier_is_taken_of_three_numbers(
    block_number: u64,
    tx_index: u64,
    nonce: u64,
)
    ensures
        request_id_preimage(block_number, tx_index, nonce).len() == 24,
        be_value(request_id_preimage(block_number, tx_index, nonce).take(8)) == block_number,
        be_value(request_id_preimage(block_number, tx_index, nonce).subrange(8, 16)) == tx_index,
        be_value(request_id_preimage(block_number, tx_index, nonce).skip(16)) == nonce,
{
    lemma_be_bytes_value(block_number);
    lemma_be_bytes_value(tx_index);
    lemma_be_bytes_value(nonce);
    let p = request_id_preimage(block_number, tx_index, nonce);
    assert(p.take(8) =~= be_bytes(block_number));
    assert(p.subrange(8, 16) =~= be_bytes(tx_index));
    assert(p.skip(16) =~= be_bytes(nonce));
}

/// An address is named by `0x` and two digits for each of its bytes.
pub proof fn law_an_address_is_named_in_hex(a: Seq<u8>)
    ensures
        address_name(a) == "0x"@ + hex_text(a),
        hex_text(a).len() == 2 * a.len(),
    decreases a.len(),
{
    if a.len() > 0 {
        law_an_address_is_named_in_hex(a.drop_last());
    }
}

} // verus!

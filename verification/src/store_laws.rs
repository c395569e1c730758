//! What the protocol store promises over several operations.

use crate::attestation::{is_fresh, recovered_signer};
use crate::bytes::{be_bytes, be_value, keccak, lemma_be_bytes_value};
use crate::certificate::{certificate_fault, certificate_in};
use crate::extern_proto::{attestation_digest, commitment_preimage};
use crate::records::{
    CommitView, FinalizedView, OutcomeView, RequestStatus, RequestView, RevealView, SubmissionView,
};
use crate::store_view::{request_id_preimage, StoreView, SUBMISSION_WINDOW};
use vstd::prelude::*;

verus! {

/// To register a validator twice is to register it once, and no other validator
/// loses or changes its place.
pub proof fn law_registering_twice_is_registering_once(v: StoreView, a: Seq<u8>)
    ensures
        v.with_validator(a).with_validator(a) == v.with_validator(a),
        v.with_validator(a).validators.contains(a),
        v.validators.is_prefix_of(v.with_validator(a).validators),
{
    if !v.validators.contains(a) {
        assert(v.with_validator(a).validators[v.validators.len() as int] == a);
        assert(v.with_validator(a).validators.contains(a));
    }
}

/// Where validators are registered, every request has a fetcher, and the fetcher
/// is one of them; where none is, no request has one.
pub proof fn law_the_fetcher_is_a_registered_validator(v: StoreView, request_hash: Seq<u8>)
    ensures
        v.validators.len() == 0 <==> v.fetcher(request_hash) is None,
        v.fetcher(request_hash) matches Some(a) ==> v.validators.contains(a),
{
    if v.validators.len() > 0 {
        let i = (be_value(request_hash.take(8)) % v.validators.len()) as int;
        assert(v.validators[i] == v.fetcher(request_hash)->0);
    }
}

/// The fetcher depends on nothing but the registry and the first eight bytes of
/// the request's hash.
pub proof fn law_nodes_with_one_registry_agree_on_the_fetcher(
    v: StoreView,
    w: StoreView,
    a: Seq<u8>,
    b: Seq<u8>,
)
    requires
        v.validators == w.validators,
        a.take(8) == b.take(8),
    ensures
        v.fetcher(a) == w.fetcher(b),
{
}

/// Each validator is the fetcher of some request: of every one whose hash begins
/// with the validator's place.
pub proof fn law_every_validator_is_a_fetcher(v: StoreView, place: u64, request_hash: Seq<u8>)
    requires
        place < v.validators.len(),
        request_hash.take(8) == be_bytes(place),
    ensures
        v.fetcher(request_hash) == Some(v.validators[place as int]),
{
    lemma_be_bytes_value(place);
    vstd::arithmetic::div_mod::lemma_small_mod(place as nat, v.validators.len());
}

/// A value that is kept for a request within a block is read back there, and
/// what is kept for other requests and blocks stays.
pub proof fn law_the_cache_gives_back_what_was_put(
    v: StoreView,
    request_hash: Seq<u8>,
    block: u64,
    value: Seq<u8>,
    other: (Seq<u8>, u64),
)
    ensures
        v.with_cached(request_hash, block, value).block_cache.get((request_hash, block)) == Some(
            value,
        ),
        other != (request_hash, block) ==> v.with_cached(
            request_hash,
            block,
            value,
        ).block_cache.get(other) == v.block_cache.get(other),
{
}

/// Eviction forgets exactly the values of blocks before the one before the
/// current one.
pub proof fn law_eviction_keeps_two_blocks(v: StoreView, current_block: u64, k: (Seq<u8>, u64))
    ensures
        v.without_old_cache(current_block).block_cache.get(k) == (if k.1 + 1 < current_block {
            None
        } else {
            v.block_cache.get(k)
        }),
        v.without_old_cache(current_block).without_old_cache(current_block)
            == v.without_old_cache(current_block),
{
    let once = v.without_old_cache(current_block);
    assert(once.without_old_cache(current_block).block_cache =~= once.block_cache);
}

/// Commit, then reveal what was committed to: the reveal matches, and its value
/// is read back as verified.
pub proof fn law_a_reveal_of_the_committed_value_is_verified(
    v: StoreView,
    c: CommitView,
    r: RevealView,
)
    requires
        c.request_hash == r.request_hash,
        c.validator == r.validator,
        c.commitment == keccak(commitment_preimage(r.value, r.salt)),
        r.verified == v.with_commit(c).matches_commit(
            r.request_hash,
            r.validator,
            r.value,
            r.salt,
        ),
    ensures
        v.with_commit(c).matches_commit(r.request_hash, r.validator, r.value, r.salt),
        v.with_commit(c).with_reveal(r).verified_reveal(r.request_hash, r.validator) == Some(
            r.value,
        ),
{
}

/// A reveal of anything else than what was committed to does not match, and
/// nothing is read back of it.
pub proof fn law_a_reveal_of_another_value_is_not_verified(
    v: StoreView,
    c: CommitView,
    r: RevealView,
    domain: Seq<char>,
    now_secs: u64,
    cert_now: (i128, bool),
)
    requires
        c.request_hash == r.request_hash,
        c.validator == r.validator,
        c.commitment != keccak(commitment_preimage(r.value, r.salt)),
        r.verified == v.with_commit(c).matches_commit(
            r.request_hash,
            r.validator,
            r.value,
            r.salt,
        ),
    ensures
        !r.verified,
        v.with_commit(c).with_reveal(r).verified_reveal(r.request_hash, r.validator) is None,
        v.with_commit(c).with_reveal(r).reveal_outcome(
            r.request_hash,
            r.validator,
            domain,
            now_secs,
            cert_now,
        ) == OutcomeView::Rejected("commitment mismatch"@),
{
}

/// A reveal without a commitment matches nothing, whatever its value and salt.
pub proof fn law_a_reveal_without_a_commit_is_not_verified(
    v: StoreView,
    request_hash: Seq<u8>,
    validator: Seq<u8>,
    value: Seq<u8>,
    salt: Seq<u8>,
)
    requires
        !v.commits.dom().contains((request_hash, validator)),
    ensures
        !v.matches_commit(request_hash, validator, value, salt),
{
}

/// The commitment of one validator vouches for no reveal of another, and that for
/// one request for no other.
pub proof fn law_a_commit_binds_its_own_reveal_only(
    v: StoreView,
    c: CommitView,
    request_hash: Seq<u8>,
    validator: Seq<u8>,
)
    requires
        (request_hash, validator) != (c.request_hash, c.validator),
    ensures
        v.with_commit(c).commitment(request_hash, validator) == v.commitment(
            request_hash,
            validator,
        ),
{
}

/// A reveal is held against the commitment that was there when it came: one that
/// comes later changes nothing of it.
pub proof fn law_a_later_commit_does_not_change_a_reveal(
    v: StoreView,
    c: CommitView,
    request_hash: Seq<u8>,
    validator: Seq<u8>,
)
    ensures
        v.with_commit(c).verified_reveal(request_hash, validator) == v.verified_reveal(
            request_hash,
            validator,
        ),
{
}

/// A node waits for a reveal exactly as long as none is there.
pub proof fn law_a_node_waits_while_no_reveal_is_there(
    v: StoreView,
    request_hash: Seq<u8>,
    validator: Seq<u8>,
    domain: Seq<char>,
    now_secs: u64,
    cert_now: (i128, bool),
)
    ensures
        v.reveal_outcome(request_hash, validator, domain, now_secs, cert_now)
            == OutcomeView::Pending <==> !v.reveals.dom().contains((request_hash, validator)),
{
}

/// A value is taken exactly where a reveal is there that matched its commitment,
/// whose attestation the validator signed, whose certificate vouches for the
/// domain and whose time is fresh; and it is the value of that reveal.
pub proof fn law_a_value_is_taken_only_with_a_commit_and_an_attestation(
    v: StoreView,
    request_hash: Seq<u8>,
    validator: Seq<u8>,
    domain: Seq<char>,
    now_secs: u64,
    cert_now: (i128, bool),
    value: Seq<u8>,
)
    requires
        v.valid(),
    ensures
        v.reveal_outcome(request_hash, validator, domain, now_secs, cert_now)
            == OutcomeView::Verified(value) <==> {
            let r = v.reveals[(request_hash, validator)];
            &&& v.verified_reveal(request_hash, validator) == Some(value)
            &&& recovered_signer(
                attestation_digest(
                    request_hash,
                    domain,
                    r.cert_der,
                    r.response_hash,
                    r.timestamp_secs,
                ),
                r.attestation_sig,
            ) == Some(validator)
            &&& certificate_fault(r.cert_der, certificate_in(r.cert_der), cert_now, domain)
                is None
            &&& is_fresh(r.timestamp_secs, now_secs)
        },
        v.reveal_outcome(request_hash, validator, domain, now_secs, cert_now)
            == OutcomeView::Verified(value) ==> v.commits.dom().contains((request_hash, validator)),
{
}

/// An honest fetcher is believed: where it commits to a value, reveals it under
/// the salt of its commitment, and signed for the request, the domain, the
/// certificate, the response and the time, then a peer whose clock finds the
/// certificate and the time in order takes the value.
pub proof fn law_an_honest_fetcher_is_believed(
    v: StoreView,
    c: CommitView,
    r: RevealView,
    domain: Seq<char>,
    now_secs: u64,
    cert_now: (i128, bool),
)
    requires
        c.request_hash == r.request_hash,
        c.validator == r.validator,
        c.commitment == keccak(commitment_preimage(r.value, r.salt)),
        r.verified == v.with_commit(c).matches_commit(
            r.request_hash,
            r.validator,
            r.value,
            r.salt,
        ),
        recovered_signer(
            attestation_digest(
                r.request_hash,
                domain,
                r.cert_der,
                r.response_hash,
                r.timestamp_secs,
            ),
            r.attestation_sig,
        ) == Some(r.validator),
        certificate_fault(r.cert_der, certificate_in(r.cert_der), cert_now, domain) is None,
        is_fresh(r.timestamp_secs, now_secs),
    ensures
        v.with_commit(c).with_reveal(r).reveal_outcome(
            r.request_hash,
            r.validator,
            domain,
            now_secs,
            cert_now,
        ) == OutcomeView::Verified(r.value),
{
}

/// A request that was stored is read back as it was given, with no submissions.
pub proof fn law_a_stored_request_is_read_back(v: StoreView, q: RequestView, other: Seq<u8>)
    ensures
        v.with_request(q).pending.get(q.request_id) == Some(q),
        v.with_request(q).submissions.get(q.request_id) == Some(Seq::<SubmissionView>::empty()),
        other != q.request_id ==> v.with_request(q).pending.get(other) == v.pending.get(other),
        other != q.request_id ==> v.with_request(q).submissions.get(other) == v.submissions.get(
            other,
        ),
{
}

/// Once a validator's submission is taken, every other one of that validator for
/// that request is refused, until the request is made anew.
pub proof fn law_a_validator_submits_once(
    v: StoreView,
    s: SubmissionView,
    block_number: u64,
)
    requires
        v.submission_fault(s.request_id, s.validator, s.block_submitted) is None,
    ensures
        v.with_submission(s).submission_fault(s.request_id, s.validator, block_number) is Some,
        block_number <= v.pending[s.request_id].block_created + SUBMISSION_WINDOW
            ==> v.with_submission(s).submission_fault(s.request_id, s.validator, block_number)
            == Some("Validator already submitted"@),
{
    let after = v.with_submission(s);
    let row = v.submissions[s.request_id];
    assert(after.submissions[s.request_id][row.len() as int] == s);
    assert(after.has_submitted(s.request_id, s.validator));
}

/// No request has two submissions of one validator, nor one of a validator that
/// is not registered.
pub proof fn law_submissions_are_one_for_each_validator(v: StoreView, id: Seq<u8>, i: int, j: int)
    requires
        v.valid(),
        v.pending.dom().contains(id),
        0 <= i < v.submissions[id].len(),
        0 <= j < v.submissions[id].len(),
    ensures
        v.submissions[id][i].validator == v.submissions[id][j].validator ==> i == j,
        v.validators.contains(v.submissions[id][i].validator),
{
    assert(v.valid_submissions(id));
}

/// After its window is over a request takes no submission, whoever sends it.
pub proof fn law_a_closed_window_takes_nothing(
    v: StoreView,
    id: Seq<u8>,
    validator: Seq<u8>,
    block_number: u64,
)
    requires
        v.pending.dom().contains(id) ==> block_number > v.pending[id].block_created
            + SUBMISSION_WINDOW,
    ensures
        v.submission_fault(id, validator, block_number) is Some,
{
}

/// A settled request takes no submission, and says so.
pub proof fn law_a_settled_request_takes_nothing(
    v: StoreView,
    f: FinalizedView,
    validator: Seq<u8>,
    block_number: u64,
)
    requires
        v.pending.dom().contains(f.request_id),
    ensures
        v.with_result(f).submission_fault(f.request_id, validator, block_number) == Some(
            "Request not pending, status: "@ + "Finalized"@,
        ),
        v.with_status(f.request_id, RequestStatus::TimedOut).submission_fault(
            f.request_id,
            validator,
            block_number,
        ) == Some("Request not pending, status: "@ + "TimedOut"@),
        v.with_result(f).finalized.get(f.request_id) == Some(f),
{
}

/// At every block a pending request is either still open or ready to be
/// finalized, never both; a settled one is neither.
pub proof fn law_a_pending_request_is_open_or_ready(q: RequestView, current_block: u64)
    ensures
        q.status == RequestStatus::Pending <==> StoreView::is_open(q, current_block)
            || StoreView::is_ready(q, current_block),
        !(StoreView::is_open(q, current_block) && StoreView::is_ready(q, current_block)),
{
}

/// A list of the open requests and one of those that are ready hold together each
/// pending request of the store once, and nothing else.
pub proof fn law_the_two_lists_share_out_the_pending_requests(
    v: StoreView,
    open: Seq<RequestView>,
    ready: Seq<RequestView>,
    current_block: u64,
    q: RequestView,
)
    requires
        v.lists(open, |q: RequestView| StoreView::is_open(q, current_block)),
        v.lists(ready, |q: RequestView| StoreView::is_ready(q, current_block)),
    ensures
        open.contains(q) || ready.contains(q) <==> v.holds(q) && q.status
            == RequestStatus::Pending,
        !(open.contains(q) && ready.contains(q)),
{
}

/// Cleaning up takes the spent requests out with all that belongs to them, and
/// leaves every other as it was. To do it again changes nothing.
pub proof fn law_cleanup_takes_out_what_is_spent(
    v: StoreView,
    current_block: u64,
    max_age: u64,
    id: Seq<u8>,
)
    requires
        v.valid(),
    ensures
        v.spends(id, current_block, max_age) ==> {
            let after = v.after_cleanup(current_block, max_age);
            &&& after.pending.get(id) is None
            &&& after.submissions.get(id) is None
            &&& after.finalized.get(id) is None
        },
        !v.spends(id, current_block, max_age) ==> {
            let after = v.after_cleanup(current_block, max_age);
            &&& after.pending.get(id) == v.pending.get(id)
            &&& after.submissions.get(id) == v.submissions.get(id)
            &&& after.finalized.get(id) == v.finalized.get(id)
        },
        v.after_cleanup(current_block, max_age).after_cleanup(current_block, max_age)
            == v.after_cleanup(current_block, max_age),
{
    let once = v.after_cleanup(current_block, max_age);
    let twice = once.after_cleanup(current_block, max_age);
    assert(twice.pending =~= once.pending);
    assert(twice.submissions =~= once.submissions);
    assert(twice.finalized =~= once.finalized);
}

/// A pending request is never cleaned up.
pub proof fn law_cleanup_leaves_pending_requests(
    v: StoreView,
    current_block: u64,
    max_age: u64,
    id: Seq<u8>,
)
    requires
        v.pending.dom().contains(id),
        v.pending[id].status == RequestStatus::Pending,
    ensures
        v.after_cleanup(current_block, max_age).pending.get(id) == Some(v.pending[id]),
{
}

/// Requests that differ in their block, their place in it or their nonce have
/// identifiers that are hashes of different bytes.
pub proof fn law_request_id_preimage_is_injective(
    block: u64,
    index: u64,
    nonce: u64,
    other_block: u64,
    other_index: u64,
    other_nonce: u64,
)
    requires
        request_id_preimage(block, index, nonce) == request_id_preimage(
            other_block,
            other_index,
            other_nonce,
        ),
    ensures
        block == other_block,
        index == other_index,
        nonce == other_nonce,
{
    lemma_be_bytes_value(block);
    lemma_be_bytes_value(index);
    lemma_be_bytes_value(nonce);
    lemma_be_bytes_value(other_block);
    lemma_be_bytes_value(other_index);
    lemma_be_bytes_value(other_nonce);
    let a = request_id_preimage(block, index, nonce);
    let b = request_id_preimage(other_block, other_index, other_nonce);
    assert(a.subrange(0, 8) =~= be_bytes(block));
    assert(b.subrange(0, 8) =~= be_bytes(other_block));
    assert(a.subrange(8, 16) =~= be_bytes(index));
    assert(b.subrange(8, 16) =~= be_bytes(other_index));
    assert(a.subrange(16, 24) =~= be_bytes(nonce));
    assert(b.subrange(16, 24) =~= be_bytes(other_nonce));
}

} // verus!

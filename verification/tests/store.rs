use externevm::extern_proto::compute_commitment;
use externevm::identity::node_validator_address;
use externevm::primitives::{Address, B256};
use externevm::protocol_store::{
    ProtocolStore, RequestStatus, RevealOutcome, ValidatorCommit, API_READ_GAS, API_REQUEST_GAS,
    SUBMISSION_THRESHOLD_PERCENT, SUBMISSION_WINDOW,
};

fn address(text: &str) -> Address {
    node_validator_address(Some(text))
}

fn keccak256(data: &[u8]) -> B256 {
    B256(alloy_primitives::keccak256(data).0)
}

fn test_store() -> ProtocolStore {
    let mut store = ProtocolStore::new();
    store.register_validator(address("f39Fd6e51aad88F6F4ce6aB8827279cffFb92266"));
    store.register_validator(address("70997970C51812dc3A010C7d01b50e0d17dc79C8"));
    store.register_validator(address("3C44CdDdB6a900fa2b585dd299e03d12FA4293BC"));
    store
}

fn request(store: &mut ProtocolStore, block: u64) -> B256 {
    let rid = store.generate_request_id(block, 0);
    store.create_request(rid, block, "https://api.example.com".into(), "GET".into(), vec![], vec![], "value".into(), 1)
}

#[test]
fn test_create_request_and_read() {
    let mut store = test_store();
    let rid = store.generate_request_id(100, 0);
    store.create_request(rid, 100, "https://api.example.com/price".into(), "GET".into(), vec![], vec![], "price".into(), 1);
    let req = store.get_request(&rid).unwrap();
    assert_eq!(req.url, "https://api.example.com/price");
    assert_eq!(req.status, RequestStatus::Pending);
}

#[test]
fn test_submit_and_finalize() {
    let mut store = test_store();
    let rid = store.generate_request_id(100, 0);
    let v1 = address("f39Fd6e51aad88F6F4ce6aB8827279cffFb92266");
    let v2 = address("70997970C51812dc3A010C7d01b50e0d17dc79C8");
    store.create_request(rid, 100, "https://api.example.com/price".into(), "GET".into(), vec![], vec![], "price".into(), 1);
    store.submit_value(rid, v1, vec![1, 2, 3], 101).unwrap();
    store.submit_value(rid, v2, vec![4, 5, 6], 101).unwrap();
    assert_eq!(store.get_submissions(&rid).len(), 2);
    store.finalize_request(rid, vec![7, 8, 9], 2, 103).unwrap();
    let result = store.get_finalized_result(&rid).unwrap();
    assert_eq!(result.value, vec![7, 8, 9]);
    assert_eq!(store.get_request_status(&rid).unwrap(), RequestStatus::Finalized);
}

#[test]
fn test_duplicate_submission_rejected() {
    let mut store = test_store();
    let rid = store.generate_request_id(100, 0);
    let v1 = address("f39Fd6e51aad88F6F4ce6aB8827279cffFb92266");
    store.create_request(rid, 100, "https://api.example.com".into(), "GET".into(), vec![], vec![], "value".into(), 1);
    store.submit_value(rid, v1, vec![1, 2], 100).unwrap();
    assert_eq!(store.submit_value(rid, v1, vec![3, 4], 101).unwrap_err(), "Validator already submitted");
}

#[test]
fn test_submission_window_enforced() {
    let mut store = test_store();
    let rid = store.generate_request_id(100, 0);
    let v1 = address("f39Fd6e51aad88F6F4ce6aB8827279cffFb92266");
    store.create_request(rid, 100, "https://api.example.com".into(), "GET".into(), vec![], vec![], "value".into(), 1);
    assert_eq!(store.submit_value(rid, v1, vec![1, 2], 103).unwrap_err(), "Submission window closed");
}

#[test]
fn test_unregistered_validator_rejected() {
    let mut store = test_store();
    let rid = store.generate_request_id(100, 0);
    let unknown = address("dead000000000000000000000000000000000000");
    store.create_request(rid, 100, "https://api.example.com".into(), "GET".into(), vec![], vec![], "value".into(), 1);
    assert_eq!(store.submit_value(rid, unknown, vec![1, 2], 100).unwrap_err(), "Not a registered validator");
}

#[test]
fn test_timeout() {
    let mut store = test_store();
    let rid = store.generate_request_id(100, 0);
    store.create_request(rid, 100, "https://api.example.com".into(), "GET".into(), vec![], vec![], "value".into(), 1);
    store.timeout_request(rid).unwrap();
    assert_eq!(store.get_request_status(&rid).unwrap(), RequestStatus::TimedOut);
}

#[test]
fn test_designate_fetcher_deterministic() {
    let store = test_store();
    let hash = B256::from([0xAAu8; 32]);
    let f1 = store.designate_fetcher(hash);
    let f2 = store.designate_fetcher(hash);
    assert_eq!(f1, f2);
    assert!(f1.is_some());
}

#[test]
fn test_designate_fetcher_empty() {
    let store = ProtocolStore::new();
    assert!(store.designate_fetcher(B256::from([0u8; 32])).is_none());
}

#[test]
fn test_designate_fetcher_distribution() {
    let store = test_store();
    let mut seen = std::collections::HashSet::new();
    for i in 0u8..=255 {
        let mut h = [0u8; 32];
        h[0] = i;
        let hash = B256::from(h);
        if let Some(f) = store.designate_fetcher(hash) {
            seen.insert(f);
        }
    }
    assert_eq!(seen.len(), 3);
}

#[test]
fn test_in_block_cache_roundtrip() {
    let mut store = ProtocolStore::new();
    let hash = B256::from([0x01u8; 32]);
    store.populate_cache(hash, 10, vec![1, 2, 3]);
    assert_eq!(store.check_cache(hash, 10), Some(vec![1, 2, 3]));
    assert!(store.check_cache(hash, 11).is_none());
}

#[test]
fn test_evict_old_cache_entries() {
    let mut store = ProtocolStore::new();
    let hash = B256::from([0x02u8; 32]);
    store.populate_cache(hash, 5, vec![9, 9, 9]);
    store.evict_old_cache_entries(10);
    assert!(store.check_cache(hash, 5).is_none());
}

#[test]
fn test_commit_reveal_happy_path() {
    let mut store = ProtocolStore::new();
    let request_hash = B256::from([0xBBu8; 32]);
    let validator = address("f39Fd6e51aad88F6F4ce6aB8827279cffFb92266");
    let value = vec![0u8; 31].into_iter().chain([42u8]).collect::<Vec<_>>();
    let salt = [0xCCu8; 32];

    let mut preimage = value.clone();
    preimage.extend_from_slice(&salt);
    let commitment = keccak256(&preimage);

    store.store_commit(ValidatorCommit { request_hash, validator, commitment, received_at_ms: 0 });

    let verified = store.store_reveal(
        request_hash, validator, value.clone(), salt,
        vec![], B256::zero(), 0, vec![],
    );
    assert!(verified);
    assert_eq!(store.get_verified_reveal(request_hash, validator), Some(value));
}

#[test]
fn test_commit_reveal_mismatch() {
    let mut store = ProtocolStore::new();
    let request_hash = B256::from([0xCCu8; 32]);
    let validator = address("70997970C51812dc3A010C7d01b50e0d17dc79C8");
    let value = vec![1, 2, 3, 4];
    let salt = [0xAAu8; 32];
    let wrong_salt = [0xBBu8; 32];

    let mut preimage = value.clone();
    preimage.extend_from_slice(&salt);
    let commitment = keccak256(&preimage);

    store.store_commit(ValidatorCommit { request_hash, validator, commitment, received_at_ms: 0 });

    let verified = store.store_reveal(
        request_hash, validator, value, wrong_salt,
        vec![], B256::zero(), 0, vec![],
    );
    assert!(!verified);
    assert!(store.get_verified_reveal(request_hash, validator).is_none());
}

#[test]
fn test_reveal_without_commit_fails() {
    let mut store = ProtocolStore::new();
    let request_hash = B256::from([0xDDu8; 32]);
    let validator = address("3C44CdDdB6a900fa2b585dd299e03d12FA4293BC");
    let verified = store.store_reveal(
        request_hash, validator, vec![1, 2, 3], [0u8; 32],
        vec![], B256::zero(), 0, vec![],
    );
    assert!(!verified);
}

#[test]
fn test_cleanup() {
    let mut store = test_store();
    let rid = store.generate_request_id(100, 0);
    store.create_request(rid, 100, "https://api.example.com".into(), "GET".into(), vec![], vec![], "value".into(), 1);
    store.finalize_request(rid, vec![1, 2, 3], 1, 103).unwrap();
    store.cleanup(140, 50);
    assert!(store.get_request(&rid).is_some());
    store.cleanup(200, 50);
    assert!(store.get_request(&rid).is_none());
    assert!(store.get_finalized_result(&rid).is_none());
}

#[test]
fn test_check_reveal_pending_when_absent() {
    let store = ProtocolStore::new();
    let rh = B256::from([0x66u8; 32]);
    let v = address("f39Fd6e51aad88F6F4ce6aB8827279cffFb92266");
    assert!(matches!(store.check_reveal(rh, v, "api.x.com", 1000), RevealOutcome::Pending));
}

#[test]
fn test_check_reveal_rejects_commit_mismatch() {
    let mut store = ProtocolStore::new();
    let rh = B256::from([0x55u8; 32]);
    let v = address("f39Fd6e51aad88F6F4ce6aB8827279cffFb92266");
    let value = vec![1, 2, 3, 4];
    let salt = [0xAAu8; 32];
    let mut preimage = value.clone();
    preimage.extend_from_slice(&salt);
    let commitment = keccak256(&preimage);
    store.store_commit(ValidatorCommit { request_hash: rh, validator: v, commitment, received_at_ms: 0 });
    store.store_reveal(rh, v, value, [0xBBu8; 32], vec![], B256::zero(), 0, vec![]);
    assert!(matches!(store.check_reveal(rh, v, "api.x.com", 1000), RevealOutcome::Rejected(_)));
}

#[test]
fn constants_are_those_of_the_protocol() {
    assert_eq!(SUBMISSION_WINDOW, 2);
    assert_eq!(SUBMISSION_THRESHOLD_PERCENT, 51);
    assert_eq!(API_REQUEST_GAS, 10_000);
    assert_eq!(API_READ_GAS, 3_000);
}

#[test]
fn a_validator_is_registered_once_and_stays_in_its_place() {
    let mut store = test_store();
    let first = address("f39Fd6e51aad88F6F4ce6aB8827279cffFb92266");
    store.register_validator(first);
    assert_eq!(store.validator_count(), 3);
    assert_eq!(store.get_validators()[0], first);
    assert!(store.is_validator(&first));
    assert!(!store.is_validator(&Address::from([0; 20])));
}

#[test]
fn the_first_eight_bytes_of_the_hash_pick_the_fetcher() {
    let store = test_store();
    let validators = store.get_validators();
    for place in 0usize..3 {
        let mut h = [0xFFu8; 32];
        h[..8].copy_from_slice(&(place as u64).to_be_bytes());
        assert_eq!(store.designate_fetcher(B256::from(h)), Some(validators[place]));
        h[..8].copy_from_slice(&(300 + place as u64).to_be_bytes());
        assert_eq!(store.designate_fetcher(B256::from(h)), Some(validators[place]));
    }
}

#[test]
fn eviction_keeps_the_current_block_and_the_one_before() {
    let mut store = ProtocolStore::new();
    let hash = B256::from([3; 32]);
    for block in 7..=11 {
        store.populate_cache(hash, block, vec![block as u8]);
    }
    store.evict_old_cache_entries(10);
    assert!(store.check_cache(hash, 7).is_none());
    assert!(store.check_cache(hash, 8).is_none());
    assert_eq!(store.check_cache(hash, 9), Some(vec![9]));
    assert_eq!(store.check_cache(hash, 10), Some(vec![10]));
    assert_eq!(store.check_cache(hash, 11), Some(vec![11]));
    store.evict_old_cache_entries(0);
    assert_eq!(store.check_cache(hash, 9), Some(vec![9]));
}

#[test]
fn a_later_value_takes_the_place_of_an_earlier_one() {
    let mut store = ProtocolStore::new();
    let hash = B256::from([3; 32]);
    store.populate_cache(hash, 1, vec![1]);
    store.populate_cache(hash, 1, vec![2]);
    assert_eq!(store.check_cache(hash, 1), Some(vec![2]));
}

#[test]
fn a_commitment_is_read_back_for_its_validator_only() {
    let mut store = ProtocolStore::new();
    let (request_hash, validator) = (B256::from([1; 32]), Address::from([2; 20]));
    store.store_commit(ValidatorCommit { request_hash, validator, commitment: B256::from([3; 32]), received_at_ms: 4 });
    assert_eq!(store.get_commitment(request_hash, validator), Some(B256::from([3; 32])));
    assert_eq!(store.get_commitment(request_hash, Address::from([9; 20])), None);
    assert_eq!(store.get_commitment(B256::from([9; 32]), validator), None);
}

#[test]
fn a_commitment_that_comes_later_changes_nothing_of_a_reveal() {
    let mut store = ProtocolStore::new();
    let (request_hash, validator) = (B256::from([1; 32]), Address::from([2; 20]));
    let commitment = compute_commitment(&[5, 6], &[7; 32]);
    store.store_commit(ValidatorCommit { request_hash, validator, commitment, received_at_ms: 0 });
    assert!(store.store_reveal(request_hash, validator, vec![5, 6], [7; 32], vec![], B256::zero(), 0, vec![]));
    store.store_commit(ValidatorCommit { request_hash, validator, commitment: B256::zero(), received_at_ms: 1 });
    assert_eq!(store.get_verified_reveal(request_hash, validator), Some(vec![5, 6]));
}

#[test]
fn request_identifiers_take_the_next_nonce() {
    let mut store = ProtocolStore::new();
    let hash = |nonce: u64| {
        let mut data = 100u64.to_be_bytes().to_vec();
        data.extend_from_slice(&7u64.to_be_bytes());
        data.extend_from_slice(&nonce.to_be_bytes());
        keccak256(&data)
    };
    assert_eq!(store.generate_request_id(100, 7), hash(0));
    assert_eq!(store.generate_request_id(100, 7), hash(1));
    store.reset_nonce();
    assert_eq!(store.generate_request_id(100, 7), hash(0));
}

#[test]
fn submissions_are_refused_for_requests_that_are_not_there_or_settled() {
    let mut store = test_store();
    let v1 = store.get_validators()[0];
    assert_eq!(store.submit_value(B256::zero(), v1, vec![], 0).unwrap_err(), "Request not found");
    let a = request(&mut store, 100);
    store.finalize_request(a, vec![], 0, 101).unwrap();
    assert_eq!(store.submit_value(a, v1, vec![], 100).unwrap_err(), "Request not pending, status: Finalized");
    let b = request(&mut store, 100);
    store.timeout_request(b).unwrap();
    assert_eq!(store.submit_value(b, v1, vec![], 100).unwrap_err(), "Request not pending, status: TimedOut");
    assert_eq!(store.finalize_request(B256::zero(), vec![], 0, 0).unwrap_err(), "Request not found");
    assert_eq!(store.timeout_request(B256::zero()).unwrap_err(), "Request not found");
}

#[test]
fn the_last_block_of_the_window_takes_submissions() {
    let mut store = test_store();
    let v1 = store.get_validators()[0];
    let rid = request(&mut store, 100);
    store.submit_value(rid, v1, vec![8], 102).unwrap();
    let row = store.get_submissions(&rid);
    assert_eq!(row[0].value, vec![8]);
    assert_eq!(row[0].validator, v1);
    assert_eq!(row[0].block_submitted, 102);
    assert_eq!(row[0].request_id, rid);
    assert!(store.get_submissions(&B256::zero()).is_empty());
}

#[test]
fn a_request_that_is_made_anew_takes_submissions_anew() {
    let mut store = test_store();
    let v1 = store.get_validators()[0];
    let rid = request(&mut store, 100);
    store.submit_value(rid, v1, vec![8], 100).unwrap();
    store.create_request(rid, 200, "https://b".into(), "POST".into(), vec![1], vec![2], "x".into(), 2);
    assert!(store.get_submissions(&rid).is_empty());
    store.submit_value(rid, v1, vec![9], 202).unwrap();
    let req = store.get_request(&rid).unwrap();
    assert_eq!((req.block_created, req.headers, req.body, req.response_type), (200, vec![1], vec![2], 2));
}

#[test]
fn pending_requests_are_open_or_ready() {
    let mut store = test_store();
    let old = request(&mut store, 100);
    let new = request(&mut store, 110);
    let settled = request(&mut store, 100);
    store.timeout_request(settled).unwrap();
    let ready = store.get_requests_ready_to_finalize(103);
    assert_eq!(ready.len(), 1);
    assert_eq!(ready[0].request_id, old);
    let open = store.get_pending_requests(103);
    assert_eq!(open.len(), 1);
    assert_eq!(open[0].request_id, new);
    assert!(store.get_requests_ready_to_finalize(102).is_empty());
    assert_eq!(store.get_pending_requests(102).len(), 2);
}

#[test]
fn cleaning_up_takes_out_settled_requests_above_the_age_and_no_others() {
    let mut store = test_store();
    let v1 = store.get_validators()[0];
    let pending = request(&mut store, 100);
    let timed_out = request(&mut store, 100);
    let younger = request(&mut store, 120);
    store.submit_value(timed_out, v1, vec![1], 100).unwrap();
    store.timeout_request(timed_out).unwrap();
    store.finalize_request(younger, vec![7], 1, 123).unwrap();
    store.cleanup(151, 50);
    assert!(store.get_request(&pending).is_some());
    assert!(store.get_request(&timed_out).is_none());
    assert!(store.get_submissions(&timed_out).is_empty());
    assert_eq!(store.get_finalized_result(&younger).unwrap().value, vec![7]);
    store.cleanup(170, 50);
    assert!(store.get_request(&younger).is_some());
    store.cleanup(171, 50);
    assert!(store.get_request(&younger).is_none());
}

#[test]
fn a_result_says_what_it_was_finalized_with() {
    let mut store = test_store();
    let rid = request(&mut store, 100);
    assert!(store.get_finalized_result(&rid).is_none());
    store.finalize_request(rid, vec![1, 2], 3, 104).unwrap();
    let f = store.get_finalized_result(&rid).unwrap();
    assert_eq!((f.request_id, f.value, f.num_submissions, f.finalized_at_block), (rid, vec![1, 2], 3, 104));
    assert!(store.get_request_status(&B256::zero()).is_none());
}

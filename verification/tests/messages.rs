use externevm::extern_proto::{
    compute_attestation_digest, compute_commitment, compute_request_hash, ExternCommitMsg,
    ExternDataMsg, ExternRevealMsg,
};
use externevm::primitives::{Address, B256};

#[test]
fn test_extern_data_msg_rlp_roundtrip() {
    let msg = ExternDataMsg {
        request_hash: B256::from([0xABu8; 32]),
        value: vec![0x00, 0x01, 0x02, 0x03],
        response_type: 1,
        validator: Address::from([0xCCu8; 20]),
    };
    let mut buf = Vec::new();
    msg.encode(&mut buf);
    let (decoded, rest) = ExternDataMsg::decode(&buf).unwrap();
    assert_eq!(msg, decoded);
    assert!(rest.is_empty());
}

#[test]
fn test_extern_commit_msg_rlp_roundtrip() {
    let msg = ExternCommitMsg {
        request_hash: B256::from([0xAAu8; 32]),
        commitment: B256::from([0xBBu8; 32]),
        validator: Address::from([0x01u8; 20]),
    };
    let mut buf = Vec::new();
    msg.encode(&mut buf);
    let (decoded, rest) = ExternCommitMsg::decode(&buf).unwrap();
    assert_eq!(msg, decoded);
    assert!(rest.is_empty());
}

#[test]
fn test_extern_reveal_msg_rlp_roundtrip() {
    let msg = ExternRevealMsg {
        request_hash: B256::from([0xCCu8; 32]),
        value: vec![0u8; 32],
        salt: B256::from([0xDDu8; 32]),
        validator: Address::from([0x02u8; 20]),
        cert_der: vec![0xDE, 0xAD, 0xBE, 0xEF, 0x01, 0x02],
        response_hash: B256::from([0xEEu8; 32]),
        timestamp_secs: 1_700_000_000,
        attestation_sig: vec![0x7Au8; 65],
    };
    let mut buf = Vec::new();
    msg.encode(&mut buf);
    let (decoded, rest) = ExternRevealMsg::decode(&buf).unwrap();
    assert_eq!(msg, decoded);
    assert!(rest.is_empty());
}

#[test]
fn test_compute_request_hash_deterministic() {
    let h1 = compute_request_hash("https://api.coingecko.com/api/v3/simple/price?ids=bitcoin&vs_currencies=usd", "GET", "bitcoin.usd", 1);
    let h2 = compute_request_hash("https://api.coingecko.com/api/v3/simple/price?ids=bitcoin&vs_currencies=usd", "GET", "bitcoin.usd", 1);
    assert_eq!(h1, h2);
    let h3 = compute_request_hash("https://api.coingecko.com/api/v3/simple/price?ids=ethereum&vs_currencies=usd", "GET", "ethereum.usd", 1);
    assert_ne!(h1, h3);
}

#[test]
fn test_compute_attestation_digest_deterministic() {
    let rh = B256::from([0x01u8; 32]);
    let resp = B256::from([0x02u8; 32]);
    let cert = vec![0xDEu8, 0xAD, 0xBE, 0xEF];
    let ts = 1_700_000_000u64;

    let d1 = compute_attestation_digest(rh, "api.coingecko.com", &cert, resp, ts);
    let d2 = compute_attestation_digest(rh, "api.coingecko.com", &cert, resp, ts);
    assert_eq!(d1, d2);

    assert_ne!(d1, compute_attestation_digest(B256::from([0xFFu8; 32]), "api.coingecko.com", &cert, resp, ts));
    assert_ne!(d1, compute_attestation_digest(rh, "api.evil.com", &cert, resp, ts));
    assert_ne!(d1, compute_attestation_digest(rh, "api.coingecko.com", &[0x00u8], resp, ts));
    assert_ne!(d1, compute_attestation_digest(rh, "api.coingecko.com", &cert, B256::from([0x99u8; 32]), ts));
    assert_ne!(d1, compute_attestation_digest(rh, "api.coingecko.com", &cert, resp, ts + 1));
}

#[test]
fn the_request_hash_is_that_of_the_parts_closed_by_ff() {
    let mut data = b"http://a".to_vec();
    data.push(0xFF);
    data.extend_from_slice(b"GET");
    data.push(0xFF);
    data.extend_from_slice(b"x.y");
    data.push(0xFF);
    data.push(2);
    assert_eq!(compute_request_hash("http://a", "GET", "x.y", 2).0, alloy_primitives::keccak256(&data).0);
}

#[test]
fn the_attestation_digest_is_that_of_the_parts_closed_by_ff() {
    let mut data = vec![1u8; 32];
    data.push(0xFF);
    data.extend_from_slice(b"host");
    data.push(0xFF);
    data.extend_from_slice(&alloy_primitives::keccak256([7u8, 8]).0);
    data.push(0xFF);
    data.extend_from_slice(&[2u8; 32]);
    data.push(0xFF);
    data.extend_from_slice(&0x0102030405060708u64.to_be_bytes());
    let digest = compute_attestation_digest(
        B256::from([1; 32]), "host", &[7, 8], B256::from([2; 32]), 0x0102030405060708,
    );
    assert_eq!(digest.0, alloy_primitives::keccak256(&data).0);
}

#[test]
fn a_commitment_is_the_hash_of_the_value_and_the_salt() {
    let mut data = vec![1u8, 2, 3];
    data.extend_from_slice(&[9u8; 32]);
    assert_eq!(compute_commitment(&[1, 2, 3], &[9; 32]).0, alloy_primitives::keccak256(&data).0);
}

#[test]
fn bytes_of_a_message_are_those_of_its_items_in_a_list() {
    let msg = ExternDataMsg {
        request_hash: B256::from([0x11; 32]),
        value: vec![0x00, 0x7F, 0x80],
        response_type: 0,
        validator: Address::from([0x22; 20]),
    };
    let mut expected = vec![0xF8, 33 + 5 + 1 + 21, 0xA0];
    expected.extend_from_slice(&[0x11; 32]);
    expected.extend_from_slice(&[0xC4, 0x80, 0x7F, 0x81, 0x80]);
    expected.push(0x80);
    expected.push(0x94);
    expected.extend_from_slice(&[0x22; 20]);
    let mut buf = Vec::new();
    msg.encode(&mut buf);
    assert_eq!(buf, expected);
}

#[test]
fn what_follows_a_message_is_left_over() {
    let msg = ExternCommitMsg {
        request_hash: B256::from([1; 32]),
        commitment: B256::from([2; 32]),
        validator: Address::from([3; 20]),
    };
    let mut buf = Vec::new();
    msg.encode(&mut buf);
    buf.extend_from_slice(&[5, 6]);
    let (decoded, rest) = ExternCommitMsg::decode(&buf).unwrap();
    assert_eq!(decoded, msg);
    assert_eq!(rest, &[5, 6]);
}

#[test]
fn bytes_that_are_no_message_are_not_read() {
    let msg = ExternCommitMsg {
        request_hash: B256::from([1; 32]),
        commitment: B256::from([2; 32]),
        validator: Address::from([3; 20]),
    };
    let mut buf = Vec::new();
    msg.encode(&mut buf);
    assert!(ExternCommitMsg::decode(&[]).is_none());
    assert!(ExternCommitMsg::decode(&buf[..buf.len() - 1]).is_none());
    assert!(ExternRevealMsg::decode(&buf).is_none());
    assert!(ExternDataMsg::decode(&[0xC0]).is_none());
    assert!(ExternDataMsg::decode(&[0x80]).is_none());
}

use externevm::attestation::{
    address_from_secret_key, attestation_fresh, recover_attestation_signer, sign_attestation,
    SigningKey,
};
use externevm::certificate::{
    dns_name_matches, judge_certificate, validate_cert_at, validate_cert_for_domain, Certificate,
    Moment,
};
use externevm::extern_proto::{compute_attestation_digest, compute_commitment};
use externevm::primitives::{Address, B256};
use externevm::protocol_store::{
    judge_reveal, ProtocolStore, RevealOutcome, ValidatorCommit, ValidatorReveal,
};

/// A certificate for `api.example.com`, `*.example.org` and an IP address, with
/// the common name `cn.example.net`, valid from 2020 to 2049.
const CERTIFICATE: [u8; 394] = [
    0x30, 0x82, 0x01, 0x86, 0x30, 0x82, 0x01, 0x2c, 0xa0, 0x03, 0x02, 0x01, 0x02, 0x02, 0x14, 0x37,
    0xfa, 0xb8, 0x92, 0xab, 0x15, 0x8c, 0x0a, 0x12, 0x62, 0x81, 0xd3, 0xee, 0xc1, 0x3a, 0x6d, 0x0a,
    0x18, 0x31, 0xcd, 0x30, 0x0a, 0x06, 0x08, 0x2a, 0x86, 0x48, 0xce, 0x3d, 0x04, 0x03, 0x02, 0x30,
    0x19, 0x31, 0x17, 0x30, 0x15, 0x06, 0x03, 0x55, 0x04, 0x03, 0x0c, 0x0e, 0x63, 0x6e, 0x2e, 0x65,
    0x78, 0x61, 0x6d, 0x70, 0x6c, 0x65, 0x2e, 0x6e, 0x65, 0x74, 0x30, 0x1e, 0x17, 0x0d, 0x32, 0x30,
    0x30, 0x31, 0x30, 0x31, 0x30, 0x30, 0x30, 0x30, 0x30, 0x30, 0x5a, 0x17, 0x0d, 0x34, 0x39, 0x31,
    0x32, 0x33, 0x31, 0x32, 0x33, 0x35, 0x39, 0x35, 0x39, 0x5a, 0x30, 0x19, 0x31, 0x17, 0x30, 0x15,
    0x06, 0x03, 0x55, 0x04, 0x03, 0x0c, 0x0e, 0x63, 0x6e, 0x2e, 0x65, 0x78, 0x61, 0x6d, 0x70, 0x6c,
    0x65, 0x2e, 0x6e, 0x65, 0x74, 0x30, 0x59, 0x30, 0x13, 0x06, 0x07, 0x2a, 0x86, 0x48, 0xce, 0x3d,
    0x02, 0x01, 0x06, 0x08, 0x2a, 0x86, 0x48, 0xce, 0x3d, 0x03, 0x01, 0x07, 0x03, 0x42, 0x00, 0x04,
    0x46, 0x5f, 0x13, 0x40, 0xd3, 0xbd, 0x74, 0xd7, 0x29, 0x3c, 0xbe, 0xed, 0xf7, 0xe4, 0x11, 0xb9,
    0xc8, 0xa0, 0x89, 0x55, 0x21, 0x50, 0xb7, 0xdc, 0xaf, 0x99, 0x80, 0x56, 0x87, 0x87, 0x90, 0x00,
    0x23, 0x58, 0xb5, 0xc0, 0xf7, 0x39, 0xd2, 0x20, 0x05, 0xc0, 0xbc, 0x38, 0x9a, 0x4a, 0x74, 0xed,
    0x87, 0x03, 0x67, 0xf8, 0x23, 0x47, 0x30, 0x6a, 0x08, 0xfd, 0xfd, 0x27, 0x86, 0x9f, 0x24, 0xe5,
    0xa3, 0x52, 0x30, 0x50, 0x30, 0x2f, 0x06, 0x03, 0x55, 0x1d, 0x11, 0x04, 0x28, 0x30, 0x26, 0x82,
    0x0f, 0x61, 0x70, 0x69, 0x2e, 0x65, 0x78, 0x61, 0x6d, 0x70, 0x6c, 0x65, 0x2e, 0x63, 0x6f, 0x6d,
    0x82, 0x0d, 0x2a, 0x2e, 0x65, 0x78, 0x61, 0x6d, 0x70, 0x6c, 0x65, 0x2e, 0x6f, 0x72, 0x67, 0x87,
    0x04, 0xc0, 0x00, 0x02, 0x01, 0x30, 0x1d, 0x06, 0x03, 0x55, 0x1d, 0x0e, 0x04, 0x16, 0x04, 0x14,
    0x4d, 0xb4, 0x44, 0x9b, 0x4f, 0x3e, 0xc6, 0xd4, 0x20, 0xf1, 0x75, 0x2c, 0x8e, 0xa0, 0xee, 0xe7,
    0xf0, 0x0e, 0x74, 0x52, 0x30, 0x0a, 0x06, 0x08, 0x2a, 0x86, 0x48, 0xce, 0x3d, 0x04, 0x03, 0x02,
    0x03, 0x48, 0x00, 0x30, 0x45, 0x02, 0x21, 0x00, 0xca, 0x28, 0x47, 0x08, 0x5f, 0x8c, 0xc3, 0xf6,
    0x43, 0x55, 0x1d, 0x85, 0xfe, 0x37, 0xf3, 0x29, 0xc1, 0x27, 0x13, 0x6c, 0xa0, 0x43, 0x1e, 0x01,
    0x04, 0xf6, 0xc7, 0x97, 0x0b, 0x75, 0xa8, 0x26, 0x02, 0x20, 0x43, 0x0d, 0xc9, 0x09, 0xdf, 0xe4,
    0x1c, 0x2f, 0x73, 0x54, 0xe3, 0x59, 0x07, 0xc5, 0x71, 0x2c, 0xe5, 0x17, 0xd6, 0x8f, 0x38, 0x96,
    0x99, 0xeb, 0x49, 0xb3, 0x21, 0xad, 0x59, 0x32, 0x2b, 0x9c,
];

/// The same, valid in 2020 only.
const OLD_CERTIFICATE: [u8; 395] = [
    0x30, 0x82, 0x01, 0x87, 0x30, 0x82, 0x01, 0x2c, 0xa0, 0x03, 0x02, 0x01, 0x02, 0x02, 0x14, 0x2c,
    0xe9, 0xc9, 0xf4, 0x84, 0x7e, 0xfd, 0xf1, 0xd5, 0xc7, 0x96, 0x21, 0xf6, 0x74, 0xac, 0x3e, 0x1e,
    0xdd, 0x48, 0xa4, 0x30, 0x0a, 0x06, 0x08, 0x2a, 0x86, 0x48, 0xce, 0x3d, 0x04, 0x03, 0x02, 0x30,
    0x19, 0x31, 0x17, 0x30, 0x15, 0x06, 0x03, 0x55, 0x04, 0x03, 0x0c, 0x0e, 0x63, 0x6e, 0x2e, 0x65,
    0x78, 0x61, 0x6d, 0x70, 0x6c, 0x65, 0x2e, 0x6e, 0x65, 0x74, 0x30, 0x1e, 0x17, 0x0d, 0x32, 0x30,
    0x30, 0x31, 0x30, 0x31, 0x30, 0x30, 0x30, 0x30, 0x30, 0x30, 0x5a, 0x17, 0x0d, 0x32, 0x31, 0x30,
    0x31, 0x30, 0x31, 0x30, 0x30, 0x30, 0x30, 0x30, 0x30, 0x5a, 0x30, 0x19, 0x31, 0x17, 0x30, 0x15,
    0x06, 0x03, 0x55, 0x04, 0x03, 0x0c, 0x0e, 0x63, 0x6e, 0x2e, 0x65, 0x78, 0x61, 0x6d, 0x70, 0x6c,
    0x65, 0x2e, 0x6e, 0x65, 0x74, 0x30, 0x59, 0x30, 0x13, 0x06, 0x07, 0x2a, 0x86, 0x48, 0xce, 0x3d,
    0x02, 0x01, 0x06, 0x08, 0x2a, 0x86, 0x48, 0xce, 0x3d, 0x03, 0x01, 0x07, 0x03, 0x42, 0x00, 0x04,
    0x46, 0x5f, 0x13, 0x40, 0xd3, 0xbd, 0x74, 0xd7, 0x29, 0x3c, 0xbe, 0xed, 0xf7, 0xe4, 0x11, 0xb9,
    0xc8, 0xa0, 0x89, 0x55, 0x21, 0x50, 0xb7, 0xdc, 0xaf, 0x99, 0x80, 0x56, 0x87, 0x87, 0x90, 0x00,
    0x23, 0x58, 0xb5, 0xc0, 0xf7, 0x39, 0xd2, 0x20, 0x05, 0xc0, 0xbc, 0x38, 0x9a, 0x4a, 0x74, 0xed,
    0x87, 0x03, 0x67, 0xf8, 0x23, 0x47, 0x30, 0x6a, 0x08, 0xfd, 0xfd, 0x27, 0x86, 0x9f, 0x24, 0xe5,
    0xa3, 0x52, 0x30, 0x50, 0x30, 0x2f, 0x06, 0x03, 0x55, 0x1d, 0x11, 0x04, 0x28, 0x30, 0x26, 0x82,
    0x0f, 0x61, 0x70, 0x69, 0x2e, 0x65, 0x78, 0x61, 0x6d, 0x70, 0x6c, 0x65, 0x2e, 0x63, 0x6f, 0x6d,
    0x82, 0x0d, 0x2a, 0x2e, 0x65, 0x78, 0x61, 0x6d, 0x70, 0x6c, 0x65, 0x2e, 0x6f, 0x72, 0x67, 0x87,
    0x04, 0xc0, 0x00, 0x02, 0x01, 0x30, 0x1d, 0x06, 0x03, 0x55, 0x1d, 0x0e, 0x04, 0x16, 0x04, 0x14,
    0x4d, 0xb4, 0x44, 0x9b, 0x4f, 0x3e, 0xc6, 0xd4, 0x20, 0xf1, 0x75, 0x2c, 0x8e, 0xa0, 0xee, 0xe7,
    0xf0, 0x0e, 0x74, 0x52, 0x30, 0x0a, 0x06, 0x08, 0x2a, 0x86, 0x48, 0xce, 0x3d, 0x04, 0x03, 0x02,
    0x03, 0x49, 0x00, 0x30, 0x46, 0x02, 0x21, 0x00, 0xc1, 0xf4, 0x9f, 0x15, 0x4e, 0xbb, 0xe1, 0x5a,
    0x01, 0x10, 0xd7, 0x28, 0xc7, 0xe8, 0x22, 0x8a, 0x52, 0x0c, 0x2e, 0xbe, 0x74, 0x7a, 0x7e, 0x58,
    0xc5, 0x63, 0x54, 0x3c, 0xee, 0xa3, 0xf7, 0xb9, 0x02, 0x21, 0x00, 0xe5, 0x5f, 0xf6, 0x73, 0x5b,
    0x00, 0x8c, 0x66, 0x36, 0x14, 0x83, 0x4e, 0x61, 0x8b, 0xd2, 0xbe, 0x04, 0x18, 0x30, 0x40, 0x47,
    0xc9, 0x1b, 0x6d, 0x03, 0xb4, 0x40, 0xec, 0xf7, 0xe7, 0x87, 0x7b,
];

fn key(byte: u8) -> SigningKey {
    SigningKey::from_bytes([byte; 32]).unwrap()
}

#[test]
fn test_recover_attestation_signer() {
    let secp = secp256k1::Secp256k1::new();
    let sk = secp256k1::SecretKey::from_slice(&[0x11u8; 32]).unwrap();
    let pk = secp256k1::PublicKey::from_secret_key(&secp, &sk);
    let unc = pk.serialize_uncompressed();
    let mut bytes = [0u8; 20];
    bytes.copy_from_slice(&alloy_primitives::keccak256(&unc[1..])[12..]);
    let addr = Address::from(bytes);

    let digest = B256::from([0x42u8; 32]);
    let msg = secp256k1::Message::from_digest(digest.0);
    let recoverable = secp.sign_ecdsa_recoverable(&msg, &sk);
    let (recid, compact) = recoverable.serialize_compact();
    let mut sig = compact.to_vec();
    sig.push(i32::from(recid) as u8);

    assert_eq!(recover_attestation_signer(digest, &sig), Some(addr));
    assert_ne!(recover_attestation_signer(B256::from([0x43u8; 32]), &sig), Some(addr));
    assert_eq!(recover_attestation_signer(digest, &[0u8; 10]), None);
}

#[test]
fn test_dns_name_matches() {
    assert!(dns_name_matches("api.coingecko.com", "api.coingecko.com"));
    assert!(dns_name_matches("API.CoinGecko.com", "api.coingecko.com"));
    assert!(dns_name_matches("*.coingecko.com", "api.coingecko.com"));
    assert!(!dns_name_matches("*.coingecko.com", "coingecko.com"));
    assert!(!dns_name_matches("*.coingecko.com", "a.b.coingecko.com"));
    assert!(!dns_name_matches("api.coingecko.com", "api.evil.com"));
}

#[test]
fn test_attestation_fresh() {
    assert!(attestation_fresh(1000, 1000));
    assert!(attestation_fresh(1000, 1200));
    assert!(!attestation_fresh(1000, 1400));
    assert!(attestation_fresh(1000, 990));
    assert!(!attestation_fresh(1000, 900));
}

#[test]
fn test_validate_cert_garbage_rejected() {
    assert!(validate_cert_for_domain(&[], "api.coingecko.com").is_err());
    assert!(validate_cert_for_domain(&[0x00, 0x01, 0x02, 0x03], "api.coingecko.com").is_err());
}

#[test]
fn freshness_ends_after_five_minutes_and_begins_a_minute_ahead() {
    assert!(attestation_fresh(1000, 1300));
    assert!(!attestation_fresh(1000, 1301));
    assert!(attestation_fresh(1060, 1000));
    assert!(!attestation_fresh(1061, 1000));
    assert!(attestation_fresh(0, 0));
}

#[test]
fn names_are_compared_without_white_space_and_case() {
    assert!(dns_name_matches(" a.b\t", "A.B"));
    assert!(dns_name_matches("\u{2003}a.b\u{3000}", "\u{a0}a.b\u{85}"));
    assert!(!dns_name_matches("\u{200b}a.b", "a.b"));
    assert!(dns_name_matches("*.B", "x.b"));
    assert!(dns_name_matches("*.b", "*.b"));
    assert!(!dns_name_matches("*.b", "b"));
    assert!(!dns_name_matches("*b", "ab"));
    assert!(dns_name_matches("", " "));
}

#[test]
fn an_address_is_the_end_of_the_hash_of_the_public_key() {
    let mut secret = [0u8; 32];
    secret[31] = 1;
    let expected = [
        0x7E, 0x5F, 0x45, 0x52, 0x09, 0x1A, 0x69, 0x12, 0x5d, 0x5D, 0xfC, 0xb7, 0xb8, 0xC2, 0x65, 0x90, 0x29, 0x39,
        0x5B, 0xdF,
    ];
    assert_eq!(address_from_secret_key(&SigningKey::from_bytes(secret).unwrap()), Address::from(expected));
}

#[test]
fn zero_and_the_order_of_the_curve_are_no_keys() {
    assert!(SigningKey::from_bytes([0; 32]).is_none());
    let order = [
        0xFF, 0xFF, 0xFF, 0xFF, 0xFF, 0xFF, 0xFF, 0xFF, 0xFF, 0xFF, 0xFF, 0xFF, 0xFF, 0xFF, 0xFF, 0xFE, 0xBA, 0xAE,
        0xDC, 0xE6, 0xAF, 0x48, 0xA0, 0x3B, 0xBF, 0xD2, 0x5E, 0x8C, 0xD0, 0x36, 0x41, 0x41,
    ];
    assert!(SigningKey::from_bytes(order).is_none());
    let mut below = order;
    below[31] = 0x40;
    assert!(SigningKey::from_bytes(below).is_some());
}

#[test]
fn what_a_key_signs_gives_its_address_back() {
    let sk = key(0x11);
    let digest = B256::from([0x42; 32]);
    let sig = sign_attestation(digest, &sk);
    assert_eq!(sig.len(), 65);
    assert!(sig[64] <= 1);
    assert_eq!(recover_attestation_signer(digest, &sig), Some(address_from_secret_key(&sk)));
    assert_ne!(recover_attestation_signer(B256::from([0x41; 32]), &sig), Some(address_from_secret_key(&sk)));
}

#[test]
fn a_signature_with_an_unknown_recovery_id_gives_no_signer() {
    let digest = B256::from([0x42; 32]);
    let mut sig = sign_attestation(digest, &key(0x11));
    sig[64] = 4;
    assert_eq!(recover_attestation_signer(digest, &sig), None);
    assert_eq!(recover_attestation_signer(digest, &[0u8; 65]), None);
    sig[64] = 0;
    sig.push(0);
    assert_eq!(recover_attestation_signer(digest, &sig), None);
}

#[test]
fn a_certificate_vouches_for_its_names_and_no_others() {
    assert_eq!(validate_cert_for_domain(&CERTIFICATE, "api.example.com"), Ok(()));
    assert_eq!(validate_cert_for_domain(&CERTIFICATE, "API.EXAMPLE.COM"), Ok(()));
    assert_eq!(validate_cert_for_domain(&CERTIFICATE, "www.example.org"), Ok(()));
    assert_eq!(validate_cert_for_domain(&CERTIFICATE, "cn.example.net"), Ok(()));
    assert_eq!(
        validate_cert_for_domain(&CERTIFICATE, "example.com"),
        Err("certificate does not cover domain 'example.com'".to_string())
    );
    assert!(validate_cert_for_domain(&CERTIFICATE, "192.0.2.1").is_err());
}

#[test]
fn faults_of_certificates_are_told() {
    assert_eq!(validate_cert_for_domain(&[], "a"), Err("empty certificate".to_string()));
    assert_eq!(
        validate_cert_for_domain(&[1, 2], "a"),
        Err("certificate failed to parse as X.509 DER".to_string())
    );
    assert_eq!(
        validate_cert_for_domain(&OLD_CERTIFICATE, "api.example.com"),
        Err("certificate outside its validity period".to_string())
    );
}

fn moment(nanos: i128) -> Moment {
    Moment { nanos, generalized: false }
}

#[test]
fn a_certificate_is_judged_by_what_was_read_of_it() {
    let found = |alternative: Option<Vec<Option<String>>>, common: Vec<Option<String>>| {
        Some(Certificate { not_before: moment(10), not_after: moment(20), alternative, common })
    };
    let judge = |der: &[u8], found: Option<Certificate>, now: i128| judge_certificate(der, found, moment(now), "a.b");
    assert_eq!(judge(&[1], found(None, vec![None, Some("a.b".into())]), 15), Ok(()));
    assert_eq!(judge(&[1], found(Some(vec![None, Some("*.b".into())]), vec![]), 10), Ok(()));
    assert_eq!(judge(&[1], found(None, vec![Some("a.b".into())]), 20), Ok(()));
    for now in [9, 21] {
        assert_eq!(
            judge(&[1], found(None, vec![Some("a.b".into())]), now),
            Err("certificate outside its validity period".to_string())
        );
    }
    assert!(judge(&[1], found(Some(vec![None]), vec![None]), 15).is_err());
    assert!(judge(&[], found(None, vec![Some("a.b".into())]), 15).is_err());
    assert!(judge(&[1], None, 15).is_err());
}

#[test]
fn moments_are_ordered_by_time_and_then_by_form() {
    let (short, long) = (moment(5), Moment { nanos: 5, generalized: true });
    assert!(short.is_no_later(&long) && !long.is_no_later(&short));
    assert!(short.is_no_later(&short) && long.is_no_later(&long));
    assert!(long.is_no_later(&moment(6)) && !moment(6).is_no_later(&long));
}

#[test]
fn a_certificate_is_valid_from_its_first_second_to_its_last() {
    let secs = |n: i128| moment(n * 1_000_000_000);
    let check = |now: Moment| validate_cert_at(&OLD_CERTIFICATE, "api.example.com", now);
    assert!(check(secs(1_577_836_799)).is_err());
    assert!(check(secs(1_577_836_800)).is_ok());
    assert!(check(secs(1_593_000_000)).is_ok());
    assert!(check(secs(1_609_459_200)).is_ok());
    assert!(check(moment(1_609_459_200 * 1_000_000_000 + 1)).is_err());
}

/// A store that holds a commitment and a reveal of the given time, domain and
/// certificate, signed with a key.
fn revealed(sk: &SigningKey, validator: Address, domain: &str, cert: &[u8], time: u64) -> ProtocolStore {
    let request_hash = B256::from([9; 32]);
    let mut store = ProtocolStore::new();
    let commitment = compute_commitment(&[1, 2, 3], &[4; 32]);
    store.store_commit(ValidatorCommit { request_hash, validator, commitment, received_at_ms: 0 });
    let response_hash = B256::from([5; 32]);
    let digest = compute_attestation_digest(request_hash, domain, cert, response_hash, time);
    let sig = sign_attestation(digest, sk);
    assert!(store.store_reveal(
        request_hash, validator, vec![1, 2, 3], [4; 32], cert.to_vec(), response_hash, time, sig,
    ));
    store
}

fn rejection(outcome: RevealOutcome) -> String {
    match outcome {
        RevealOutcome::Rejected(reason) => reason,
        other => panic!("{:?}", other),
    }
}

#[test]
fn an_honest_reveal_is_verified() {
    let sk = key(0x11);
    let v = address_from_secret_key(&sk);
    let store = revealed(&sk, v, "api.example.com", &CERTIFICATE, 1000);
    match store.check_reveal(B256::from([9; 32]), v, "api.example.com", 1100) {
        RevealOutcome::Verified(value) => assert_eq!(value, vec![1, 2, 3]),
        other => panic!("{:?}", other),
    }
    assert!(matches!(store.check_reveal(B256::from([8; 32]), v, "api.example.com", 1100), RevealOutcome::Pending));
}

#[test]
fn a_reveal_for_another_domain_is_rejected() {
    let sk = key(0x11);
    let v = address_from_secret_key(&sk);
    let store = revealed(&sk, v, "api.example.com", &CERTIFICATE, 1000);
    assert!(rejection(store.check_reveal(B256::from([9; 32]), v, "evil.com", 1000)).starts_with("attestation signer 0x"));
    let store = revealed(&sk, v, "evil.com", &CERTIFICATE, 1000);
    assert_eq!(
        rejection(store.check_reveal(B256::from([9; 32]), v, "evil.com", 1000)),
        "cert validation failed: certificate does not cover domain 'evil.com'"
    );
}

#[test]
fn a_reveal_that_another_key_signed_is_rejected() {
    let v = Address::from([0xAB; 20]);
    let sk = key(0x11);
    let store = revealed(&sk, v, "api.example.com", &CERTIFICATE, 1000);
    let signer = address_from_secret_key(&sk);
    let hex = |a: &Address| a.0.iter().map(|b| format!("{:02x}", b)).collect::<String>();
    assert_eq!(
        rejection(store.check_reveal(B256::from([9; 32]), v, "api.example.com", 1000)),
        format!("attestation signer 0x{} != designated fetcher 0x{}", hex(&signer), hex(&v))
    );
}

#[test]
fn a_stale_reveal_and_one_with_an_old_certificate_are_rejected() {
    let sk = key(0x11);
    let v = address_from_secret_key(&sk);
    let store = revealed(&sk, v, "api.example.com", &CERTIFICATE, 1000);
    assert_eq!(
        rejection(store.check_reveal(B256::from([9; 32]), v, "api.example.com", 1301)),
        "attestation timestamp outside freshness window"
    );
    let store = revealed(&sk, v, "api.example.com", &OLD_CERTIFICATE, 1000);
    assert_eq!(
        rejection(store.check_reveal(B256::from([9; 32]), v, "api.example.com", 1000)),
        "cert validation failed: certificate outside its validity period"
    );
}

#[test]
fn a_reveal_without_a_signature_is_rejected() {
    let reveal = ValidatorReveal {
        request_hash: B256::zero(),
        validator: Address::from([1; 20]),
        value: vec![7],
        salt: [0; 32],
        verified: true,
        cert_der: vec![],
        response_hash: B256::zero(),
        timestamp_secs: 10,
        attestation_sig: vec![],
    };
    let v = reveal.validator;
    assert_eq!(rejection(judge_reveal(&reveal, v, None, Ok(()), 10)), "attestation signature recovery failed");
    assert_eq!(
        rejection(judge_reveal(&reveal, v, Some(v), Err("x".into()), 10)),
        "cert validation failed: x"
    );
    assert!(matches!(judge_reveal(&reveal, v, Some(v), Ok(()), 10), RevealOutcome::Verified(value) if value == vec![7]));
    let unmatched = ValidatorReveal { verified: false, ..reveal };
    assert_eq!(rejection(judge_reveal(&unmatched, v, Some(v), Ok(()), 10)), "commitment mismatch");
}

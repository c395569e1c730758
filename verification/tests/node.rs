use externevm::attestation::address_from_secret_key;
use externevm::identity::{
    commit_window_ms, ensure_validator_registered, node_validator_address,
    node_validator_signing_key, reveal_window_ms,
};
use externevm::primitives::Address;
use externevm::protocol_store::ProtocolStore;
use externevm::url::{extract_host, is_private_url, names_private_host};

const DEFAULT: [u8; 20] = [
    0xf3, 0x9F, 0xd6, 0xe5, 0x1a, 0xad, 0x88, 0xF6, 0xF4, 0xce, 0x6a, 0xB8, 0x82, 0x72, 0x79, 0xcf, 0xfF, 0xb9, 0x22,
    0x66,
];

#[test]
fn a_node_has_the_address_that_its_setting_names() {
    let text = "70997970C51812dc3A010C7d01b50e0d17dc79C8";
    let a = node_validator_address(Some(text));
    assert_eq!(&a.0[..4], &[0x70, 0x99, 0x79, 0x70]);
    assert_eq!(a.0[19], 0xC8);
    assert_eq!(node_validator_address(Some(&format!(" 0x{}\n", text))), a);
    assert_eq!(node_validator_address(Some("+a+B+0+0+0+0+0+0+0+0+0+0+0+0+0+0+0+0+0+0")).0[..2], [10, 11]);
}

#[test]
fn a_node_without_an_address_has_the_default() {
    assert_eq!(node_validator_address(None).0, DEFAULT);
    for text in ["", "0x", "70997970", "zz997970C51812dc3A010C7d01b50e0d17dc79C8", "0x0x70997970C51812dc3A010C7d01b50e0d17dc79",
        "70997970C51812dc3A010C7d01b50e0d17dc79C8ff", "7+997970C51812dc3A010C7d01b50e0d17dc79C8"] {
        assert_eq!(node_validator_address(Some(text)).0, DEFAULT, "{}", text);
    }
    assert_eq!(node_validator_address(Some(&"\u{e9}".repeat(20))).0, DEFAULT);
}

#[test]
fn a_node_signs_with_the_key_that_its_setting_writes() {
    let text = "ac0974bec39a17e36ba4a6b4d238ff944bacb478cbed5efcae784d7bf4f2ff80";
    let key = node_validator_signing_key(Some(text)).unwrap();
    assert_eq!(address_from_secret_key(&key).0, DEFAULT);
    let key = node_validator_signing_key(Some(&format!("0x{}", text))).unwrap();
    assert_eq!(address_from_secret_key(&key).0, DEFAULT);
    assert!(node_validator_signing_key(None).is_none());
    assert!(node_validator_signing_key(Some("1234")).is_none());
    assert!(node_validator_signing_key(Some(&"0".repeat(64))).is_none());
    assert!(node_validator_signing_key(Some(&"f".repeat(64))).is_none());
    assert!(node_validator_signing_key(Some(&"g".repeat(64))).is_none());
}

#[test]
fn a_node_registers_itself_and_checks_its_key() {
    let key = node_validator_signing_key(Some("ac0974bec39a17e36ba4a6b4d238ff944bacb478cbed5efcae784d7bf4f2ff80"));
    let mut store = ProtocolStore::new();
    assert!(ensure_validator_registered(&mut store, Address::from(DEFAULT), key.as_ref()));
    assert!(!ensure_validator_registered(&mut store, Address::from([1; 20]), key.as_ref()));
    assert!(ensure_validator_registered(&mut store, Address::from([2; 20]), None));
    assert_eq!(store.validator_count(), 3);
    assert!(store.is_validator(&Address::from([1; 20])));
}

#[test]
fn windows_are_numbers_or_200() {
    assert_eq!(commit_window_ms(None), 200);
    assert_eq!(commit_window_ms(Some("350")), 350);
    assert_eq!(reveal_window_ms(Some("0")), 0);
    assert_eq!(reveal_window_ms(Some("+18446744073709551615")), u64::MAX);
    for text in ["", " 5", "-1", "1.5", "18446744073709551616", "ten", "+"] {
        assert_eq!(reveal_window_ms(Some(text)), 200, "{}", text);
    }
}

#[test]
fn the_host_stands_behind_the_scheme() {
    assert_eq!(extract_host("https://api.example.com/v1?x=1"), "api.example.com");
    assert_eq!(extract_host("http://api.example.com:8080/v1"), "api.example.com");
    assert_eq!(extract_host("https://api.example.com"), "api.example.com");
    assert_eq!(extract_host("ftp://x/y"), "ftp");
    assert_eq!(extract_host("https://http://x"), "http");
    assert_eq!(extract_host("HTTPS://x"), "HTTPS");
    assert_eq!(extract_host(""), "");
}

#[test]
fn private_hosts_are_known() {
    for url in [
        "http://localhost", "https://LOCALHOST:80/x", "http://127.0.0.1/", "http://0.0.0.0", "http://10.1.2.3",
        "http://10.evil.com", "http://192.168.0.1", "http://172.16.0.1", "http://172.31.255.255", "http://172.+20",
        "localhost",
    ] {
        assert!(is_private_url(url), "{}", url);
    }
    for url in [
        "http://127.0.0.2", "http://11.0.0.1", "http://172.15.0.1", "http://172.32.0.1", "http://172.", "http://172.x.1",
        "http://172.272.0.1", "https://api.example.com", "http://192.169.0.1", "http://[::1]/", "http://localhost.com",
        "", "http://172",
    ] {
        assert!(!is_private_url(url), "{}", url);
    }
    assert!(!names_private_host("http://LOCALHOST"));
}

use blake2::{Blake2b256, Digest};
use knotx_gateway::error::Error;
use knotx_gateway::gateway::{install, GatewayState};

const CASPER_CHAIN_ID: u32 = 3;
const DST_CHAIN_ID: u32 = 1;
const CALLER: [u8; 32] = [7u8; 32];

fn installed() -> GatewayState {
    install(vec![1u8; 64]).expect("install")
}

fn hex(bytes: &[u8]) -> String {
    const HEX: &[u8; 16] = b"0123456789abcdef";
    let mut s = String::with_capacity(bytes.len() * 2);
    for &b in bytes {
        s.push(HEX[(b >> 4) as usize] as char);
        s.push(HEX[(b & 0xf) as usize] as char);
    }
    s
}

fn expected_canonical(
    src_chain_id: u32,
    dst_chain_id: u32,
    src_gateway: &[u8],
    receiver: &[u8],
    nonce: u64,
    payload: &[u8],
) -> Vec<u8> {
    let mut out = Vec::new();
    out.extend_from_slice(&src_chain_id.to_be_bytes());
    out.extend_from_slice(&dst_chain_id.to_be_bytes());
    out.extend_from_slice(src_gateway);
    out.extend_from_slice(receiver);
    out.extend_from_slice(&nonce.to_be_bytes());
    out.extend_from_slice(payload);
    out
}

#[test]
fn install_creates_named_keys() {
    let gateway = installed();
    assert_eq!(gateway.nonce(), 0);
    assert_eq!(gateway.relayer_pubkey().as_slice(), &[1u8; 64][..]);
    assert!(!gateway.is_supported(DST_CHAIN_ID));
}

#[test]
fn install_rejects_malformed_key() {
    let r = install(vec![1u8; 33]);
    assert_eq!(r.err().map(|e| e.code()), Some(5));
    let r = install(Vec::new());
    assert_eq!(r.err().map(|e| e.code()), Some(5));
}

#[test]
fn send_message_increments_nonce() {
    let mut gateway = installed();
    gateway.set_supported_chain(DST_CHAIN_ID, true);

    gateway
        .send_message(DST_CHAIN_ID, &[0u8; 32], &[1u8], &CALLER)
        .expect("send");

    assert_eq!(gateway.nonce(), 1);
}

#[test]
fn send_message_reverts_on_unsupported_chain() {
    let mut gateway = installed();

    let r = gateway.send_message(999u32, &[0u8; 32], &[1u8], &CALLER);

    let err = r.expect_err("send to unlisted chain");
    assert!(matches!(err, Error::UnsupportedChain));
    assert_eq!(err.code(), 1);
    assert_eq!(gateway.nonce(), 0);
}

#[test]
fn send_message_stores_message_by_message_id() {
    let mut gateway = installed();
    gateway.set_supported_chain(DST_CHAIN_ID, true);

    let receiver = [9u8; 32];
    let payload = [1u8, 2u8, 3u8];

    gateway
        .send_message(DST_CHAIN_ID, &receiver, &payload, &CALLER)
        .expect("send");

    // Canonical message bytes (nonce = 0 for first message)
    let message_bytes =
        expected_canonical(CASPER_CHAIN_ID, DST_CHAIN_ID, &CALLER, &receiver, 0, &payload);

    // Dictionary keys must be short, so the archive is keyed by digest
    let digest = Blake2b256::digest(&message_bytes);
    let message_id = hex(digest.as_slice());

    let stored = gateway.get_message(&message_id).expect("archived message");
    assert_eq!(stored.as_slice(), message_bytes.as_slice());
}

#[test]
fn send_message_returns_canonical_bytes() {
    // Install with a 64-byte placeholder key, mark chain 1 supported, and
    // send one single-byte payload to a 32-zero-byte receiver.
    let mut gateway = installed();
    gateway.set_supported_chain(1, true);

    let returned = gateway
        .send_message(1, &[0u8; 32], &[1u8], &CALLER)
        .expect("send");

    let expected = expected_canonical(3, 1, &CALLER, &[0u8; 32], 0, &[1u8]);
    assert_eq!(returned, expected);
    assert_eq!(gateway.nonce(), 1);
}

#[test]
fn send_message_assigns_sequential_nonces() {
    let mut gateway = installed();
    gateway.set_supported_chain(DST_CHAIN_ID, true);

    for k in 0u64..4 {
        let returned = gateway
            .send_message(DST_CHAIN_ID, &[0u8; 32], &[1u8], &CALLER)
            .expect("send");
        let expected =
            expected_canonical(CASPER_CHAIN_ID, DST_CHAIN_ID, &CALLER, &[0u8; 32], k, &[1u8]);
        assert_eq!(returned, expected);
    }
    assert_eq!(gateway.nonce(), 4);
}

#[test]
fn send_message_rejects_chain_marked_then_unmarked() {
    let mut gateway = installed();
    gateway.set_supported_chain(DST_CHAIN_ID, true);
    gateway.set_supported_chain(DST_CHAIN_ID, false);

    let r = gateway.send_message(DST_CHAIN_ID, &[0u8; 32], &[1u8], &CALLER);

    assert!(matches!(r, Err(Error::UnsupportedChain)));
    assert_eq!(gateway.nonce(), 0);
}

#[test]
fn set_supported_chain_overwrites_flag() {
    let mut gateway = installed();
    assert!(!gateway.is_supported(5));
    gateway.set_supported_chain(5, true);
    assert!(gateway.is_supported(5));
    gateway.set_supported_chain(5, false);
    assert!(!gateway.is_supported(5));
    gateway.set_supported_chain(5, true);
    assert!(gateway.is_supported(5));
}

#[test]
fn error_codes_are_stable() {
    assert_eq!(Error::UnsupportedChain.code(), 1);
    assert_eq!(Error::AlreadyExecuted.code(), 2);
    assert_eq!(Error::InvalidReceiver.code(), 3);
    assert_eq!(Error::MissingKey.code(), 4);
    assert_eq!(Error::InvalidSignature.code(), 5);
}

#[test]
fn get_message_returns_none_for_unknown_key() {
    let gateway = installed();
    let key = String::from("00ff");
    assert!(gateway.get_message(&key).is_none());
}

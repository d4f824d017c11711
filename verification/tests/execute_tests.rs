use k256::ecdsa::signature::Signer;
use k256::ecdsa::{Signature, SigningKey};
use k256::elliptic_curve::sec1::ToSec1Point;
use knotx_gateway::codec::build_message_bytes;
use knotx_gateway::crypto::blake2b_digest;
use knotx_gateway::error::Error;
use knotx_gateway::gateway::{install, GatewayState};
use knotx_gateway::receiver::Receiver;

const CASPER_CHAIN_ID: u32 = 3;
const SRC_CHAIN_ID: u32 = 1;

/// A deterministic secp256k1 keypair: the signing key and the 64 raw
/// coordinate bytes of its public key's uncompressed point.
fn keypair(seed: u8) -> (SigningKey, Vec<u8>) {
    let signing_key = SigningKey::from_slice(&[seed; 32]).expect("scalar");
    let point = signing_key.verifying_key().as_affine().to_sec1_point(false);
    let sec1 = point.as_bytes();
    assert_eq!(sec1.len(), 65);
    assert_eq!(sec1[0], 4);
    (signing_key, sec1[1..].to_vec())
}

fn sign(signing_key: &SigningKey, message: &[u8]) -> Vec<u8> {
    let signature: Signature = signing_key.sign(message);
    signature.to_bytes().to_vec()
}

fn inbound_message(receiver: &[u8], payload: &[u8]) -> Vec<u8> {
    build_message_bytes(SRC_CHAIN_ID, CASPER_CHAIN_ID, &[2u8; 32], receiver, 0, payload)
}

fn installed_with(relayer_key: Vec<u8>) -> GatewayState {
    install(relayer_key).expect("install")
}

#[test]
fn execute_message_dispatches_valid_message() {
    // Construct a message from chain 1, sign it with a fresh key, install a
    // gateway trusting that key, and execute it: the recipient's handling
    // entry point runs exactly once.
    let (signing_key, relayer_key) = keypair(1);
    let mut gateway = installed_with(relayer_key);
    let mut receiver_contract = Receiver::new();

    let receiver = [3u8; 32];
    let payload = [9u8, 8u8];
    let message = inbound_message(&receiver, &payload);
    let signature = sign(&signing_key, &message);

    let dispatch = gateway
        .execute_message(SRC_CHAIN_ID, &[2u8; 32], &receiver, 0, &payload, &signature)
        .expect("execute");

    assert_eq!(dispatch.src_chain_id, SRC_CHAIN_ID);
    assert_eq!(dispatch.src_gateway.as_slice(), &[2u8; 32][..]);
    assert_eq!(dispatch.receiver.as_slice(), &receiver[..]);
    assert_eq!(dispatch.payload.as_slice(), &payload[..]);

    receiver_contract.on_call();
    assert_eq!(receiver_contract.count(), 1);
}

#[test]
fn execute_message_rejects_replay() {
    let (signing_key, relayer_key) = keypair(1);
    let mut gateway = installed_with(relayer_key);

    let receiver = [3u8; 32];
    let payload = [9u8];
    let message = inbound_message(&receiver, &payload);
    let signature = sign(&signing_key, &message);

    gateway
        .execute_message(SRC_CHAIN_ID, &[2u8; 32], &receiver, 0, &payload, &signature)
        .expect("first execution");

    let replay = gateway.execute_message(
        SRC_CHAIN_ID,
        &[2u8; 32],
        &receiver,
        0,
        &payload,
        &signature,
    );

    let err = replay.expect_err("replay");
    assert!(matches!(err, Error::AlreadyExecuted));
    assert_eq!(err.code(), 2);
}

#[test]
fn execute_message_rejects_foreign_signature() {
    // A signature from a key other than the installed relayer key is
    // rejected whatever the message content, and leaves the replay set
    // untouched: the same message still executes once correctly signed.
    let (relayer_signing_key, relayer_key) = keypair(1);
    let (foreign_signing_key, _) = keypair(2);
    let mut gateway = installed_with(relayer_key);

    let receiver = [3u8; 32];
    let payload = [9u8];
    let message = inbound_message(&receiver, &payload);
    let foreign_signature = sign(&foreign_signing_key, &message);

    let r = gateway.execute_message(
        SRC_CHAIN_ID,
        &[2u8; 32],
        &receiver,
        0,
        &payload,
        &foreign_signature,
    );
    let err = r.expect_err("forged message");
    assert!(matches!(err, Error::InvalidSignature));
    assert_eq!(err.code(), 5);

    let digest = blake2b_digest(&message);
    assert!(!gateway.has_executed(&digest));

    let signature = sign(&relayer_signing_key, &message);
    gateway
        .execute_message(SRC_CHAIN_ID, &[2u8; 32], &receiver, 0, &payload, &signature)
        .expect("genuine message still admissible");
    assert!(gateway.has_executed(&digest));
}

#[test]
fn execute_message_rejects_garbage_signature() {
    let (_, relayer_key) = keypair(1);
    let mut gateway = installed_with(relayer_key);

    let receiver = [3u8; 32];
    let payload = [9u8];

    let r = gateway.execute_message(SRC_CHAIN_ID, &[2u8; 32], &receiver, 0, &payload, &[]);
    assert!(matches!(r, Err(Error::InvalidSignature)));

    let r = gateway.execute_message(
        SRC_CHAIN_ID,
        &[2u8; 32],
        &receiver,
        0,
        &payload,
        &[0u8; 64],
    );
    assert!(matches!(r, Err(Error::InvalidSignature)));
}

#[test]
fn execute_message_rejects_malformed_receiver_but_consumes_slot() {
    // Receiver validation happens after the replay-set insertion: a
    // malformed receiver fails with InvalidReceiver, yet the message's
    // replay slot is permanently consumed.
    let (signing_key, relayer_key) = keypair(1);
    let mut gateway = installed_with(relayer_key);

    let short_receiver = [3u8; 31];
    let payload = [9u8];
    let message = inbound_message(&short_receiver, &payload);
    let signature = sign(&signing_key, &message);

    let r = gateway.execute_message(
        SRC_CHAIN_ID,
        &[2u8; 32],
        &short_receiver,
        0,
        &payload,
        &signature,
    );
    let err = r.expect_err("malformed receiver");
    assert!(matches!(err, Error::InvalidReceiver));
    assert_eq!(err.code(), 3);

    let digest = blake2b_digest(&message);
    assert!(gateway.has_executed(&digest));

    let retry = gateway.execute_message(
        SRC_CHAIN_ID,
        &[2u8; 32],
        &short_receiver,
        0,
        &payload,
        &signature,
    );
    assert!(matches!(retry, Err(Error::AlreadyExecuted)));
}

#[test]
fn receiver_counts_each_delivery() {
    let mut receiver_contract = Receiver::new();
    assert_eq!(receiver_contract.count(), 0);
    receiver_contract.on_call();
    receiver_contract.on_call();
    assert_eq!(receiver_contract.count(), 2);
}

//! Cross-chain message relay gateway.
//!
//! A caller on the local chain registers an intent to deliver a payload to a
//! recipient on a remote chain (`send_message`), and an authorized relayer
//! later presents a signed proof that causes the equivalent inbound message to
//! be executed locally exactly once (`execute_message`). The core is the
//! message protocol itself: canonical message encoding, chain allow-listing,
//! nonce sequencing, signature-gated admission, and replay-protected
//! execution.

pub mod codec;
pub mod crypto;
pub mod error;
pub mod gateway;
pub mod laws;
pub mod receiver;

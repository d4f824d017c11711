//! The protocol's cross-call guarantees, proved from the entry points'
//! contracts: nonce sequencing across runs of sends, rejection of sends to
//! unsupported chains, exactly-once inbound execution, and the
//! signature gate's protection of the replay set.

use vstd::prelude::*;
use crate::codec::{canonical_bytes, CASPER_CHAIN_ID};
use crate::crypto::{sec1_uncompressed, secp256k1_verifies};
use crate::error::Error;
use crate::gateway::{chain_marked, execute_outcome, send_outcome, Dispatch, GatewayView};

verus! {

/// One successful send, seen only through the counter: the assigned nonce is
/// the pre-call counter, and the counter moves up by exactly one.
pub open spec fn send_success(pre: GatewayView, post: GatewayView, assigned: u64) -> bool {
    &&& assigned == pre.nonce
    &&& post.nonce == pre.nonce + 1
}

/// A `send_message` call to a supported destination succeeds and is a
/// `send_success` step: the nonce sealed into the returned bytes is the
/// pre-call counter.
pub proof fn lemma_send_outcome_success(
    pre: GatewayView,
    post: GatewayView,
    dst_chain_id: u32,
    receiver: Seq<u8>,
    payload: Seq<u8>,
    caller: Seq<u8>,
    r: Result<Vec<u8>, Error>,
)
    requires
        send_outcome(pre, post, dst_chain_id, receiver, payload, caller, r),
        pre.chain_supported(dst_chain_id),
    ensures
        r is Ok,
        send_success(pre, post, pre.nonce),
{
}

/// Nonce sequencing: across any run of successful sends from a freshly
/// installed gateway, the k-th call (zero-based) is assigned nonce k, and
/// after n successful sends the stored counter equals n.
pub proof fn lemma_nonce_sequencing(trace: Seq<GatewayView>, assigned: Seq<u64>)
    requires
        trace.len() == assigned.len() + 1,
        trace[0].nonce == 0,
        forall|i: int|
            0 <= i < assigned.len() ==> #[trigger] send_success(trace[i], trace[i + 1], assigned[i]),
    ensures
        forall|k: int| 0 <= k <= assigned.len() ==> trace[k].nonce == k,
        forall|k: int| 0 <= k < assigned.len() ==> assigned[k] == k,
    decreases assigned.len(),
{
    if assigned.len() == 0 {
    } else {
        let n = assigned.len() as int;
        let trace_prefix = trace.take(n);
        let assigned_prefix = assigned.take(n - 1);
        assert(forall|k: int| 0 <= k < n ==> trace_prefix[k] == trace[k]);
        assert(forall|k: int| 0 <= k < n - 1 ==> assigned_prefix[k] == assigned[k]);
        assert(forall|i: int|
            0 <= i < n - 1 ==> #[trigger] send_success(
                trace_prefix[i],
                trace_prefix[i + 1],
                assigned_prefix[i],
            ));
        lemma_nonce_sequencing(trace_prefix, assigned_prefix);
        assert(send_success(trace[n - 1], trace[n], assigned[n - 1]));
        assert(trace[n - 1].nonce == n - 1);
        assert(forall|k: int| 0 <= k <= n ==> trace[k].nonce == k);
    }
}

/// A chain that is absent from the allow-list is unsupported, so by
/// `send_message`'s contract a send to it fails with `UnsupportedChain` and
/// leaves the state — nonce counter and message archive included —
/// unchanged.
pub proof fn lemma_unknown_chain_rejects(
    pre: GatewayView,
    post: GatewayView,
    dst_chain_id: u32,
    receiver: Seq<u8>,
    payload: Seq<u8>,
    caller: Seq<u8>,
    r: Result<Vec<u8>, Error>,
)
    requires
        !pre.supported_chains.contains_key(dst_chain_id),
        send_outcome(pre, post, dst_chain_id, receiver, payload, caller, r),
    ensures
        r == Err::<Vec<u8>, Error>(Error::UnsupportedChain),
        post == pre,
{
}

/// A chain marked supported and then unsupported ends unsupported, so a
/// later send to it fails with `UnsupportedChain` and leaves the state —
/// nonce counter and message archive included — unchanged.
pub proof fn lemma_mark_unmark_rejects(
    s0: GatewayView,
    s1: GatewayView,
    s2: GatewayView,
    s3: GatewayView,
    chain_id: u32,
    receiver: Seq<u8>,
    payload: Seq<u8>,
    caller: Seq<u8>,
    r: Result<Vec<u8>, Error>,
)
    requires
        chain_marked(s0, s1, chain_id, true),
        chain_marked(s1, s2, chain_id, false),
        send_outcome(s2, s3, chain_id, receiver, payload, caller, r),
    ensures
        !s2.chain_supported(chain_id),
        r == Err::<Vec<u8>, Error>(Error::UnsupportedChain),
        s3 == s2,
{
}

/// Exactly-once execution: when an `execute_message` call with given
/// arguments succeeds, an identical re-submission fails with
/// `AlreadyExecuted` and changes nothing.
pub proof fn lemma_replay_rejected(
    s1: GatewayView,
    s2: GatewayView,
    s3: GatewayView,
    src_chain_id: u32,
    src_gateway: Seq<u8>,
    receiver: Seq<u8>,
    nonce: u64,
    payload: Seq<u8>,
    signature: Seq<u8>,
    r1: Result<Dispatch, Error>,
    r2: Result<Dispatch, Error>,
)
    requires
        execute_outcome(
            s1,
            s2,
            src_chain_id,
            src_gateway,
            receiver,
            nonce,
            payload,
            signature,
            r1,
        ),
        r1 is Ok,
        execute_outcome(
            s2,
            s3,
            src_chain_id,
            src_gateway,
            receiver,
            nonce,
            payload,
            signature,
            r2,
        ),
    ensures
        r2 == Err::<Dispatch, Error>(Error::AlreadyExecuted),
        s3 == s2,
{
}

/// A signature the installed relayer key does not accept is rejected with
/// `InvalidSignature`, whatever the message content, and the state — replay
/// set included — is unchanged.
pub proof fn lemma_invalid_signature_rejects(
    pre: GatewayView,
    post: GatewayView,
    src_chain_id: u32,
    src_gateway: Seq<u8>,
    receiver: Seq<u8>,
    nonce: u64,
    payload: Seq<u8>,
    signature: Seq<u8>,
    r: Result<Dispatch, Error>,
)
    requires
        execute_outcome(
            pre,
            post,
            src_chain_id,
            src_gateway,
            receiver,
            nonce,
            payload,
            signature,
            r,
        ),
        !secp256k1_verifies(
            canonical_bytes(src_chain_id, CASPER_CHAIN_ID, src_gateway, receiver, nonce, payload),
            signature,
            sec1_uncompressed(pre.relayer_pubkey),
        ),
    ensures
        r == Err::<Dispatch, Error>(Error::InvalidSignature),
        post == pre,
{
}

} // verus!

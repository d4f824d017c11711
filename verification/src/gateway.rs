//! The gateway state and its three entry points: outbound sequencing
//! (`send_message`), administrative chain allow-listing
//! (`set_supported_chain`), and signature-gated, replay-protected inbound
//! execution (`execute_message`).

use vstd::prelude::*;
use vstd::slice::slice_to_vec;
use crate::codec::{build_message_bytes, canonical_bytes, hex_str_of, CASPER_CHAIN_ID};
use crate::crypto::{
    blake2b_digest, blake2b_of, message_key, sec1_uncompressed, secp256k1_verifies,
    verify_signature_with_key,
};
use crate::error::Error;

verus! {

/// Byte length of the relayer public key: the 64 raw coordinate bytes of an
/// uncompressed secp256k1 point.
pub const RELAYER_PUBKEY_LENGTH: usize = 64;

/// Byte length of a well-formed receiver identity.
pub const RECEIVER_LENGTH: usize = 32;

/// The mathematical model of a gateway: the nonce counter, the installed
/// relayer key, the chain allow-list, the replay set of executed inbound
/// digests, and the outbound message archive keyed by hexadecimal digest.
pub struct GatewayView {
    pub nonce: u64,
    pub relayer_pubkey: Seq<u8>,
    pub supported_chains: Map<u32, bool>,
    pub executed_messages: Set<Seq<u8>>,
    pub messages: Map<Seq<char>, Seq<u8>>,
}

impl GatewayView {
    /// A chain is supported exactly when its stored flag is `true`; a chain
    /// absent from the allow-list is unsupported.
    pub open spec fn chain_supported(self, chain_id: u32) -> bool {
        self.supported_chains.contains_key(chain_id) && self.supported_chains[chain_id]
    }
}

/// The allow-list as a map, later entries overriding earlier ones.
pub open spec fn chain_map_of(entries: Seq<(u32, bool)>) -> Map<u32, bool>
    decreases entries.len(),
{
    if entries.len() == 0 {
        Map::<u32, bool>::empty()
    } else {
        chain_map_of(entries.drop_last()).insert(entries.last().0, entries.last().1)
    }
}

/// The replay set: the set of digests recorded so far.
pub open spec fn digest_set_of(entries: Seq<Vec<u8>>) -> Set<Seq<u8>>
    decreases entries.len(),
{
    if entries.len() == 0 {
        Set::<Seq<u8>>::empty()
    } else {
        digest_set_of(entries.drop_last()).insert(entries.last()@)
    }
}

/// The message archive as a map, later entries overriding earlier ones.
pub open spec fn archive_map_of(entries: Seq<(String, Vec<u8>)>) -> Map<Seq<char>, Seq<u8>>
    decreases entries.len(),
{
    if entries.len() == 0 {
        Map::<Seq<char>, Seq<u8>>::empty()
    } else {
        archive_map_of(entries.drop_last()).insert(entries.last().0@, entries.last().1@)
    }
}

/// The gateway's aggregate state. Created once by [`install`]; the
/// allow-list, replay set and archive grow monotonically for the instance's
/// whole lifetime.
pub struct GatewayState {
    nonce: u64,
    relayer_pubkey: Vec<u8>,
    supported_chains: Vec<(u32, bool)>,
    executed_messages: Vec<Vec<u8>>,
    messages: Vec<(String, Vec<u8>)>,
}

impl View for GatewayState {
    type V = GatewayView;

    closed spec fn view(&self) -> GatewayView {
        GatewayView {
            nonce: self.nonce,
            relayer_pubkey: self.relayer_pubkey@,
            supported_chains: chain_map_of(self.supported_chains@),
            executed_messages: digest_set_of(self.executed_messages@),
            messages: archive_map_of(self.messages@),
        }
    }
}

/// A dispatch order for an admitted inbound message: what the host must hand
/// to the recipient's message-handling entry point.
#[derive(Debug)]
pub struct Dispatch {
    pub src_chain_id: u32,
    pub src_gateway: Vec<u8>,
    pub receiver: Vec<u8>,
    pub payload: Vec<u8>,
}

/// The mathematical model of a dispatch order.
pub struct DispatchView {
    pub src_chain_id: u32,
    pub src_gateway: Seq<u8>,
    pub receiver: Seq<u8>,
    pub payload: Seq<u8>,
}

impl View for Dispatch {
    type V = DispatchView;

    open spec fn view(&self) -> DispatchView {
        DispatchView {
            src_chain_id: self.src_chain_id,
            src_gateway: self.src_gateway@,
            receiver: self.receiver@,
            payload: self.payload@,
        }
    }
}

/// What one `set_supported_chain` call does: it overwrites the chain's flag
/// and touches nothing else.
pub open spec fn chain_marked(
    pre: GatewayView,
    post: GatewayView,
    chain_id: u32,
    supported: bool,
) -> bool {
    &&& post.nonce == pre.nonce
    &&& post.relayer_pubkey == pre.relayer_pubkey
    &&& post.supported_chains == pre.supported_chains.insert(chain_id, supported)
    &&& post.executed_messages == pre.executed_messages
    &&& post.messages == pre.messages
}

/// What one `send_message` call does. To an unsupported destination it fails
/// with `UnsupportedChain` and mutates nothing. Otherwise it returns the
/// canonical bytes of the message sealed with the pre-call nonce, increments
/// the nonce by exactly one, and archives those bytes under their digest key.
pub open spec fn send_outcome(
    pre: GatewayView,
    post: GatewayView,
    dst_chain_id: u32,
    receiver: Seq<u8>,
    payload: Seq<u8>,
    caller: Seq<u8>,
    r: Result<Vec<u8>, Error>,
) -> bool {
    if !pre.chain_supported(dst_chain_id) {
        &&& r == Err::<Vec<u8>, Error>(Error::UnsupportedChain)
        &&& post == pre
    } else {
        let bytes = canonical_bytes(
            CASPER_CHAIN_ID,
            dst_chain_id,
            caller,
            receiver,
            pre.nonce,
            payload,
        );
        &&& r is Ok
        &&& r->Ok_0@ == bytes
        &&& post.nonce == pre.nonce + 1
        &&& post.relayer_pubkey == pre.relayer_pubkey
        &&& post.supported_chains == pre.supported_chains
        &&& post.executed_messages == pre.executed_messages
        &&& post.messages == pre.messages.insert(hex_str_of(blake2b_of(bytes)), bytes)
    }
}

/// What one `execute_message` call does. A message whose signature does not
/// verify against the installed relayer key is rejected with
/// `InvalidSignature` before any mutation — a forged message cannot probe or
/// pollute the replay set. An admitted message whose digest is already
/// recorded is rejected with `AlreadyExecuted`, again without mutation.
/// Otherwise the digest is recorded first, and only then is the receiver
/// identity validated: a malformed receiver fails with `InvalidReceiver` but
/// still consumes the message's replay slot, while a well-formed one yields
/// the dispatch order for the host to deliver.
pub open spec fn execute_outcome(
    pre: GatewayView,
    post: GatewayView,
    src_chain_id: u32,
    src_gateway: Seq<u8>,
    receiver: Seq<u8>,
    nonce: u64,
    payload: Seq<u8>,
    signature: Seq<u8>,
    r: Result<Dispatch, Error>,
) -> bool {
    let bytes = canonical_bytes(
        src_chain_id,
        CASPER_CHAIN_ID,
        src_gateway,
        receiver,
        nonce,
        payload,
    );
    let digest = blake2b_of(bytes);
    if !secp256k1_verifies(bytes, signature, sec1_uncompressed(pre.relayer_pubkey)) {
        &&& r == Err::<Dispatch, Error>(Error::InvalidSignature)
        &&& post == pre
    } else if pre.executed_messages.contains(digest) {
        &&& r == Err::<Dispatch, Error>(Error::AlreadyExecuted)
        &&& post == pre
    } else {
        &&& post.nonce == pre.nonce
        &&& post.relayer_pubkey == pre.relayer_pubkey
        &&& post.supported_chains == pre.supported_chains
        &&& post.executed_messages == pre.executed_messages.insert(digest)
        &&& post.messages == pre.messages
        &&& if receiver.len() != RECEIVER_LENGTH {
            r == Err::<Dispatch, Error>(Error::InvalidReceiver)
        } else {
            &&& r is Ok
            &&& r->Ok_0@ == (DispatchView { src_chain_id, src_gateway, receiver, payload })
        }
    }
}

proof fn lemma_chain_map_found(entries: Seq<(u32, bool)>, chain_id: u32, i: int)
    requires
        0 <= i < entries.len(),
        entries[i].0 == chain_id,
        forall|j: int| i < j < entries.len() ==> entries[j].0 != chain_id,
    ensures
        chain_map_of(entries).contains_key(chain_id),
        chain_map_of(entries)[chain_id] == entries[i].1,
    decreases entries.len(),
{
    if i == entries.len() - 1 {
    } else {
        assert(forall|p: int|
            0 <= p < entries.len() - 1 ==> entries.drop_last()[p] == entries[p]);
        lemma_chain_map_found(entries.drop_last(), chain_id, i);
        assert(entries.last().0 != chain_id);
    }
}

proof fn lemma_chain_map_absent(entries: Seq<(u32, bool)>, chain_id: u32)
    requires
        forall|j: int| 0 <= j < entries.len() ==> entries[j].0 != chain_id,
    ensures
        !chain_map_of(entries).contains_key(chain_id),
    decreases entries.len(),
{
    if entries.len() == 0 {
    } else {
        assert(forall|p: int|
            0 <= p < entries.len() - 1 ==> entries.drop_last()[p] == entries[p]);
        lemma_chain_map_absent(entries.drop_last(), chain_id);
        assert(entries.last().0 != chain_id);
    }
}

proof fn lemma_chain_map_update(entries: Seq<(u32, bool)>, i: int, supported: bool)
    requires
        0 <= i < entries.len(),
        forall|p: int, q: int|
            0 <= p < q < entries.len() ==> (#[trigger] entries[p]).0 != (#[trigger] entries[q]).0,
    ensures
        chain_map_of(entries.update(i, (entries[i].0, supported)))
            == chain_map_of(entries).insert(entries[i].0, supported),
    decreases entries.len(),
{
    let c = entries[i].0;
    let u = entries.update(i, (c, supported));
    if i == entries.len() - 1 {
        assert(u.drop_last() =~= entries.drop_last());
        assert(u.last() == (c, supported));
        assert(chain_map_of(u) =~= chain_map_of(entries).insert(c, supported));
    } else {
        let dl = entries.drop_last();
        assert(forall|p: int| 0 <= p < dl.len() ==> dl[p] == entries[p]);
        lemma_chain_map_update(dl, i, supported);
        assert(u.drop_last() =~= dl.update(i, (c, supported)));
        assert(u.last() == entries.last());
        assert(entries.last().0 != c);
        assert(chain_map_of(u) =~= chain_map_of(entries).insert(c, supported));
    }
}

proof fn lemma_digest_set_contains(entries: Seq<Vec<u8>>, d: Seq<u8>)
    ensures
        digest_set_of(entries).contains(d) <==> (exists|i: int|
            0 <= i < entries.len() && entries[i]@ == d),
    decreases entries.len(),
{
    if entries.len() == 0 {
    } else {
        let dl = entries.drop_last();
        lemma_digest_set_contains(dl, d);
        assert(forall|i: int| 0 <= i < dl.len() ==> dl[i] == entries[i]);
        if exists|i: int| 0 <= i < entries.len() && entries[i]@ == d {
            let i = choose|i: int| 0 <= i < entries.len() && entries[i]@ == d;
            if i < entries.len() - 1 {
                assert(dl[i]@ == d);
                assert(digest_set_of(dl).contains(d));
            }
        }
        if digest_set_of(entries).contains(d) && d != entries.last()@ {
            let i = choose|i: int| 0 <= i < dl.len() && dl[i]@ == d;
            assert(entries[i]@ == d);
        }
    }
}

proof fn lemma_archive_map_found(entries: Seq<(String, Vec<u8>)>, key: Seq<char>, i: int)
    requires
        0 <= i < entries.len(),
        entries[i].0@ == key,
        forall|j: int| i < j < entries.len() ==> entries[j].0@ != key,
    ensures
        archive_map_of(entries).contains_key(key),
        archive_map_of(entries)[key] == entries[i].1@,
    decreases entries.len(),
{
    if i == entries.len() - 1 {
    } else {
        assert(forall|p: int|
            0 <= p < entries.len() - 1 ==> entries.drop_last()[p] == entries[p]);
        lemma_archive_map_found(entries.drop_last(), key, i);
        assert(entries.last().0@ != key);
    }
}

proof fn lemma_archive_map_absent(entries: Seq<(String, Vec<u8>)>, key: Seq<char>)
    requires
        forall|j: int| 0 <= j < entries.len() ==> entries[j].0@ != key,
    ensures
        !archive_map_of(entries).contains_key(key),
    decreases entries.len(),
{
    if entries.len() == 0 {
    } else {
        assert(forall|p: int|
            0 <= p < entries.len() - 1 ==> entries.drop_last()[p] == entries[p]);
        lemma_archive_map_absent(entries.drop_last(), key);
        assert(entries.last().0@ != key);
    }
}

/// Compares two byte vectors for equality.
fn eq_bytes(a: &Vec<u8>, b: &Vec<u8>) -> (r: bool)
    ensures
        r == (a@ == b@),
{
    if a.len() != b.len() {
        return false;
    }
    let n: usize = a.len();
    for i in 0..n
        invariant
            n == a@.len(),
            n == b@.len(),
            forall|j: int| 0 <= j < i ==> a@[j] == b@[j],
    {
        if a[i] != b[i] {
            return false;
        }
    }
    assert(a@ =~= b@);
    true
}

/// Tests whether `d` is one of the recorded digests.
fn contains_digest(entries: &Vec<Vec<u8>>, d: &Vec<u8>) -> (r: bool)
    ensures
        r == digest_set_of(entries@).contains(d@),
{
    let n: usize = entries.len();
    for i in 0..n
        invariant
            n == entries@.len(),
            forall|j: int| 0 <= j < i ==> (#[trigger] entries@[j])@ != d@,
    {
        if eq_bytes(&entries[i], d) {
            proof {
                lemma_digest_set_contains(entries@, d@);
            }
            return true;
        }
    }
    proof {
        lemma_digest_set_contains(entries@, d@);
    }
    false
}

/// Finds the allow-list slot already holding `chain_id`, if any.
fn find_chain(entries: &Vec<(u32, bool)>, chain_id: u32) -> (r: Option<usize>)
    ensures
        match r {
            Some(i) => i < entries@.len() && entries@[i as int].0 == chain_id,
            None => forall|j: int|
                0 <= j < entries@.len() ==> (#[trigger] entries@[j]).0 != chain_id,
        },
{
    let n: usize = entries.len();
    for i in 0..n
        invariant
            n == entries@.len(),
            forall|j: int| 0 <= j < i ==> (#[trigger] entries@[j]).0 != chain_id,
    {
        if entries[i].0 == chain_id {
            return Some(i);
        }
    }
    None
}

/// Installs a gateway: rejects a key that is not exactly the 64 coordinate
/// bytes of an uncompressed secp256k1 point, and otherwise creates the empty
/// state with the nonce at zero.
pub fn install(relayer_pubkey: Vec<u8>) -> (r: Result<GatewayState, Error>)
    ensures
        relayer_pubkey@.len() != RELAYER_PUBKEY_LENGTH ==> r == Err::<GatewayState, Error>(
            Error::InvalidSignature,
        ),
        relayer_pubkey@.len() == RELAYER_PUBKEY_LENGTH ==> {
            &&& r is Ok
            &&& r->Ok_0.wf()
            &&& r->Ok_0@ == (GatewayView {
                nonce: 0,
                relayer_pubkey: relayer_pubkey@,
                supported_chains: Map::<u32, bool>::empty(),
                executed_messages: Set::<Seq<u8>>::empty(),
                messages: Map::<Seq<char>, Seq<u8>>::empty(),
            })
        },
{
    if relayer_pubkey.len() != RELAYER_PUBKEY_LENGTH {
        return Err(Error::InvalidSignature);
    }
    let state = GatewayState {
        nonce: 0,
        relayer_pubkey,
        supported_chains: Vec::new(),
        executed_messages: Vec::new(),
        messages: Vec::new(),
    };
    Ok(state)
}

impl GatewayState {
    /// A well-formed gateway: the relayer key has its fixed length, the
    /// allow-list holds each chain at most once, and the nonce counts the
    /// archived outbound messages.
    pub closed spec fn wf(&self) -> bool {
        &&& self.relayer_pubkey@.len() == RELAYER_PUBKEY_LENGTH
        &&& forall|p: int, q: int|
            0 <= p < q < self.supported_chains@.len() ==> (#[trigger] self.supported_chains@[p]).0
                != (#[trigger] self.supported_chains@[q]).0
        &&& self.nonce == self.messages@.len()
    }

    /// The gateway's outbound nonce counter: the number of messages ever
    /// sent from this gateway.
    pub fn nonce(&self) -> (n: u64)
        ensures
            n == self@.nonce,
    {
        self.nonce
    }

    /// The installed relayer public key.
    pub fn relayer_pubkey(&self) -> (k: &Vec<u8>)
        ensures
            k@ == self@.relayer_pubkey,
    {
        &self.relayer_pubkey
    }

    /// Returns the stored flag for `chain_id`, or `false` if the chain was
    /// never marked.
    pub fn is_supported(&self, chain_id: u32) -> (r: bool)
        requires
            self.wf(),
        ensures
            r == self@.chain_supported(chain_id),
    {
        match find_chain(&self.supported_chains, chain_id) {
            Some(i) => {
                proof {
                    assert forall|j: int|
                        i < j < self.supported_chains@.len() implies self.supported_chains@[j].0
                        != chain_id by {
                        assert(self.supported_chains@[i as int].0 == chain_id);
                    }
                    lemma_chain_map_found(self.supported_chains@, chain_id, i as int);
                }
                self.supported_chains[i].1
            },
            None => {
                proof {
                    lemma_chain_map_absent(self.supported_chains@, chain_id);
                }
                false
            },
        }
    }

    /// Unconditionally overwrites the allow-list entry for `chain_id`.
    pub fn set_supported_chain(&mut self, chain_id: u32, supported: bool)
        requires
            old(self).wf(),
        ensures
            final(self).wf(),
            chain_marked(old(self)@, final(self)@, chain_id, supported),
    {
        match find_chain(&self.supported_chains, chain_id) {
            Some(i) => {
                proof {
                    lemma_chain_map_update(self.supported_chains@, i as int, supported);
                }
                self.supported_chains[i] = (chain_id, supported);
                assert(forall|p: int|
                    0 <= p < self.supported_chains@.len() ==> (#[trigger] self.supported_chains@[p]).0
                        == old(self).supported_chains@[p].0);
            },
            None => {
                self.supported_chains.push((chain_id, supported));
                proof {
                    assert(self.supported_chains@.drop_last() =~= old(self).supported_chains@);
                    assert(chain_map_of(self.supported_chains@) =~= chain_map_of(
                        old(self).supported_chains@,
                    ).insert(chain_id, supported));
                }
            },
        }
    }

    /// Checks `signature` over `message` against the installed relayer key.
    pub fn verify_relayer_signature(&self, message: &[u8], signature: &[u8]) -> (r: bool)
        ensures
            r == secp256k1_verifies(
                message@,
                signature@,
                sec1_uncompressed(self@.relayer_pubkey),
            ),
    {
        verify_signature_with_key(message, signature, self.relayer_pubkey.as_slice())
    }

    /// Sends a message: checks the destination against the allow-list,
    /// seals the canonical bytes with the current nonce, increments the
    /// nonce, archives the bytes under their digest key, and returns them.
    pub fn send_message(
        &mut self,
        dst_chain_id: u32,
        receiver: &[u8],
        payload: &[u8],
        caller: &[u8],
    ) -> (r: Result<Vec<u8>, Error>)
        requires
            old(self).wf(),
            old(self)@.nonce < u64::MAX,
        ensures
            final(self).wf(),
            send_outcome(
                old(self)@,
                final(self)@,
                dst_chain_id,
                receiver@,
                payload@,
                caller@,
                r,
            ),
    {
        if !self.is_supported(dst_chain_id) {
            return Err(Error::UnsupportedChain);
        }
        let nonce: u64 = self.nonce;
        self.nonce = nonce + 1;
        let message_bytes = build_message_bytes(
            CASPER_CHAIN_ID,
            dst_chain_id,
            caller,
            receiver,
            nonce,
            payload,
        );
        let key = message_key(message_bytes.as_slice());
        let stored = slice_to_vec(message_bytes.as_slice());
        self.messages.push((key, stored));
        proof {
            assert(self.messages@.drop_last() =~= old(self).messages@);
            assert(archive_map_of(self.messages@) =~= archive_map_of(
                old(self).messages@,
            ).insert(
                hex_str_of(blake2b_of(message_bytes@)),
                message_bytes@,
            ));
        }
        Ok(message_bytes)
    }

    /// Executes an inbound message: rebuilds the canonical bytes with the
    /// local chain as destination, verifies the relayer signature, records
    /// the digest in the replay set, validates the receiver identity, and
    /// returns the dispatch order for the host to deliver.
    pub fn execute_message(
        &mut self,
        src_chain_id: u32,
        src_gateway: &[u8],
        receiver: &[u8],
        nonce: u64,
        payload: &[u8],
        signature: &[u8],
    ) -> (r: Result<Dispatch, Error>)
        requires
            old(self).wf(),
        ensures
            final(self).wf(),
            execute_outcome(
                old(self)@,
                final(self)@,
                src_chain_id,
                src_gateway@,
                receiver@,
                nonce,
                payload@,
                signature@,
                r,
            ),
    {
        let message_bytes = build_message_bytes(
            src_chain_id,
            CASPER_CHAIN_ID,
            src_gateway,
            receiver,
            nonce,
            payload,
        );
        if !self.verify_relayer_signature(message_bytes.as_slice(), signature) {
            return Err(Error::InvalidSignature);
        }
        let digest = blake2b_digest(message_bytes.as_slice());
        if contains_digest(&self.executed_messages, &digest) {
            return Err(Error::AlreadyExecuted);
        }
        self.executed_messages.push(digest);
        proof {
            assert(self.executed_messages@.drop_last() =~= old(self).executed_messages@);
            assert(digest_set_of(self.executed_messages@) =~= digest_set_of(
                old(self).executed_messages@,
            ).insert(blake2b_of(message_bytes@)));
        }
        if receiver.len() != RECEIVER_LENGTH {
            return Err(Error::InvalidReceiver);
        }
        Ok(Dispatch {
            src_chain_id,
            src_gateway: slice_to_vec(src_gateway),
            receiver: slice_to_vec(receiver),
            payload: slice_to_vec(payload),
        })
    }

    /// Tests whether an inbound message with this digest has already been
    /// executed.
    pub fn has_executed(&self, digest: &Vec<u8>) -> (r: bool)
        ensures
            r == self@.executed_messages.contains(digest@),
    {
        contains_digest(&self.executed_messages, digest)
    }

    /// Looks up an archived outbound message by its hexadecimal digest key.
    pub fn get_message(&self, key: &String) -> (r: Option<&Vec<u8>>)
        ensures
            match r {
                Some(v) => self@.messages.contains_key(key@) && v@ == self@.messages[key@],
                None => !self@.messages.contains_key(key@),
            },
    {
        let n: usize = self.messages.len();
        let mut i: usize = n;
        while i > 0
            invariant
                i <= n,
                n == self.messages@.len(),
                forall|j: int| i <= j < n ==> (#[trigger] self.messages@[j]).0@ != key@,
            decreases i,
        {
            i = i - 1;
            if self.messages[i].0 == *key {
                proof {
                    lemma_archive_map_found(self.messages@, key@, i as int);
                }
                return Some(&self.messages[i].1);
            }
        }
        proof {
            lemma_archive_map_absent(self.messages@, key@);
        }
        None
    }
}

} // verus!

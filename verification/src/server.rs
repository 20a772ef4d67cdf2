//! The server side: connection classification, replica registration, and the
//! client session coordinator.
//!
//! The coordinator drives one upload as a strict sequence: announce the
//! aggregate identity, take the store instruction (rejecting a zero length
//! before any bytes are read), fix the participant set, fold every chunk
//! into a running hash while naming the channels it must be forwarded to,
//! then collect one attestation per participant in registration order,
//! folding their signatures over the server's own, and emit the certificate.
//! The step functions carry the state between the caller's reads and writes;
//! `run_session` runs the same sequence over a whole recorded exchange.

use vstd::prelude::*;
use crate::bls::{
    apk_fold, sig_fold, sign_of, valid_pk, valid_sig, fold_sigs, lemma_fold_sigs_push,
    AggregateIdentity, Keypair,
};
use crate::hash::{absorbed, sha3_of, Sha3Hasher};
use crate::protocol::{copy_range, Protocol};
use crate::registry::{registry_wf, upserted, RegistryEntry, ReplicaRegistry};
use crate::stream::{concat_chunks, sat_sub, stream_enough, stream_take, lemma_stream_step};

verus! {

/// What ends a server-side session or registration early.
#[derive(Clone, Copy, Debug, PartialEq, Eq, Structural)]
pub enum SessionError {
    /// A message of a variant the current state does not allow.
    UnexpectedMessage,
    /// A store instruction declaring zero bytes.
    ZeroLength,
    /// The peer's frames ran out before the exchange was complete.
    Disconnected,
    /// A participant attested to a hash other than the canonical one.
    IntegrityFailure,
    /// Signature bytes that do not parse as a signature.
    MalformedSignature,
    /// Public key bytes that do not parse as a public key.
    MalformedKey,
}

/// Where a client session stands.
#[derive(Clone, Copy, Debug, PartialEq, Eq, Structural)]
pub enum SessionPhase {
    /// Identity announced; awaiting the store instruction.
    AwaitStore,
    /// Streaming chunks until the declared length is exhausted.
    Streaming,
    /// Collecting one attestation per participant.
    Collecting,
    /// Certificate handed out.
    Responded,
    /// Terminated by a protocol violation or an integrity failure.
    Failed,
}

/// The per-upload state of one client session.
pub struct ClientSession {
    pub phase: SessionPhase,
    /// The aggregate identity snapshot announced to this client.
    pub announced: Vec<u8>,
    /// The participant set, fixed when the store instruction arrived.
    pub participants: Vec<RegistryEntry>,
    /// How many participants have attested.
    pub next_participant: usize,
    /// Bytes of the declared length still to stream.
    pub remaining: u64,
    /// Running hash over every streamed byte.
    pub hasher: Sha3Hasher,
    /// The canonical content hash, fixed when streaming ended.
    pub hash: Vec<u8>,
    /// The running aggregate signature, started from the server's own.
    pub aggregate_sig: Vec<u8>,
}

/// A well-formed attestation for canonical hash `h`.
pub open spec fn attestation_ok(m: Protocol, h: Seq<u8>) -> bool {
    m matches Protocol::FileStored { hash, signature }
        && hash@ == h && signature@.len() == 48 && valid_sig(signature@)
}

/// The signature carried by an attestation.
pub open spec fn attestation_sig(m: Protocol) -> Seq<u8> {
    match m {
        Protocol::FileStored { hash: _, signature } => signature@,
        _ => Seq::empty(),
    }
}

/// The canonical hash of an upload declaring `n` bytes and streaming
/// `chunks`.
pub open spec fn upload_hash(chunks: Seq<Seq<u8>>, n: u64) -> Seq<u8> {
    sha3_of(concat_chunks(stream_take(chunks, n)))
}

/// When a whole recorded exchange drives a session to a certificate: a
/// nonzero declared length, enough chunk frames to exhaust it, and one
/// well-formed attestation over the canonical hash per participant.
pub open spec fn session_accepts(
    nreplicas: int,
    request: Protocol,
    chunks: Seq<Seq<u8>>,
    responses: Seq<Protocol>,
) -> bool {
    request matches Protocol::StoreFile(n) && n != 0 && stream_enough(chunks, n)
        && responses.len() >= nreplicas
        && (forall|j: int| 0 <= j < nreplicas
            ==> attestation_ok(#[trigger] responses[j], upload_hash(chunks, n)))
}

impl ClientSession {
    /// Step 1: snapshot the aggregate identity at this moment and announce
    /// it. Replicas registering later are not part of this upload.
    pub fn begin(identity: &AggregateIdentity) -> (r: (ClientSession, Protocol))
        ensures
            r.0.phase == SessionPhase::AwaitStore,
            r.0.announced@ == identity.key(),
            r.0.announced@.len() == 96,
            absorbed(r.0.hasher) == Seq::<u8>::empty(),
            r.1 matches Protocol::Ack(b) && b@ == identity.key(),
            r.1.wf(),
    {
        let kb = identity.key_bytes();
        let announced = copy_range(kb, 0, kb.len());
        let ack_key = copy_range(kb, 0, kb.len());
        proof {
            assert(kb@.subrange(0, kb@.len() as int) =~= kb@);
        }
        let session = ClientSession {
            phase: SessionPhase::AwaitStore,
            announced,
            participants: Vec::new(),
            next_participant: 0,
            remaining: 0,
            hasher: Sha3Hasher::new(),
            hash: Vec::new(),
            aggregate_sig: Vec::new(),
        };
        (session, Protocol::Ack(ack_key))
    }

    /// Steps 2 and 3: take the store instruction — a zero declared length is
    /// a protocol violation, rejected before any bytes are read — and fix
    /// the participant set as a snapshot of the registry.
    pub fn accept_store(&mut self, msg: &Protocol, registry: &ReplicaRegistry) -> (r: Result<
        (Protocol, Vec<u64>),
        SessionError,
    >)
        requires
            old(self).phase == SessionPhase::AwaitStore,
            registry_wf(registry@),
        ensures
            r is Ok <==> (msg matches Protocol::StoreFile(n) && n != 0),
            r == Err::<(Protocol, Vec<u64>), SessionError>(SessionError::ZeroLength)
                <==> (msg matches Protocol::StoreFile(n) && n == 0),
            r == Err::<(Protocol, Vec<u64>), SessionError>(SessionError::UnexpectedMessage)
                <==> !(msg matches Protocol::StoreFile(_)),
            r matches Ok(f) ==> ({
                &&& (*msg) matches Protocol::StoreFile(n) && final(self).remaining == n
                    && f.0 == Protocol::StoreFile(n)
                &&& f.0.wf()
                &&& final(self).phase == SessionPhase::Streaming
                &&& final(self).participants@.len() == registry@.len()
                &&& forall|j: int| 0 <= j < registry@.len()
                    ==> (#[trigger] final(self).participants@[j]).key@ == registry@[j].0
                        && final(self).participants@[j].channel == registry@[j].1
                &&& f.1@.len() == registry@.len()
                &&& forall|j: int| 0 <= j < registry@.len()
                    ==> #[trigger] f.1@[j] == registry@[j].1
                &&& final(self).announced == old(self).announced
                &&& final(self).hasher == old(self).hasher
            }),
            r is Err ==> final(self).phase == SessionPhase::Failed,
    {
        match msg {
            Protocol::StoreFile(n) => {
                if *n == 0 {
                    self.phase = SessionPhase::Failed;
                    Err(SessionError::ZeroLength)
                } else {
                    self.remaining = *n;
                    self.participants = registry.snapshot();
                    let channels = channels_of(&self.participants);
                    self.phase = SessionPhase::Streaming;
                    Ok((Protocol::StoreFile(*n), channels))
                }
            }
            _ => {
                self.phase = SessionPhase::Failed;
                Err(SessionError::UnexpectedMessage)
            }
        }
    }

    /// Step 4, one iteration: fold one chunk from the client into the
    /// running hash; the same bytes go to every participant channel named in
    /// the result. A zero-byte chunk is legal and contributes nothing.
    pub fn stream_chunk(&mut self, chunk: &Vec<u8>) -> (r: Vec<u64>)
        requires
            old(self).phase == SessionPhase::Streaming,
            old(self).remaining > 0,
        ensures
            absorbed(final(self).hasher) == absorbed(old(self).hasher) + chunk@,
            final(self).remaining == sat_sub(old(self).remaining, chunk@.len() as int),
            final(self).phase == SessionPhase::Streaming,
            final(self).participants == old(self).participants,
            final(self).announced == old(self).announced,
            r@.len() == old(self).participants@.len(),
            forall|j: int| 0 <= j < r@.len()
                ==> #[trigger] r@[j] == old(self).participants@[j].channel,
    {
        self.hasher.absorb(chunk);
        let len64: u64 = chunk.len() as u64;
        self.remaining = if self.remaining >= len64 { self.remaining - len64 } else { 0 };
        channels_of(&self.participants)
    }

    /// End of step 4, start of step 5: the declared length is exhausted; fix
    /// the canonical hash and start the aggregate signature from the
    /// server's own signature over it.
    pub fn finish_streaming(&mut self, server: &Keypair)
        requires
            old(self).phase == SessionPhase::Streaming,
            old(self).remaining == 0,
        ensures
            final(self).phase == SessionPhase::Collecting,
            final(self).hash@ == sha3_of(absorbed(old(self).hasher)),
            final(self).hash@.len() == 32,
            final(self).aggregate_sig@ == sign_of(server.pk(), final(self).hash@),
            final(self).aggregate_sig@.len() == 48,
            valid_sig(final(self).aggregate_sig@),
            final(self).next_participant == 0,
            final(self).participants == old(self).participants,
            final(self).announced == old(self).announced,
    {
        self.hash = self.hasher.digest();
        self.aggregate_sig = server.sign(&self.hash);
        self.next_participant = 0;
        self.phase = SessionPhase::Collecting;
    }

    /// Step 5, one iteration: take the next participant's attestation, in
    /// registration order. A hash other than the canonical one is a
    /// data-integrity failure that aborts the session; otherwise the
    /// signature folds into the running aggregate.
    pub fn accept_attestation(&mut self, msg: &Protocol) -> (r: Result<(), SessionError>)
        requires
            old(self).phase == SessionPhase::Collecting,
            old(self).next_participant < old(self).participants@.len(),
            old(self).aggregate_sig@.len() == 48,
            valid_sig(old(self).aggregate_sig@),
        ensures
            r is Ok <==> attestation_ok(*msg, old(self).hash@),
            r == Err::<(), SessionError>(SessionError::UnexpectedMessage)
                <==> !(msg matches Protocol::FileStored { .. }),
            r == Err::<(), SessionError>(SessionError::IntegrityFailure)
                <==> (msg matches Protocol::FileStored { hash, .. }
                    && hash@ != old(self).hash@),
            r is Ok ==> ({
                &&& final(self).aggregate_sig@
                    == sig_fold(old(self).aggregate_sig@, attestation_sig(*msg))
                &&& final(self).aggregate_sig@.len() == 48
                &&& valid_sig(final(self).aggregate_sig@)
                &&& final(self).next_participant == old(self).next_participant + 1
                &&& final(self).phase == SessionPhase::Collecting
                &&& final(self).hash == old(self).hash
                &&& final(self).participants == old(self).participants
                &&& final(self).announced == old(self).announced
            }),
            r is Err ==> final(self).phase == SessionPhase::Failed,
    {
        match msg {
            Protocol::FileStored { hash, signature } => {
                if !crate::registry::bytes_eq(hash, &self.hash) {
                    self.phase = SessionPhase::Failed;
                    return Err(SessionError::IntegrityFailure);
                }
                if signature.len() != 48 {
                    self.phase = SessionPhase::Failed;
                    return Err(SessionError::MalformedSignature);
                }
                // Pins the participant count within usize for the
                // counter increment below.
                let _count: usize = self.participants.len();
                match crate::bls::sig_aggregate(&self.aggregate_sig, signature) {
                    Some(folded) => {
                        self.aggregate_sig = folded;
                        self.next_participant = self.next_participant + 1;
                        Ok(())
                    }
                    None => {
                        self.phase = SessionPhase::Failed;
                        Err(SessionError::MalformedSignature)
                    }
                }
            }
            _ => {
                self.phase = SessionPhase::Failed;
                Err(SessionError::UnexpectedMessage)
            }
        }
    }

    /// Step 6: every participant has attested; the certificate of
    /// availability for this upload.
    pub fn certificate(&mut self) -> (r: Protocol)
        requires
            old(self).phase == SessionPhase::Collecting,
            old(self).next_participant == old(self).participants@.len(),
            old(self).hash@.len() == 32,
            old(self).aggregate_sig@.len() == 48,
        ensures
            r matches Protocol::FileStored { hash, signature }
                && hash@ == old(self).hash@ && signature@ == old(self).aggregate_sig@,
            r.wf(),
            final(self).phase == SessionPhase::Responded,
    {
        self.phase = SessionPhase::Responded;
        let hash = copy_range(&self.hash, 0, self.hash.len());
        let signature = copy_range(&self.aggregate_sig, 0, self.aggregate_sig.len());
        proof {
            assert(old(self).hash@.subrange(0, old(self).hash@.len() as int) =~= old(self).hash@);
            assert(old(self).aggregate_sig@.subrange(0, old(self).aggregate_sig@.len() as int)
                =~= old(self).aggregate_sig@);
        }
        Protocol::FileStored { hash, signature }
    }
}

/// The channels of the participants, in order.
#[verifier::loop_isolation(false)]
fn channels_of(participants: &Vec<RegistryEntry>) -> (r: Vec<u64>)
    ensures
        r@.len() == participants@.len(),
        forall|j: int| 0 <= j < r@.len() ==> #[trigger] r@[j] == participants@[j].channel,
{
    let mut out: Vec<u64> = Vec::new();
    let mut i: usize = 0;
    while i < participants.len()
        invariant
            i <= participants@.len(),
            out@.len() == i,
            forall|j: int| 0 <= j < i ==> #[trigger] out@[j] == participants@[j].channel,
        decreases participants@.len() - i,
    {
        out.push(participants[i].channel);
        i = i + 1;
    }
    out
}

/// How the server classifies the first message on a new connection: either
/// a replica registration, a client session, or a protocol violation that
/// terminates only that connection.
pub enum ConnectionRole {
    Replica(Vec<u8>),
    Client,
    Violation,
}

/// Exactly one synchronous classification step per accepted connection.
pub fn classify_connection(msg: &Protocol) -> (r: ConnectionRole)
    ensures
        msg matches Protocol::HelloReplica(k)
            ==> r matches ConnectionRole::Replica(pk) && pk@ == k@,
        r matches ConnectionRole::Replica(pk)
            ==> msg matches Protocol::HelloReplica(k) && pk@ == k@,
        r is Client <==> msg matches Protocol::HelloClient,
        r is Violation <==> !(msg matches Protocol::HelloReplica(_))
            && !(msg matches Protocol::HelloClient),
{
    match msg {
        Protocol::HelloReplica(pk) => {
            let copy = copy_range(pk, 0, pk.len());
            proof {
                assert(pk@.subrange(0, pk@.len() as int) =~= pk@);
            }
            ConnectionRole::Replica(copy)
        }
        Protocol::HelloClient => ConnectionRole::Client,
        _ => ConnectionRole::Violation,
    }
}

/// Registers a replica: its channel is recorded under its key (a second
/// registration with the same key replaces the channel), and its key is
/// folded into the aggregate identity. Mirrors the server's order of work:
/// the registry entry is made before the key bytes are parsed, so a
/// malformed key leaves the entry behind but never joins the aggregate.
pub fn register_replica(
    registry: &mut ReplicaRegistry,
    identity: &mut AggregateIdentity,
    pk: &Vec<u8>,
    channel: u64,
) -> (r: Result<(), SessionError>)
    requires
        pk@.len() == 96,
        registry_wf(old(registry)@),
    ensures
        final(registry)@ == upserted(old(registry)@, pk@, channel),
        registry_wf(final(registry)@),
        r is Ok <==> valid_pk(pk@),
        r is Ok ==> final(identity).key() == apk_fold(old(identity).key(), pk@),
        r is Err ==> final(identity).key() == old(identity).key()
            && r == Err::<(), SessionError>(SessionError::MalformedKey),
{
    let key = copy_range(pk, 0, pk.len());
    proof {
        assert(pk@.subrange(0, pk@.len() as int) =~= pk@);
    }
    registry.insert(key, channel);
    if identity.fold_key(pk) {
        Ok(())
    } else {
        Err(SessionError::MalformedKey)
    }
}

/// Runs one whole client session over a recorded exchange: the store
/// instruction, the chunk frames read from the client, and the attestation
/// each participant answered, in registration order. Returns the
/// acknowledgement announced to the client and the final certificate, whose
/// signature is the fold of every participant's signature over the server's
/// own signature of the canonical hash.
#[verifier::loop_isolation(false)]
#[verifier::rlimit(30)]
pub fn run_session(
    server: &Keypair,
    identity: &AggregateIdentity,
    registry: &ReplicaRegistry,
    request: &Protocol,
    chunks: &Vec<Vec<u8>>,
    responses: &Vec<Protocol>,
) -> (r: Result<(Protocol, Protocol), SessionError>)
    requires
        registry_wf(registry@),
    ensures
        r is Ok <==> session_accepts(registry@.len() as int, *request, chunks.deep_view(), responses@),
        r matches Ok(out) ==> ({
            &&& out.0 matches Protocol::Ack(b) && b@ == identity.key()
            &&& out.0.wf() && out.1.wf()
            &&& (*request) matches Protocol::StoreFile(n)
                && out.1 matches Protocol::FileStored { hash, signature }
                && hash@ == upload_hash(chunks.deep_view(), n)
                && signature@.len() == 48 && valid_sig(signature@)
                && signature@ == fold_sigs(
                    sign_of(server.pk(), upload_hash(chunks.deep_view(), n)),
                    responses@.take(registry@.len() as int).map_values(
                        |m: Protocol| attestation_sig(m),
                    ),
                )
        }),
{
    let ghost dv: Seq<Seq<u8>> = chunks.deep_view();
    let ghost nreplicas: int = registry@.len() as int;
    let (mut session, ack) = ClientSession::begin(identity);
    let _instruction = match session.accept_store(request, registry) {
        Ok(f) => f,
        Err(e) => {
            return Err(e);
        }
    };
    let ghost n: u64 = session.remaining;
    proof {
        assert(dv.skip(0) =~= dv);
        assert(absorbed(session.hasher) + concat_chunks(stream_take(dv, n))
            =~= concat_chunks(stream_take(dv, n)));
    }
    let mut i: usize = 0;
    while session.remaining > 0
        invariant
            session.phase == SessionPhase::Streaming,
            i <= dv.len(),
            dv.len() == chunks@.len(),
            forall|j: int| 0 <= j < dv.len() ==> #[trigger] dv[j] == chunks@[j]@,
            stream_enough(dv.skip(i as int), session.remaining) == stream_enough(dv, n),
            absorbed(session.hasher)
                + concat_chunks(stream_take(dv.skip(i as int), session.remaining))
                == concat_chunks(stream_take(dv, n)),
            session.remaining == 0 ==> absorbed(session.hasher)
                == concat_chunks(stream_take(dv, n)),
            session.participants@.len() == registry@.len(),
            session.announced@ == identity.key(),
        decreases dv.len() - i,
    {
        if i == chunks.len() {
            proof {
                assert(dv.skip(i as int) =~= Seq::<Seq<u8>>::empty());
                assert(!stream_enough(dv, n));
            }
            return Err(SessionError::Disconnected);
        }
        let chunk = &chunks[i];
        proof {
            lemma_stream_step(dv, i as int, session.remaining, n, absorbed(session.hasher));
        }
        let _channels = session.stream_chunk(chunk);
        i = i + 1;
        proof {
            if session.remaining == 0 {
                assert(stream_take(dv.skip(i as int), 0u64) =~= Seq::<Seq<u8>>::empty());
                assert(absorbed(session.hasher) + Seq::<u8>::empty() =~= absorbed(session.hasher));
            }
        }
    }
    proof {
        assert(stream_take(dv.skip(i as int), 0u64) =~= Seq::<Seq<u8>>::empty());
        assert(absorbed(session.hasher) + Seq::<u8>::empty() =~= absorbed(session.hasher));
        assert(stream_enough(dv, n));
    }
    session.finish_streaming(server);
    let ghost own_sig = sign_of(server.pk(), upload_hash(dv, n));
    let ghost sig_of_resp = |m: Protocol| attestation_sig(m);
    proof {
        assert(responses@.take(0).map_values(sig_of_resp) =~= Seq::<Seq<u8>>::empty());
    }
    let mut j: usize = 0;
    let count: usize = session.participants.len();
    while j < count
        invariant
            session.phase == SessionPhase::Collecting,
            count == session.participants@.len(),
            count == registry@.len(),
            j <= count,
            j <= responses@.len(),
            session.next_participant == j,
            session.hash@ == upload_hash(dv, n),
            session.hash@.len() == 32,
            session.aggregate_sig@.len() == 48,
            valid_sig(session.aggregate_sig@),
            session.aggregate_sig@
                == fold_sigs(own_sig, responses@.take(j as int).map_values(sig_of_resp)),
            forall|j2: int| 0 <= j2 < j
                ==> attestation_ok(#[trigger] responses@[j2], upload_hash(dv, n)),
            session.announced@ == identity.key(),
        decreases count - j,
    {
        if j == responses.len() {
            proof {
                assert(responses@.len() < nreplicas);
            }
            return Err(SessionError::Disconnected);
        }
        let response = &responses[j];
        proof {
            lemma_fold_sigs_push(
                own_sig,
                responses@.take(j as int).map_values(sig_of_resp),
                attestation_sig(responses@[j as int]),
            );
            assert(responses@.take(j + 1).map_values(sig_of_resp)
                =~= responses@.take(j as int).map_values(sig_of_resp).push(
                    attestation_sig(responses@[j as int])));
        }
        match session.accept_attestation(response) {
            Ok(()) => {}
            Err(e) => {
                proof {
                    assert(!attestation_ok(responses@[j as int], upload_hash(dv, n)));
                }
                return Err(e);
            }
        }
        j = j + 1;
    }
    let cert = session.certificate();
    Ok((ack, cert))
}

} // verus!

//! The replica agent.
//!
//! On connect a replica announces its identity, then serves arbitrarily many
//! sequential store instructions: for each, it streams the declared bytes to
//! local storage while hashing them, names the stored object by the base-58
//! text of the content hash, signs the hash, and attests. A zero declared
//! length is a protocol violation, terminal for the process.

use vstd::prelude::*;
use crate::bls::{sign_of, valid_sig, Keypair};
use crate::hash::{absorbed, sha3_of, Sha3Hasher};
use crate::protocol::{copy_range, push_all, Protocol};
use crate::stream::{concat_chunks, sat_sub, stream_enough, stream_take, lemma_stream_step};
use crate::tobs58::{bs58_of, bs58_string};

verus! {

/// What ends a replica's service loop.
#[derive(Clone, Copy, Debug, PartialEq, Eq, Structural)]
pub enum ReplicaError {
    /// A message of a variant the current state does not allow.
    UnexpectedMessage,
    /// A store instruction declaring zero bytes.
    ZeroLength,
    /// The server's frames ran out before the declared bytes arrived.
    Disconnected,
}

/// The registration a replica sends as its first message.
pub fn hello_message(kp: &Keypair) -> (r: Protocol)
    ensures
        r matches Protocol::HelloReplica(k) && k@ == kp.pk(),
        r matches Protocol::HelloReplica(k) && crate::bls::valid_pk(k@),
        r.wf(),
{
    let pk = kp.public_key();
    let copy = copy_range(pk, 0, pk.len());
    proof {
        assert(pk@.subrange(0, pk@.len() as int) =~= pk@);
    }
    Protocol::HelloReplica(copy)
}

/// One store instruction in flight on a replica: the declared bytes still to
/// come and the running hash over what arrived.
pub struct ReplicaUpload {
    pub remaining: u64,
    pub hasher: Sha3Hasher,
}

impl ReplicaUpload {
    /// Takes the store instruction. A zero declared length is rejected
    /// before any bytes are read.
    pub fn begin(msg: &Protocol) -> (r: Result<ReplicaUpload, ReplicaError>)
        ensures
            r is Ok <==> (msg matches Protocol::StoreFile(n) && n != 0),
            r == Err::<ReplicaUpload, ReplicaError>(ReplicaError::ZeroLength)
                <==> (msg matches Protocol::StoreFile(n) && n == 0),
            r == Err::<ReplicaUpload, ReplicaError>(ReplicaError::UnexpectedMessage)
                <==> !(msg matches Protocol::StoreFile(_)),
            r matches Ok(u) ==> (*msg) matches Protocol::StoreFile(n) && u.remaining == n
                && absorbed(u.hasher) == Seq::<u8>::empty(),
    {
        match msg {
            Protocol::StoreFile(n) => {
                if *n == 0 {
                    Err(ReplicaError::ZeroLength)
                } else {
                    Ok(ReplicaUpload { remaining: *n, hasher: Sha3Hasher::new() })
                }
            }
            _ => Err(ReplicaError::UnexpectedMessage),
        }
    }

    /// One chunk frame: the same bytes go to the local object and into the
    /// running hash.
    pub fn take_chunk(&mut self, chunk: &Vec<u8>)
        requires
            old(self).remaining > 0,
        ensures
            absorbed(final(self).hasher) == absorbed(old(self).hasher) + chunk@,
            final(self).remaining == sat_sub(old(self).remaining, chunk@.len() as int),
    {
        self.hasher.absorb(chunk);
        let len64: u64 = chunk.len() as u64;
        self.remaining = if self.remaining >= len64 { self.remaining - len64 } else { 0 };
    }

    /// The declared bytes have all arrived: the content hash, the name the
    /// object is filed under, and the attestation to send back.
    pub fn finish(&mut self, kp: &Keypair) -> (r: (Vec<u8>, String, Protocol))
        requires
            old(self).remaining == 0,
        ensures
            r.0@ == sha3_of(absorbed(old(self).hasher)),
            r.0@.len() == 32,
            r.1@ == bs58_of(r.0@),
            r.2 matches Protocol::FileStored { hash, signature }
                && hash@ == r.0@ && signature@ == sign_of(kp.pk(), r.0@)
                && valid_sig(signature@),
            r.2.wf(),
    {
        let digest = self.hasher.digest();
        let name = bs58_string(&digest);
        let signature = kp.sign(&digest);
        let hash = copy_range(&digest, 0, digest.len());
        proof {
            assert(digest@.subrange(0, digest@.len() as int) =~= digest@);
        }
        (digest, name, Protocol::FileStored { hash, signature })
    }
}

/// The outcome of one store instruction served whole: the bytes persisted,
/// the name they are filed under, and the attestation sent back.
pub struct ReplicaOutcome {
    /// Every byte the replica wrote to the stored object, in order.
    pub stored: Vec<u8>,
    /// The object's name: the base-58 text of the content hash.
    pub name: String,
    /// The attestation: the content hash, signed by this replica.
    pub reply: Protocol,
}

/// Serves one store instruction over a recorded exchange: the instruction
/// and the chunk frames that followed it. The bytes persisted, read back
/// and rehashed, reproduce exactly the hash in the attestation.
#[verifier::loop_isolation(false)]
pub fn run_replica_store(kp: &Keypair, instruction: &Protocol, chunks: &Vec<Vec<u8>>) -> (r: Result<
    ReplicaOutcome,
    ReplicaError,
>)
    ensures
        r is Ok <==> ((*instruction) matches Protocol::StoreFile(n) && n != 0
            && stream_enough(chunks.deep_view(), n)),
        r == Err::<ReplicaOutcome, ReplicaError>(ReplicaError::ZeroLength)
            <==> (instruction matches Protocol::StoreFile(n) && n == 0),
        r == Err::<ReplicaOutcome, ReplicaError>(ReplicaError::UnexpectedMessage)
            <==> !(instruction matches Protocol::StoreFile(_)),
        r matches Ok(out) ==> ({
            &&& (*instruction) matches Protocol::StoreFile(n)
                && out.stored@ == concat_chunks(stream_take(chunks.deep_view(), n))
            &&& out.reply matches Protocol::FileStored { hash, signature }
                && hash@ == sha3_of(out.stored@)
                && signature@ == sign_of(kp.pk(), hash@)
                && valid_sig(signature@)
            &&& out.reply.wf()
            &&& out.name@ == bs58_of(sha3_of(out.stored@))
        }),
{
    let ghost dv: Seq<Seq<u8>> = chunks.deep_view();
    let mut upload = match ReplicaUpload::begin(instruction) {
        Ok(u) => u,
        Err(e) => {
            return Err(e);
        }
    };
    let ghost n: u64 = upload.remaining;
    let mut stored: Vec<u8> = Vec::new();
    proof {
        assert(dv.skip(0) =~= dv);
        assert(stored@ + concat_chunks(stream_take(dv, n)) =~= concat_chunks(stream_take(dv, n)));
    }
    let mut i: usize = 0;
    while upload.remaining > 0
        invariant
            i <= dv.len(),
            dv.len() == chunks@.len(),
            forall|j: int| 0 <= j < dv.len() ==> #[trigger] dv[j] == chunks@[j]@,
            stored@ == absorbed(upload.hasher),
            stream_enough(dv.skip(i as int), upload.remaining) == stream_enough(dv, n),
            stored@ + concat_chunks(stream_take(dv.skip(i as int), upload.remaining))
                == concat_chunks(stream_take(dv, n)),
        decreases dv.len() - i,
    {
        if i == chunks.len() {
            proof {
                assert(dv.skip(i as int) =~= Seq::<Seq<u8>>::empty());
                assert(!stream_enough(dv, n));
            }
            return Err(ReplicaError::Disconnected);
        }
        let chunk = &chunks[i];
        proof {
            lemma_stream_step(dv, i as int, upload.remaining, n, stored@);
        }
        upload.take_chunk(chunk);
        push_all(&mut stored, chunk);
        i = i + 1;
    }
    proof {
        assert(stream_take(dv.skip(i as int), 0u64) =~= Seq::<Seq<u8>>::empty());
        assert(stored@ + Seq::<u8>::empty() =~= stored@);
        assert(stream_enough(dv, n));
        assert(stored@ == concat_chunks(stream_take(dv, n)));
    }
    let (_digest, name, reply) = upload.finish(kp);
    Ok(ReplicaOutcome { stored, name, reply })
}

} // verus!

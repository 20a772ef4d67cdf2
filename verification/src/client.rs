//! The client agent.
//!
//! A client connects, announces itself, retains the server's aggregate
//! identity, declares its file's length, streams the bytes while hashing
//! them locally, and on the final certificate checks both that the
//! certificate's hash equals its own and that the aggregate signature
//! verifies against the identity it retained at connection time.

use vstd::prelude::*;
use crate::bls::{aggregate_of, bls_verify, verify_aggregate};
use crate::hash::{absorbed, sha3_of, Sha3Hasher};
use crate::protocol::{copy_range, Protocol};
use crate::registry::bytes_eq;
use crate::stream::{concat_chunks, sat_sub, stream_enough, stream_take, lemma_stream_step};

verus! {

/// What makes an upload fatal for the client.
#[derive(Clone, Copy, Debug, PartialEq, Eq, Structural)]
pub enum ClientError {
    /// A message of a variant the current state does not allow.
    UnexpectedMessage,
    /// The server's frames ran out before the exchange was complete.
    Disconnected,
    /// The certificate's hash differs from the locally computed hash.
    HashMismatch,
    /// The certificate's signature does not verify against the retained
    /// identity.
    InvalidCertificate,
}

/// The certificate of availability: the content hash, doubling as the
/// storage key each replica files its copy under, and the aggregate
/// signature over it.
pub struct Certificate {
    pub hash: Vec<u8>,
    pub signature: Vec<u8>,
}

/// The greeting a client sends as its first message.
pub fn hello_message() -> (r: Protocol)
    ensures
        r matches Protocol::HelloClient,
        r.wf(),
{
    Protocol::HelloClient
}

/// Takes the server's acknowledgement and retains the announced aggregate
/// identity for the life of the upload.
pub fn retain_identity(msg: &Protocol) -> (r: Result<Vec<u8>, ClientError>)
    ensures
        r is Ok <==> msg matches Protocol::Ack(_),
        r matches Ok(b) ==> msg matches Protocol::Ack(k) && b@ == k@,
        r matches Err(e) ==> e == ClientError::UnexpectedMessage,
{
    match msg {
        Protocol::Ack(k) => {
            let copy = copy_range(k, 0, k.len());
            proof {
                assert(k@.subrange(0, k@.len() as int) =~= k@);
            }
            Ok(copy)
        }
        _ => Err(ClientError::UnexpectedMessage),
    }
}

/// The store instruction declaring the file's length.
pub fn store_message(file_len: u64) -> (r: Protocol)
    ensures
        r == Protocol::StoreFile(file_len),
        r.wf(),
{
    Protocol::StoreFile(file_len)
}

/// The client's own transfer state: bytes still to send and the running
/// hash over what was sent.
pub struct ClientUpload {
    pub remaining: u64,
    pub hasher: Sha3Hasher,
}

impl ClientUpload {
    /// Starts an upload of a file of `file_len` bytes.
    pub fn begin(file_len: u64) -> (r: ClientUpload)
        ensures
            r.remaining == file_len,
            absorbed(r.hasher) == Seq::<u8>::empty(),
    {
        ClientUpload { remaining: file_len, hasher: Sha3Hasher::new() }
    }

    /// One buffer read from the file: forwarded as a chunk frame and folded
    /// into the local hash.
    pub fn take_chunk(&mut self, chunk: &Vec<u8>)
        requires
            old(self).remaining > 0,
        ensures
            absorbed(final(self).hasher) == absorbed(old(self).hasher) + chunk@,
            final(self).remaining == sat_sub(old(self).remaining, chunk@.len() as int),
    {
        self.hasher.absorb(chunk);
        let len64: u64 = chunk.len() as u64;
        self.remaining = if self.remaining >= len64 { self.remaining - len64 } else { 0 };
    }

    /// End of file: the locally computed content hash.
    pub fn local_hash(&mut self) -> (r: Vec<u8>)
        requires
            old(self).remaining == 0,
        ensures
            r@ == sha3_of(absorbed(old(self).hasher)),
            r@.len() == 32,
    {
        self.hasher.digest()
    }
}

/// Checks the final certificate: its hash must equal the locally computed
/// hash (a mismatch is a fatal integrity error), and its signature must
/// verify against the identity retained at connection time (a verification
/// failure is fatal). A "false" verification is a data-integrity error, not
/// a protocol violation.
pub fn check_certificate(retained: &Vec<u8>, local_hash: &Vec<u8>, msg: &Protocol) -> (r: Result<
    Certificate,
    ClientError,
>)
    requires
        retained@.len() == 96,
    ensures
        r is Ok <==> (msg matches Protocol::FileStored { hash, signature }
            && hash@ == local_hash@ && signature@.len() == 48
            && bls_verify(retained@, signature@, hash@)),
        r matches Ok(c) ==> msg matches Protocol::FileStored { hash, signature }
            && c.hash@ == hash@ && c.hash@ == local_hash@ && c.signature@ == signature@
            && bls_verify(retained@, c.signature@, c.hash@),
        r == Err::<Certificate, ClientError>(ClientError::UnexpectedMessage)
            <==> !(msg matches Protocol::FileStored { .. }),
        r == Err::<Certificate, ClientError>(ClientError::HashMismatch)
            <==> (msg matches Protocol::FileStored { hash, .. } && hash@ != local_hash@),
        (msg matches Protocol::FileStored { hash, signature }
            && hash@ == local_hash@ && signature@.len() == 48
            && aggregate_of(retained@, signature@, hash@)) ==> r is Ok,
{
    match msg {
        Protocol::FileStored { hash, signature } => {
            if !bytes_eq(hash, local_hash) {
                return Err(ClientError::HashMismatch);
            }
            if signature.len() != 48 {
                return Err(ClientError::InvalidCertificate);
            }
            if verify_aggregate(retained, signature, hash) {
                let h = copy_range(hash, 0, hash.len());
                let s = copy_range(signature, 0, signature.len());
                proof {
                    assert(hash@.subrange(0, hash@.len() as int) =~= hash@);
                    assert(signature@.subrange(0, signature@.len() as int) =~= signature@);
                }
                Ok(Certificate { hash: h, signature: s })
            } else {
                Err(ClientError::InvalidCertificate)
            }
        }
        _ => Err(ClientError::UnexpectedMessage),
    }
}

/// When a whole recorded exchange carries a client's upload to a verified
/// certificate.
pub open spec fn client_accepts(
    ack: Protocol,
    file_len: u64,
    chunks: Seq<Seq<u8>>,
    reply: Protocol,
) -> bool {
    ack matches Protocol::Ack(k) && k@.len() == 96 && stream_enough(chunks, file_len)
        && (reply matches Protocol::FileStored { hash, signature }
            && hash@ == sha3_of(concat_chunks(stream_take(chunks, file_len)))
            && signature@.len() == 48
            && bls_verify(k@, signature@, hash@))
}

/// Runs one whole upload over a recorded exchange: the server's
/// acknowledgement, the file's declared length and the buffers read from
/// it, and the server's final reply.
#[verifier::loop_isolation(false)]
pub fn run_client_upload(
    ack: &Protocol,
    file_len: u64,
    chunks: &Vec<Vec<u8>>,
    reply: &Protocol,
) -> (r: Result<Certificate, ClientError>)
    requires
        ack.wf(),
    ensures
        r is Ok <==> client_accepts(*ack, file_len, chunks.deep_view(), *reply),
        r matches Ok(c) ==> ({
            &&& c.hash@ == sha3_of(concat_chunks(stream_take(chunks.deep_view(), file_len)))
            &&& ack matches Protocol::Ack(k) && bls_verify(k@, c.signature@, c.hash@)
            &&& reply matches Protocol::FileStored { hash, signature }
                && c.hash@ == hash@ && c.signature@ == signature@
        }),
        (ack matches Protocol::Ack(k)
            && (*reply) matches Protocol::FileStored { hash, signature }
            && hash@ == sha3_of(concat_chunks(stream_take(chunks.deep_view(), file_len)))
            && stream_enough(chunks.deep_view(), file_len)
            && signature@.len() == 48
            && aggregate_of(k@, signature@, hash@)) ==> r is Ok,
{
    let ghost dv: Seq<Seq<u8>> = chunks.deep_view();
    let retained = match retain_identity(ack) {
        Ok(b) => b,
        Err(e) => {
            return Err(e);
        }
    };
    let mut upload = ClientUpload::begin(file_len);
    proof {
        assert(dv.skip(0) =~= dv);
        assert(absorbed(upload.hasher) + concat_chunks(stream_take(dv, file_len))
            =~= concat_chunks(stream_take(dv, file_len)));
    }
    let mut i: usize = 0;
    while upload.remaining > 0
        invariant
            i <= dv.len(),
            dv.len() == chunks@.len(),
            forall|j: int| 0 <= j < dv.len() ==> #[trigger] dv[j] == chunks@[j]@,
            stream_enough(dv.skip(i as int), upload.remaining) == stream_enough(dv, file_len),
            absorbed(upload.hasher) + concat_chunks(stream_take(dv.skip(i as int), upload.remaining))
                == concat_chunks(stream_take(dv, file_len)),
            retained@.len() == 96,
        decreases dv.len() - i,
    {
        if i == chunks.len() {
            proof {
                assert(dv.skip(i as int) =~= Seq::<Seq<u8>>::empty());
                assert(!stream_enough(dv, file_len));
            }
            return Err(ClientError::Disconnected);
        }
        let chunk = &chunks[i];
        proof {
            lemma_stream_step(dv, i as int, upload.remaining, file_len, absorbed(upload.hasher));
        }
        upload.take_chunk(chunk);
        i = i + 1;
    }
    proof {
        assert(stream_take(dv.skip(i as int), 0u64) =~= Seq::<Seq<u8>>::empty());
        assert(absorbed(upload.hasher) + Seq::<u8>::empty() =~= absorbed(upload.hasher));
        assert(stream_enough(dv, file_len));
    }
    let local = upload.local_hash();
    check_certificate(&retained, &local, reply)
}

} // verus!

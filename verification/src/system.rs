//! The three roles composed: one whole upload, end to end.
//!
//! A server with a set of registered replicas serves one client upload
//! entirely in memory: registration, announcement, streaming, attestation,
//! aggregation, and the client's own check of the certificate. Its contract
//! is the system's headline promise: the certificate carries the hash of
//! the uploaded bytes and verifies against the identity the client
//! retained; with no replicas registered the collection step is vacuous and
//! the certificate is the server's own signature alone.

use vstd::prelude::*;
use crate::bls::{
    aggregate_of, apk_of, bls_verify, fold_keys, fold_sigs, sign_of, sigs_over,
    lemma_fold_keys_push, AggregateIdentity, Keypair,
};
use crate::client::{run_client_upload, Certificate, ClientError};
use crate::protocol::Protocol;
use crate::registry::{has_key, registry_wf, ReplicaRegistry};
use crate::replica::{hello_message, run_replica_store};
use crate::server::{
    attestation_sig, classify_connection, register_replica, run_session, session_accepts,
    upload_hash, ConnectionRole,
};
use crate::stream::{concat_chunks, lemma_stream_take_all, stream_take};

verus! {

/// The aggregate identity a server announces after these replicas, in this
/// order, registered with it.
pub open spec fn announced_identity(server_pk: Seq<u8>, replica_pks: Seq<Seq<u8>>) -> Seq<u8> {
    fold_keys(apk_of(server_pk), replica_pks)
}

/// One whole upload, end to end. The given replicas register in order (their
/// keys must be pairwise distinct, as freshly generated keys are); the
/// client uploads a file of `file_len` bytes read in `chunks`; every
/// replica receives the same instruction and chunks and attests; the server
/// aggregates; the client checks. The result is the client's: a certificate
/// whose hash is the hash of the uploaded bytes, already verified against
/// the announced identity.
#[verifier::loop_isolation(false)]
#[verifier::rlimit(30)]
pub fn upload_round_trip(
    server: &Keypair,
    replicas: &Vec<Keypair>,
    file_len: u64,
    chunks: &Vec<Vec<u8>>,
) -> (r: Result<Certificate, ClientError>)
    requires
        file_len > 0,
        concat_chunks(chunks.deep_view()).len() == file_len,
        forall|i: int, j: int| 0 <= i < j < replicas@.len()
            ==> (#[trigger] replicas@[i]).pk() != (#[trigger] replicas@[j]).pk(),
    ensures
        r is Ok,
        r matches Ok(c) ==> ({
            &&& c.hash@ == sha3_of_upload(chunks.deep_view())
            &&& bls_verify(
                announced_identity(server.pk(), replicas@.map_values(|k: Keypair| k.pk())),
                c.signature@,
                c.hash@,
            )
            &&& replicas@.len() == 0 ==> c.signature@ == sign_of(server.pk(), c.hash@)
        }),
{
    let ghost dv: Seq<Seq<u8>> = chunks.deep_view();
    let ghost rpks: Seq<Seq<u8>> = replicas@.map_values(|k: Keypair| k.pk());
    let mut registry = ReplicaRegistry::new();
    let mut identity = AggregateIdentity::from_keypair(server);

    let mut i: usize = 0;
    while i < replicas.len()
        invariant
            i <= replicas@.len(),
            registry@.len() == i,
            registry_wf(registry@),
            forall|j: int| 0 <= j < i
                ==> (#[trigger] registry@[j]).0 == replicas@[j].pk()
                    && registry@[j].1 == j as u64,
            identity.key() == fold_keys(apk_of(server.pk()), rpks.take(i as int)),
        decreases replicas@.len() - i,
    {
        let hello = hello_message(&replicas[i]);
        let role = classify_connection(&hello);
        match role {
            ConnectionRole::Replica(pk) => {
                proof {
                    if has_key(registry@, pk@) {
                        let idx = crate::registry::key_index(registry@, pk@);
                        assert(registry@[idx].0 == pk@);
                        assert(false);
                    }
                    lemma_fold_keys_push(apk_of(server.pk()), rpks.take(i as int), pk@);
                    assert(rpks.take(i + 1) =~= rpks.take(i as int).push(replicas@[i as int].pk()));
                }
                let outcome = register_replica(&mut registry, &mut identity, &pk, i as u64);
                proof {
                    assert(outcome is Ok);
                }
            }
            _ => {
                proof {
                    assert(false);
                }
            }
        }
        i = i + 1;
    }
    proof {
        assert(rpks.take(replicas@.len() as int) =~= rpks);
        lemma_stream_take_all(dv, file_len);
    }

    let instruction = crate::client::store_message(file_len);
    let mut responses: Vec<Protocol> = Vec::new();
    let mut j: usize = 0;
    while j < replicas.len()
        invariant
            j <= replicas@.len(),
            responses@.len() == j,
            forall|j2: int| 0 <= j2 < j ==> ({
                &&& crate::server::attestation_ok(
                    #[trigger] responses@[j2], upload_hash(dv, file_len))
                &&& attestation_sig(responses@[j2])
                    == sign_of(replicas@[j2].pk(), upload_hash(dv, file_len))
            }),
        decreases replicas@.len() - j,
    {
        let outcome = match run_replica_store(&replicas[j], &instruction, chunks) {
            Ok(o) => o,
            Err(_) => {
                proof {
                    assert(false);
                }
                return Err(ClientError::Disconnected);
            }
        };
        responses.push(outcome.reply);
        j = j + 1;
    }

    let session = match run_session(server, &identity, &registry, &instruction, chunks, &responses) {
        Ok(s) => s,
        Err(_) => {
            proof {
                assert(session_accepts(registry@.len() as int, instruction, dv, responses@));
                assert(false);
            }
            return Err(ClientError::Disconnected);
        }
    };
    let (ack, cert_msg) = session;

    proof {
        let h = upload_hash(dv, file_len);
        assert(responses@.take(registry@.len() as int) =~= responses@);
        assert(responses@.map_values(|m: Protocol| attestation_sig(m))
            =~= sigs_over(rpks, h));
        let w = seq![server.pk()] + rpks;
        assert(w[0] == server.pk());
        assert(w.skip(1) =~= rpks);
        assert(identity.key() == fold_keys(apk_of(w[0]), w.skip(1)));
        assert(cert_msg matches Protocol::FileStored { signature, .. }
            && signature@ == fold_sigs(sign_of(w[0], h), sigs_over(w.skip(1), h)));
        assert(cert_msg matches Protocol::FileStored { signature, .. }
            && aggregate_of(identity.key(), signature@, h));
    }

    let result = run_client_upload(&ack, file_len, chunks, &cert_msg);
    proof {
        assert(result is Ok);
        if replicas@.len() == 0 {
            assert(responses@.take(0).map_values(|m: Protocol| attestation_sig(m))
                =~= Seq::<Seq<u8>>::empty());
        }
    }
    result
}

/// The hash of the uploaded bytes: every chunk, in order.
pub open spec fn sha3_of_upload(chunks: Seq<Seq<u8>>) -> Seq<u8> {
    crate::hash::sha3_of(concat_chunks(chunks))
}

} // verus!

use replistore::bls::Keypair;
use replistore::hash::sha3_256;
use replistore::protocol::Protocol;
use replistore::replica::run_replica_store;
use replistore::system::upload_round_trip;
use replistore::tobs58::ToBs58;

#[test]
fn one_replica_ten_byte_file() {
    // One server, one replica, a ten-byte file: the replica persists an
    // object addressed by the SHA3-256 hash of those bytes, and the
    // client's locally computed hash matches the certificate's hash with a
    // valid signature.
    let server = Keypair::generate();
    let replicas = vec![Keypair::generate()];
    let payload = b"1234567890".to_vec();
    let chunks = vec![payload.clone()];
    let cert = upload_round_trip(&server, &replicas, 10, &chunks)
        .expect("a complete upload must verify");
    let expected = sha3_256(&payload);
    assert_eq!(cert.hash, expected);

    // The replica's side of the same upload: the stored object rehashes to
    // the certificate's hash, and is filed under that hash's base-58 name.
    let out = run_replica_store(&replicas[0], &Protocol::StoreFile(10), &chunks)
        .expect("the replica must store the file");
    assert_eq!(out.stored, payload);
    assert_eq!(sha3_256(&out.stored), cert.hash);
    assert_eq!(out.name, cert.hash.to_bs58());
}

#[test]
fn zero_replicas_certificate_is_server_signature() {
    // With zero replicas the collection step is vacuous: the certificate's
    // aggregate signature equals the server's own signature alone, and it
    // still verifies against the server's solo identity.
    let server = Keypair::generate();
    let payload = b"lonely".to_vec();
    let chunks = vec![payload.clone()];
    let cert = upload_round_trip(&server, &Vec::new(), 6, &chunks)
        .expect("an upload with no replicas must still verify");
    let hash = sha3_256(&payload);
    assert_eq!(cert.hash, hash);
    assert_eq!(cert.signature, server.sign(&hash));
}

#[test]
fn several_replicas_and_chunks() {
    let server = Keypair::generate();
    let replicas = vec![Keypair::generate(), Keypair::generate(), Keypair::generate()];
    let chunks = vec![b"alpha ".to_vec(), Vec::new(), b"beta ".to_vec(), b"gamma".to_vec()];
    let whole = b"alpha beta gamma".to_vec();
    let cert = upload_round_trip(&server, &replicas, whole.len() as u64, &chunks)
        .expect("a complete upload must verify");
    assert_eq!(cert.hash, sha3_256(&whole));
    // With replicas attesting, the certificate is more than the server's
    // own signature.
    assert_ne!(cert.signature, server.sign(&cert.hash));
}

use replistore::bls::{AggregateIdentity, Keypair};
use replistore::client::{check_certificate, run_client_upload, ClientError};
use replistore::hash::sha3_256;
use replistore::protocol::Protocol;
use replistore::registry::ReplicaRegistry;
use replistore::replica::{run_replica_store, ReplicaError, ReplicaUpload};
use replistore::server::{run_session, ClientSession, SessionError};

#[test]
fn zero_length_store_is_rejected_by_session() {
    // A zero declared length is a protocol violation on any connection,
    // rejected before any bytes are read.
    let kp = Keypair::generate();
    let identity = AggregateIdentity::from_keypair(&kp);
    let registry = ReplicaRegistry::new();
    let (mut session, _ack) = ClientSession::begin(&identity);
    let r = session.accept_store(&Protocol::StoreFile(0), &registry);
    assert_eq!(r.err(), Some(SessionError::ZeroLength));
}

#[test]
fn zero_length_store_is_rejected_by_replica() {
    assert!(matches!(
        ReplicaUpload::begin(&Protocol::StoreFile(0)),
        Err(ReplicaError::ZeroLength)
    ));
}

#[test]
fn out_of_sequence_handshake_is_rejected() {
    let kp = Keypair::generate();
    let identity = AggregateIdentity::from_keypair(&kp);
    let registry = ReplicaRegistry::new();
    let (mut session, _ack) = ClientSession::begin(&identity);
    let r = session.accept_store(&Protocol::HelloClient, &registry);
    assert_eq!(r.err(), Some(SessionError::UnexpectedMessage));
}

#[test]
fn session_with_no_replicas_signs_alone() {
    // With zero replicas registered the collection step is vacuous and the
    // certificate's signature is the server's own signature alone.
    let server = Keypair::generate();
    let identity = AggregateIdentity::from_keypair(&server);
    let registry = ReplicaRegistry::new();
    let chunks = vec![b"ten bytes!".to_vec()];
    let (ack, cert) = run_session(
        &server,
        &identity,
        &registry,
        &Protocol::StoreFile(10),
        &chunks,
        &Vec::new(),
    )
    .expect("session with no replicas must succeed");
    let expected_hash = sha3_256(&b"ten bytes!".to_vec());
    match &ack {
        Protocol::Ack(k) => assert_eq!(k, identity.key_bytes()),
        other => panic!("wrong ack: {:?}", other),
    }
    match &cert {
        Protocol::FileStored { hash, signature } => {
            assert_eq!(hash, &expected_hash);
            assert_eq!(signature, &server.sign(&expected_hash));
        }
        other => panic!("wrong certificate: {:?}", other),
    }
}

#[test]
fn session_rejects_mismatched_attestation_hash() {
    let server = Keypair::generate();
    let replica = Keypair::generate();
    let identity = AggregateIdentity::from_keypair(&server);
    let mut registry = ReplicaRegistry::new();
    registry.insert(replica.public_key().clone(), 0);
    let chunks = vec![b"payload".to_vec()];
    let bad = Protocol::FileStored {
        hash: vec![0u8; 32],
        signature: replica.sign(&vec![0u8; 32]),
    };
    let r = run_session(
        &server,
        &identity,
        &registry,
        &Protocol::StoreFile(7),
        &chunks,
        &vec![bad],
    );
    assert_eq!(r.err(), Some(SessionError::IntegrityFailure));
}

#[test]
fn session_disconnected_when_chunks_run_out() {
    let server = Keypair::generate();
    let identity = AggregateIdentity::from_keypair(&server);
    let registry = ReplicaRegistry::new();
    let chunks = vec![b"abc".to_vec()];
    let r = run_session(
        &server,
        &identity,
        &registry,
        &Protocol::StoreFile(100),
        &chunks,
        &Vec::new(),
    );
    assert_eq!(r.err(), Some(SessionError::Disconnected));
}

#[test]
fn session_rejects_malformed_attestation_signature() {
    let server = Keypair::generate();
    let replica = Keypair::generate();
    let identity = AggregateIdentity::from_keypair(&server);
    let mut registry = ReplicaRegistry::new();
    registry.insert(replica.public_key().clone(), 0);
    let chunks = vec![b"payload".to_vec()];
    let hash = sha3_256(&b"payload".to_vec());
    let bad = Protocol::FileStored {
        hash,
        signature: vec![0xffu8; 48],
    };
    let r = run_session(
        &server,
        &identity,
        &registry,
        &Protocol::StoreFile(7),
        &chunks,
        &vec![bad],
    );
    assert_eq!(r.err(), Some(SessionError::MalformedSignature));
}

#[test]
fn replica_stores_and_attests() {
    // The file persisted by the replica, read back and rehashed, reproduces
    // exactly the hash in its attestation.
    let kp = Keypair::generate();
    let chunks = vec![b"first ".to_vec(), b"second".to_vec()];
    let out = run_replica_store(&kp, &Protocol::StoreFile(12), &chunks)
        .expect("replica must serve a complete instruction");
    assert_eq!(out.stored, b"first second".to_vec());
    let rehashed = sha3_256(&out.stored);
    match &out.reply {
        Protocol::FileStored { hash, signature } => {
            assert_eq!(hash, &rehashed);
            assert_eq!(signature, &kp.sign(&rehashed));
        }
        other => panic!("wrong attestation: {:?}", other),
    }
    assert_eq!(out.name, bs58::encode(&rehashed).into_string());
}

#[test]
fn replica_disconnected_when_chunks_run_out() {
    let kp = Keypair::generate();
    let r = run_replica_store(&kp, &Protocol::StoreFile(100), &vec![b"abc".to_vec()]);
    assert!(matches!(r, Err(ReplicaError::Disconnected)));
}

#[test]
fn client_rejects_wrong_hash() {
    let server = Keypair::generate();
    let identity = AggregateIdentity::from_keypair(&server);
    let local = sha3_256(&b"data".to_vec());
    let msg = Protocol::FileStored {
        hash: vec![0u8; 32],
        signature: server.sign(&vec![0u8; 32]),
    };
    let r = check_certificate(identity.key_bytes(), &local, &msg);
    assert_eq!(r.err(), Some(ClientError::HashMismatch));
}

#[test]
fn client_rejects_invalid_signature() {
    let server = Keypair::generate();
    let other = Keypair::generate();
    let identity = AggregateIdentity::from_keypair(&server);
    let local = sha3_256(&b"data".to_vec());
    // Right hash, but signed by somebody else entirely.
    let msg = Protocol::FileStored {
        hash: local.clone(),
        signature: other.sign(&local),
    };
    let r = check_certificate(identity.key_bytes(), &local, &msg);
    assert_eq!(r.err(), Some(ClientError::InvalidCertificate));
}

#[test]
fn client_upload_accepts_valid_reply() {
    let server = Keypair::generate();
    let identity = AggregateIdentity::from_keypair(&server);
    let chunks = vec![b"a file".to_vec()];
    let hash = sha3_256(&b"a file".to_vec());
    let reply = Protocol::FileStored {
        hash: hash.clone(),
        signature: server.sign(&hash),
    };
    let ack = Protocol::Ack(identity.key_bytes().clone());
    let cert = run_client_upload(&ack, 6, &chunks, &reply).expect("valid reply must be accepted");
    assert_eq!(cert.hash, hash);
    assert_eq!(cert.signature, server.sign(&hash));
}

#[test]
fn client_upload_rejects_non_ack_greeting() {
    let chunks = vec![b"a file".to_vec()];
    let reply = Protocol::HelloClient;
    let r = run_client_upload(&Protocol::HelloClient, 6, &chunks, &reply);
    assert_eq!(r.err(), Some(ClientError::UnexpectedMessage));
}

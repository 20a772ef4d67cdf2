use replistore::protocol::{decode, encode, Protocol};

fn roundtrip(m: &Protocol) -> Protocol {
    let bytes = encode(m);
    decode(&bytes).expect("a well-formed message must decode")
}

#[test]
fn encode_hello_client_is_one_tag_byte() {
    let bytes = encode(&Protocol::HelloClient);
    assert_eq!(bytes, vec![1u8]);
}

#[test]
fn encode_store_file_little_endian() {
    let bytes = encode(&Protocol::StoreFile(0x0123_4567_89ab_cdef));
    assert_eq!(
        bytes,
        vec![3u8, 0xef, 0xcd, 0xab, 0x89, 0x67, 0x45, 0x23, 0x01]
    );
}

#[test]
fn encode_hello_replica_prefixes_tag() {
    let pk = vec![7u8; 96];
    let bytes = encode(&Protocol::HelloReplica(pk.clone()));
    assert_eq!(bytes.len(), 97);
    assert_eq!(bytes[0], 0u8);
    assert_eq!(&bytes[1..], pk.as_slice());
}

#[test]
fn roundtrip_hello_replica() {
    let pk: Vec<u8> = (0..96u32).map(|i| i as u8).collect();
    match roundtrip(&Protocol::HelloReplica(pk.clone())) {
        Protocol::HelloReplica(got) => assert_eq!(got, pk),
        other => panic!("wrong variant: {:?}", other),
    }
}

#[test]
fn roundtrip_ack() {
    let apk = vec![0xabu8; 96];
    match roundtrip(&Protocol::Ack(apk.clone())) {
        Protocol::Ack(got) => assert_eq!(got, apk),
        other => panic!("wrong variant: {:?}", other),
    }
}

#[test]
fn roundtrip_store_file_extremes() {
    for n in [1u64, 2, 1024, u64::MAX] {
        match roundtrip(&Protocol::StoreFile(n)) {
            Protocol::StoreFile(got) => assert_eq!(got, n),
            other => panic!("wrong variant: {:?}", other),
        }
    }
}

#[test]
fn roundtrip_file_stored() {
    let hash = vec![5u8; 32];
    let signature: Vec<u8> = (0..48u32).map(|i| (i * 3) as u8).collect();
    match roundtrip(&Protocol::FileStored {
        hash: hash.clone(),
        signature: signature.clone(),
    }) {
        Protocol::FileStored {
            hash: h,
            signature: s,
        } => {
            assert_eq!(h, hash);
            assert_eq!(s, signature);
        }
        other => panic!("wrong variant: {:?}", other),
    }
}

#[test]
fn decode_rejects_empty() {
    assert!(decode(&Vec::new()).is_none());
}

#[test]
fn decode_rejects_unknown_tag() {
    assert!(decode(&vec![5u8]).is_none());
    assert!(decode(&vec![0xffu8, 1, 2]).is_none());
}

#[test]
fn decode_rejects_wrong_lengths() {
    // HelloReplica must be exactly 97 bytes.
    assert!(decode(&vec![0u8; 96]).is_none());
    assert!(decode(&vec![0u8; 98]).is_none());
    // HelloClient carries nothing.
    assert!(decode(&vec![1u8, 0]).is_none());
    // StoreFile must be exactly 9 bytes.
    assert!(decode(&vec![3u8, 1, 2, 3]).is_none());
    // FileStored must be exactly 81 bytes.
    assert!(decode(&vec![4u8; 80]).is_none());
    assert!(decode(&vec![4u8; 82]).is_none());
}

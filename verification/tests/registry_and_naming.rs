use replistore::registry::{bytes_eq, ReplicaRegistry};
use replistore::tobs58::{bs58_string, ToBs58};

#[test]
fn insert_two_distinct_keys() {
    let mut reg = ReplicaRegistry::new();
    let k1 = vec![1u8; 96];
    let k2 = vec![2u8; 96];
    reg.insert(k1.clone(), 10);
    reg.insert(k2.clone(), 20);
    assert_eq!(reg.len(), 2);
    assert_eq!(reg.channel_of(&k1), Some(10));
    assert_eq!(reg.channel_of(&k2), Some(20));
    assert_eq!(reg.channel_of(&vec![3u8; 96]), None);
}

#[test]
fn reregistration_replaces_channel() {
    // Registering the same public key twice keeps one entry, and a later
    // broadcast snapshot reaches only the most recently registered channel.
    let mut reg = ReplicaRegistry::new();
    let key = vec![9u8; 96];
    reg.insert(key.clone(), 1);
    reg.insert(key.clone(), 2);
    assert_eq!(reg.len(), 1);
    assert_eq!(reg.channel_of(&key), Some(2));
    let snap = reg.snapshot();
    assert_eq!(snap.len(), 1);
    assert_eq!(snap[0].channel, 2);
    assert!(bytes_eq(&snap[0].key, &key));
}

#[test]
fn reregistration_keeps_position() {
    let mut reg = ReplicaRegistry::new();
    let k1 = vec![1u8; 96];
    let k2 = vec![2u8; 96];
    reg.insert(k1.clone(), 10);
    reg.insert(k2.clone(), 20);
    reg.insert(k1.clone(), 30);
    let snap = reg.snapshot();
    assert_eq!(snap.len(), 2);
    assert!(bytes_eq(&snap[0].key, &k1));
    assert_eq!(snap[0].channel, 30);
    assert!(bytes_eq(&snap[1].key, &k2));
    assert_eq!(snap[1].channel, 20);
}

#[test]
fn bytes_eq_compares_contents() {
    assert!(bytes_eq(&vec![1, 2, 3], &vec![1, 2, 3]));
    assert!(!bytes_eq(&vec![1, 2, 3], &vec![1, 2, 4]));
    assert!(!bytes_eq(&vec![1, 2, 3], &vec![1, 2]));
    assert!(bytes_eq(&Vec::new(), &Vec::new()));
}

#[test]
fn bs58_known_values() {
    assert_eq!(bs58_string(&Vec::new()), "");
    assert_eq!(bs58_string(&vec![0u8]), "1");
    assert_eq!(bs58_string(&vec![0u8, 0u8]), "11");
    // Cross-check an arbitrary value against the encoder itself.
    let word = b"hello".to_vec();
    assert_eq!(bs58_string(&word), bs58::encode(b"hello").into_string());
    // And through the trait.
    assert_eq!(word.to_bs58(), bs58::encode(b"hello").into_string());
}

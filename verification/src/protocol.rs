//! The closed set of messages exchanged over the wire, and their binary
//! encoding.
//!
//! Every field is either a fixed-width byte string (public keys, hashes,
//! signatures) or an unsigned integer; the encoding is one tag byte followed
//! by the fields, with integers in little-endian order. Length-prefixed
//! framing of each encoded message is left to the transport.

use vstd::prelude::*;

verus! {

/// Width in bytes of a public key (plain or aggregated) on the wire.
pub const PUBLIC_KEY_BYTES: usize = 96;
/// Width in bytes of a content hash on the wire.
pub const HASH_BYTES: usize = 32;
/// Width in bytes of a signature (plain or aggregated) on the wire.
pub const SIGNATURE_BYTES: usize = 48;

/// Tag byte of each message variant.
pub const TAG_HELLO_REPLICA: u8 = 0;
pub const TAG_HELLO_CLIENT: u8 = 1;
pub const TAG_ACK: u8 = 2;
pub const TAG_STORE_FILE: u8 = 3;
pub const TAG_FILE_STORED: u8 = 4;

/// A protocol message. Raw file bytes travel as independent frames outside
/// this union, consumed chunk by chunk until a declared length is exhausted.
#[derive(Debug)]
pub enum Protocol {
    /// First message on a replica connection: the replica's public key.
    HelloReplica(Vec<u8>),
    /// First message on a client connection.
    HelloClient,
    /// Server's acknowledgement: the current aggregate public key of the
    /// server and every registered replica.
    Ack(Vec<u8>),
    /// Instruction to store the next N bytes of the stream as one file.
    StoreFile(u64),
    /// Attestation that a file was stored: the content hash and a signature
    /// over it. Also the final certificate sent back to the client.
    FileStored { hash: Vec<u8>, signature: Vec<u8> },
}

impl Protocol {
    /// Every fixed-width field has its declared width.
    pub open spec fn wf(self) -> bool {
        match self {
            Protocol::HelloReplica(pk) => pk@.len() == PUBLIC_KEY_BYTES,
            Protocol::HelloClient => true,
            Protocol::Ack(apk) => apk@.len() == PUBLIC_KEY_BYTES,
            Protocol::StoreFile(_) => true,
            Protocol::FileStored { hash, signature } =>
                hash@.len() == HASH_BYTES && signature@.len() == SIGNATURE_BYTES,
        }
    }

    /// The bytes this message occupies on the wire: one tag byte, then the
    /// fields in order, integers little-endian.
    pub open spec fn encoded(self) -> Seq<u8> {
        match self {
            Protocol::HelloReplica(pk) => seq![TAG_HELLO_REPLICA] + pk@,
            Protocol::HelloClient => seq![TAG_HELLO_CLIENT],
            Protocol::Ack(apk) => seq![TAG_ACK] + apk@,
            Protocol::StoreFile(n) => seq![TAG_STORE_FILE] + u64_le(n),
            Protocol::FileStored { hash, signature } =>
                seq![TAG_FILE_STORED] + hash@ + signature@,
        }
    }

    /// Two messages with the same shape: same variant, equal field contents.
    pub open spec fn same_message(self, other: Protocol) -> bool {
        match (self, other) {
            (Protocol::HelloReplica(a), Protocol::HelloReplica(b)) => a@ == b@,
            (Protocol::HelloClient, Protocol::HelloClient) => true,
            (Protocol::Ack(a), Protocol::Ack(b)) => a@ == b@,
            (Protocol::StoreFile(a), Protocol::StoreFile(b)) => a == b,
            (
                Protocol::FileStored { hash: ha, signature: sa },
                Protocol::FileStored { hash: hb, signature: sb },
            ) => ha@ == hb@ && sa@ == sb@,
            _ => false,
        }
    }
}

/// The eight little-endian bytes of a 64-bit integer.
pub open spec fn u64_le(n: u64) -> Seq<u8> {
    seq![
        (n & 0xff) as u8,
        ((n >> 8) & 0xff) as u8,
        ((n >> 16) & 0xff) as u8,
        ((n >> 24) & 0xff) as u8,
        ((n >> 32) & 0xff) as u8,
        ((n >> 40) & 0xff) as u8,
        ((n >> 48) & 0xff) as u8,
        ((n >> 56) & 0xff) as u8,
    ]
}

/// A 64-bit integer is recovered exactly from its little-endian bytes.
pub proof fn lemma_u64_le_of_bytes(b0: u8, b1: u8, b2: u8, b3: u8, b4: u8, b5: u8, b6: u8, b7: u8)
    ensures
        u64_le(
            (b0 as u64) | (b1 as u64) << 8 | (b2 as u64) << 16 | (b3 as u64) << 24
                | (b4 as u64) << 32 | (b5 as u64) << 40 | (b6 as u64) << 48 | (b7 as u64) << 56,
        ) =~= seq![b0, b1, b2, b3, b4, b5, b6, b7],
{
    let n: u64 = (b0 as u64) | (b1 as u64) << 8 | (b2 as u64) << 16 | (b3 as u64) << 24
        | (b4 as u64) << 32 | (b5 as u64) << 40 | (b6 as u64) << 48 | (b7 as u64) << 56;
    assert((n & 0xff) as u8 == b0 && ((n >> 8) & 0xff) as u8 == b1
        && ((n >> 16) & 0xff) as u8 == b2 && ((n >> 24) & 0xff) as u8 == b3
        && ((n >> 32) & 0xff) as u8 == b4 && ((n >> 40) & 0xff) as u8 == b5
        && ((n >> 48) & 0xff) as u8 == b6 && ((n >> 56) & 0xff) as u8 == b7) by (bit_vector)
        requires n == (b0 as u64) | (b1 as u64) << 8 | (b2 as u64) << 16 | (b3 as u64) << 24
            | (b4 as u64) << 32 | (b5 as u64) << 40 | (b6 as u64) << 48 | (b7 as u64) << 56;
}

/// Distinct 64-bit integers have distinct little-endian bytes.
pub proof fn lemma_u64_le_injective(a: u64, b: u64)
    requires
        u64_le(a) == u64_le(b),
    ensures
        a == b,
{
    assert(u64_le(a)[0] == u64_le(b)[0] && u64_le(a)[1] == u64_le(b)[1]
        && u64_le(a)[2] == u64_le(b)[2] && u64_le(a)[3] == u64_le(b)[3]
        && u64_le(a)[4] == u64_le(b)[4] && u64_le(a)[5] == u64_le(b)[5]
        && u64_le(a)[6] == u64_le(b)[6] && u64_le(a)[7] == u64_le(b)[7]);
    assert((a & 0xff) as u8 == (b & 0xff) as u8 && ((a >> 8) & 0xff) as u8 == ((b >> 8) & 0xff) as u8
        && ((a >> 16) & 0xff) as u8 == ((b >> 16) & 0xff) as u8
        && ((a >> 24) & 0xff) as u8 == ((b >> 24) & 0xff) as u8
        && ((a >> 32) & 0xff) as u8 == ((b >> 32) & 0xff) as u8
        && ((a >> 40) & 0xff) as u8 == ((b >> 40) & 0xff) as u8
        && ((a >> 48) & 0xff) as u8 == ((b >> 48) & 0xff) as u8
        && ((a >> 56) & 0xff) as u8 == ((b >> 56) & 0xff) as u8 ==> a == b) by (bit_vector);
}

/// Appends all of `src` to `dst`.
pub fn push_all(dst: &mut Vec<u8>, src: &Vec<u8>)
    ensures
        final(dst)@ == old(dst)@ + src@,
{
    let mut i: usize = 0;
    while i < src.len()
        invariant
            i <= src@.len(),
            dst@ == old(dst)@ + src@.take(i as int),
        decreases src@.len() - i,
    {
        dst.push(src[i]);
        i = i + 1;
        proof {
            assert(old(dst)@ + src@.take(i as int)
                =~= (old(dst)@ + src@.take(i - 1)).push(src@[i - 1]));
        }
    }
    proof {
        assert(src@.take(src@.len() as int) =~= src@);
    }
}

/// Appends the eight little-endian bytes of `n` to `dst`.
fn push_u64_le(dst: &mut Vec<u8>, n: u64)
    ensures
        final(dst)@ == old(dst)@ + u64_le(n),
{
    proof {
        assert((n & 0xff) < 256 && ((n >> 8) & 0xff) < 256 && ((n >> 16) & 0xff) < 256
            && ((n >> 24) & 0xff) < 256 && ((n >> 32) & 0xff) < 256 && ((n >> 40) & 0xff) < 256
            && ((n >> 48) & 0xff) < 256 && ((n >> 56) & 0xff) < 256) by (bit_vector);
    }
    dst.push((n & 0xff) as u8);
    dst.push(((n >> 8) & 0xff) as u8);
    dst.push(((n >> 16) & 0xff) as u8);
    dst.push(((n >> 24) & 0xff) as u8);
    dst.push(((n >> 32) & 0xff) as u8);
    dst.push(((n >> 40) & 0xff) as u8);
    dst.push(((n >> 48) & 0xff) as u8);
    dst.push(((n >> 56) & 0xff) as u8);
    proof {
        assert(final(dst)@ =~= old(dst)@ + u64_le(n));
    }
}

/// Copies `src[start..end]` into a fresh vector.
pub fn copy_range(src: &Vec<u8>, start: usize, end: usize) -> (r: Vec<u8>)
    requires
        start <= end <= src@.len(),
    ensures
        r@ == src@.subrange(start as int, end as int),
{
    let mut out: Vec<u8> = Vec::new();
    let mut i: usize = start;
    while i < end
        invariant
            start <= i <= end <= src@.len(),
            out@ == src@.subrange(start as int, i as int),
        decreases end - i,
    {
        out.push(src[i]);
        i = i + 1;
        proof {
            assert(src@.subrange(start as int, i as int)
                =~= src@.subrange(start as int, i - 1).push(src@[i - 1]));
        }
    }
    out
}

/// Serializes a message for the wire.
pub fn encode(m: &Protocol) -> (r: Vec<u8>)
    requires
        m.wf(),
    ensures
        r@ == m.encoded(),
{
    let mut out: Vec<u8> = Vec::new();
    match m {
        Protocol::HelloReplica(pk) => {
            out.push(TAG_HELLO_REPLICA);
            push_all(&mut out, pk);
        }
        Protocol::HelloClient => {
            out.push(TAG_HELLO_CLIENT);
        }
        Protocol::Ack(apk) => {
            out.push(TAG_ACK);
            push_all(&mut out, apk);
        }
        Protocol::StoreFile(n) => {
            out.push(TAG_STORE_FILE);
            push_u64_le(&mut out, *n);
        }
        Protocol::FileStored { hash, signature } => {
            out.push(TAG_FILE_STORED);
            push_all(&mut out, hash);
            push_all(&mut out, signature);
        }
    }
    proof {
        assert(out@ =~= m.encoded());
    }
    out
}

/// The length every well-formed message of each variant occupies.
pub proof fn lemma_encoded_shape(m: Protocol)
    requires
        m.wf(),
    ensures
        m.encoded().len() >= 1,
        m matches Protocol::HelloReplica(_) ==> m.encoded().len() == 97 && m.encoded()[0] == TAG_HELLO_REPLICA,
        m matches Protocol::HelloClient ==> m.encoded().len() == 1 && m.encoded()[0] == TAG_HELLO_CLIENT,
        m matches Protocol::Ack(_) ==> m.encoded().len() == 97 && m.encoded()[0] == TAG_ACK,
        m matches Protocol::StoreFile(_) ==> m.encoded().len() == 9 && m.encoded()[0] == TAG_STORE_FILE,
        m matches Protocol::FileStored { .. } ==> m.encoded().len() == 81 && m.encoded()[0] == TAG_FILE_STORED,
{
}

/// Reads a message off a whole frame. Returns `None` exactly when no
/// well-formed message encodes to these bytes.
pub fn decode(bytes: &Vec<u8>) -> (r: Option<Protocol>)
    ensures
        r matches Some(m) ==> m.wf() && m.encoded() == bytes@,
        r is None ==> forall|m: Protocol| m.wf() ==> m.encoded() != bytes@,
{
    if bytes.len() == 0 {
        proof {
            assert forall|m: Protocol| m.wf() implies m.encoded() != bytes@ by {
                lemma_encoded_shape(m);
            }
        }
        return None;
    }
    let tag: u8 = bytes[0];
    if tag == TAG_HELLO_REPLICA && bytes.len() == 97 {
        let pk = copy_range(bytes, 1, 97);
        let m = Protocol::HelloReplica(pk);
        proof {
            assert(m.encoded() =~= bytes@);
        }
        Some(m)
    } else if tag == TAG_HELLO_CLIENT && bytes.len() == 1 {
        let m = Protocol::HelloClient;
        proof {
            assert(m.encoded() =~= bytes@);
        }
        Some(m)
    } else if tag == TAG_ACK && bytes.len() == 97 {
        let apk = copy_range(bytes, 1, 97);
        let m = Protocol::Ack(apk);
        proof {
            assert(m.encoded() =~= bytes@);
        }
        Some(m)
    } else if tag == TAG_STORE_FILE && bytes.len() == 9 {
        let n: u64 = (bytes[1] as u64) | (bytes[2] as u64) << 8 | (bytes[3] as u64) << 16
            | (bytes[4] as u64) << 24 | (bytes[5] as u64) << 32 | (bytes[6] as u64) << 40
            | (bytes[7] as u64) << 48 | (bytes[8] as u64) << 56;
        let m = Protocol::StoreFile(n);
        proof {
            lemma_u64_le_of_bytes(
                bytes@[1], bytes@[2], bytes@[3], bytes@[4],
                bytes@[5], bytes@[6], bytes@[7], bytes@[8],
            );
            assert(m.encoded() =~= bytes@);
        }
        Some(m)
    } else if tag == TAG_FILE_STORED && bytes.len() == 81 {
        let hash = copy_range(bytes, 1, 33);
        let signature = copy_range(bytes, 33, 81);
        let m = Protocol::FileStored { hash, signature };
        proof {
            assert(m.encoded() =~= bytes@);
        }
        Some(m)
    } else {
        proof {
            assert forall|m: Protocol| m.wf() implies m.encoded() != bytes@ by {
                lemma_encoded_shape(m);
                if m.encoded() == bytes@ {
                    assert(bytes@[0] == m.encoded()[0]);
                }
            }
        }
        None
    }
}

/// The encoding is injective: equal wire bytes mean equal messages.
pub proof fn lemma_encode_injective(a: Protocol, b: Protocol)
    requires
        a.wf(),
        b.wf(),
        a.encoded() == b.encoded(),
    ensures
        a.same_message(b),
{
    lemma_encoded_shape(a);
    lemma_encoded_shape(b);
    assert(a.encoded()[0] == b.encoded()[0]);
    match (a, b) {
        (Protocol::HelloReplica(x), Protocol::HelloReplica(y)) => {
            assert(x@ =~= y@) by {
                assert forall|i: int| 0 <= i < 96 implies x@[i] == y@[i] by {
                    assert((seq![TAG_HELLO_REPLICA] + x@)[i + 1] == (seq![TAG_HELLO_REPLICA] + y@)[i + 1]);
                }
            }
        }
        (Protocol::HelloClient, Protocol::HelloClient) => {}
        (Protocol::Ack(x), Protocol::Ack(y)) => {
            assert(x@ =~= y@) by {
                assert forall|i: int| 0 <= i < 96 implies x@[i] == y@[i] by {
                    assert((seq![TAG_ACK] + x@)[i + 1] == (seq![TAG_ACK] + y@)[i + 1]);
                }
            }
        }
        (Protocol::StoreFile(x), Protocol::StoreFile(y)) => {
            assert(u64_le(x) =~= u64_le(y)) by {
                assert forall|i: int| 0 <= i < 8 implies u64_le(x)[i] == u64_le(y)[i] by {
                    assert((seq![TAG_STORE_FILE] + u64_le(x))[i + 1]
                        == (seq![TAG_STORE_FILE] + u64_le(y))[i + 1]);
                }
            }
            lemma_u64_le_injective(x, y);
        }
        (
            Protocol::FileStored { hash: ha, signature: sa },
            Protocol::FileStored { hash: hb, signature: sb },
        ) => {
            assert(ha@ =~= hb@) by {
                assert forall|i: int| 0 <= i < 32 implies ha@[i] == hb@[i] by {
                    assert((seq![TAG_FILE_STORED] + ha@ + sa@)[i + 1]
                        == (seq![TAG_FILE_STORED] + hb@ + sb@)[i + 1]);
                }
            }
            assert(sa@ =~= sb@) by {
                assert forall|i: int| 0 <= i < 48 implies sa@[i] == sb@[i] by {
                    assert((seq![TAG_FILE_STORED] + ha@ + sa@)[i + 33]
                        == (seq![TAG_FILE_STORED] + hb@ + sb@)[i + 33]);
                }
            }
        }
        _ => {}
    }
}

} // verus!

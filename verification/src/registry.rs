//! The live replica registry.
//!
//! A mapping, in registration order, from replica public key (96 bytes,
//! unique) to that replica's live message channel, named by a transport
//! handle. Entries are inserted on registration and never removed;
//! registering a key that is already present replaces its channel in place,
//! so a later broadcast reaches only the most recently registered channel
//! for that key.

use vstd::prelude::*;

verus! {

/// One registered replica: its public key bytes and the handle of its live
/// message channel, as the transport layer numbers connections.
pub struct RegistryEntry {
    pub key: Vec<u8>,
    pub channel: u64,
}

/// Key widths right and keys unique.
pub open spec fn registry_wf(v: Seq<(Seq<u8>, u64)>) -> bool {
    &&& forall|i: int| 0 <= i < v.len() ==> (#[trigger] v[i]).0.len() == 96
    &&& forall|i: int, j: int| 0 <= i < j < v.len() ==> (#[trigger] v[i]).0 != (#[trigger] v[j]).0
}

/// Whether some entry carries key `k`.
pub open spec fn has_key(v: Seq<(Seq<u8>, u64)>, k: Seq<u8>) -> bool {
    exists|i: int| 0 <= i < v.len() && (#[trigger] v[i]).0 == k
}

/// The index of the entry carrying key `k` (unique when the registry is
/// well-formed).
pub open spec fn key_index(v: Seq<(Seq<u8>, u64)>, k: Seq<u8>) -> int {
    choose|i: int| 0 <= i < v.len() && (#[trigger] v[i]).0 == k
}

/// The registry after registering `(k, c)`: the entry for `k` replaced in
/// place if present, else appended.
pub open spec fn upserted(v: Seq<(Seq<u8>, u64)>, k: Seq<u8>, c: u64) -> Seq<(Seq<u8>, u64)> {
    if has_key(v, k) {
        v.update(key_index(v, k), (k, c))
    } else {
        v.push((k, c))
    }
}

/// Registration keeps the registry well-formed, records the key, and leaves
/// the most recent channel as the only one its key maps to.
pub proof fn lemma_upserted_props(v: Seq<(Seq<u8>, u64)>, k: Seq<u8>, c: u64)
    requires
        registry_wf(v),
        k.len() == 96,
    ensures
        registry_wf(upserted(v, k, c)),
        has_key(upserted(v, k, c), k),
        forall|i: int|
            0 <= i < upserted(v, k, c).len() && (#[trigger] upserted(v, k, c)[i]).0 == k
                ==> upserted(v, k, c)[i].1 == c,
        forall|i: int|
            0 <= i < upserted(v, k, c).len() && (#[trigger] upserted(v, k, c)[i]).0 != k
                ==> 0 <= i < v.len() && upserted(v, k, c)[i] == v[i],
        upserted(v, k, c).len() == if has_key(v, k) { v.len() } else { v.len() + 1 },
{
    let u = upserted(v, k, c);
    if has_key(v, k) {
        let idx = key_index(v, k);
        assert(0 <= idx < v.len() && v[idx].0 == k);
        assert(u[idx] == (k, c));
        assert forall|i: int| 0 <= i < u.len() && (#[trigger] u[i]).0 == k implies u[i].1 == c by {
            if i != idx {
                assert(u[i] == v[i]);
                assert(v[i].0 == k && v[idx].0 == k);
            }
        }
    } else {
        assert(u[v.len() as int] == (k, c));
        assert forall|i: int| 0 <= i < u.len() && (#[trigger] u[i]).0 == k implies u[i].1 == c by {
            if i < v.len() {
                assert(v[i].0 == k);
            }
        }
    }
}

/// Law: registering the same key twice leaves exactly the state of
/// registering it once with the later channel; no entry still carries the
/// earlier channel for that key.
pub proof fn lemma_reregister_replaces(v: Seq<(Seq<u8>, u64)>, k: Seq<u8>, c1: u64, c2: u64)
    requires
        registry_wf(v),
        k.len() == 96,
    ensures
        upserted(upserted(v, k, c1), k, c2) == upserted(v, k, c2),
        forall|i: int|
            0 <= i < upserted(upserted(v, k, c1), k, c2).len()
                && (#[trigger] upserted(upserted(v, k, c1), k, c2)[i]).0 == k
                ==> upserted(upserted(v, k, c1), k, c2)[i].1 == c2,
{
    lemma_upserted_props(v, k, c1);
    let v1 = upserted(v, k, c1);
    lemma_upserted_props(v1, k, c2);
    if has_key(v, k) {
        let idx = key_index(v, k);
        assert(0 <= idx < v.len() && v[idx].0 == k);
        let idx1 = key_index(v1, k);
        assert(0 <= idx1 < v1.len() && v1[idx1].0 == k);
        if idx1 != idx {
            assert(v1[idx1] == v[idx1]);
            assert(v[idx1].0 == k && v[idx].0 == k);
            assert(false);
        }
        assert(upserted(v1, k, c2) =~= upserted(v, k, c2));
    } else {
        let idx1 = key_index(v1, k);
        assert(v1[v.len() as int].0 == k);
        assert(0 <= idx1 < v1.len() && v1[idx1].0 == k);
        if idx1 != v.len() {
            assert(v1[idx1] == v[idx1]);
            assert(false);
        }
        assert(upserted(v1, k, c2) =~= upserted(v, k, c2));
    }
}

/// The registry itself, keyed by replica public key.
pub struct ReplicaRegistry {
    entries: Vec<RegistryEntry>,
}

impl View for ReplicaRegistry {
    type V = Seq<(Seq<u8>, u64)>;

    closed spec fn view(&self) -> Seq<(Seq<u8>, u64)> {
        self.entries@.map_values(|e: RegistryEntry| (e.key@, e.channel))
    }
}

impl ReplicaRegistry {
    /// An empty registry.
    pub fn new() -> (r: ReplicaRegistry)
        ensures
            r@ == Seq::<(Seq<u8>, u64)>::empty(),
    {
        let r = ReplicaRegistry { entries: Vec::new() };
        proof {
            assert(r@ =~= Seq::<(Seq<u8>, u64)>::empty());
        }
        r
    }

    /// How many replicas are registered.
    pub fn len(&self) -> (r: usize)
        ensures
            r == self@.len(),
    {
        self.entries.len()
    }

    /// Registers `(key, channel)`: replaces the channel of an entry already
    /// carrying this key, else appends a new entry.
    #[verifier::loop_isolation(false)]
    pub fn insert(&mut self, key: Vec<u8>, channel: u64)
        requires
            key@.len() == 96,
            registry_wf(old(self)@),
        ensures
            final(self)@ == upserted(old(self)@, key@, channel),
            registry_wf(final(self)@),
    {
        proof {
            lemma_upserted_props(old(self)@, key@, channel);
        }
        let ghost v = self@;
        let mut i: usize = 0;
        while i < self.entries.len()
            invariant
                self == old(self),
                v == self@,
                i <= self.entries@.len(),
                self@.len() == self.entries@.len(),
                forall|j: int| 0 <= j < self.entries@.len()
                    ==> #[trigger] self@[j] == (self.entries@[j].key@, self.entries@[j].channel),
                forall|j: int| 0 <= j < i ==> (#[trigger] self@[j]).0 != key@,
            decreases self.entries@.len() - i,
        {
            if bytes_eq(&self.entries[i].key, &key) {
                proof {
                    assert(self@[i as int].0 == key@);
                    assert(has_key(v, key@));
                    let idx = key_index(v, key@);
                    if idx != i {
                        assert(v[idx].0 == key@ && v[i as int].0 == key@);
                        assert(false);
                    }
                }
                self.entries[i] = RegistryEntry { key, channel };
                proof {
                    assert(self@ =~= upserted(v, key@, channel));
                }
                return;
            }
            i = i + 1;
        }
        proof {
            if has_key(v, key@) {
                let idx = key_index(v, key@);
                assert(v[idx].0 == key@);
                assert(false);
            }
        }
        self.entries.push(RegistryEntry { key, channel });
        proof {
            assert(self@ =~= upserted(v, key@, channel));
        }
    }

    /// The channel registered for `key`, if any.
    #[verifier::loop_isolation(false)]
    pub fn channel_of(&self, key: &Vec<u8>) -> (r: Option<u64>)
        requires
            registry_wf(self@),
        ensures
            r is Some <==> has_key(self@, key@),
            r matches Some(c) ==> has_key(self@, key@)
                && c == self@[key_index(self@, key@)].1,
    {
        let mut i: usize = 0;
        while i < self.entries.len()
            invariant
                i <= self.entries@.len(),
                self@.len() == self.entries@.len(),
                forall|j: int| 0 <= j < self.entries@.len()
                    ==> #[trigger] self@[j] == (self.entries@[j].key@, self.entries@[j].channel),
                forall|j: int| 0 <= j < i ==> (#[trigger] self@[j]).0 != key@,
                registry_wf(self@),
            decreases self.entries@.len() - i,
        {
            if bytes_eq(&self.entries[i].key, &key) {
                proof {
                    assert(self@[i as int].0 == key@);
                    let idx = key_index(self@, key@);
                    if idx != i {
                        assert(self@[idx].0 == key@ && self@[i as int].0 == key@);
                        assert(false);
                    }
                }
                return Some(self.entries[i].channel);
            }
            i = i + 1;
        }
        proof {
            if has_key(self@, key@) {
                let idx = key_index(self@, key@);
                assert(self@[idx].0 == key@);
                assert(false);
            }
        }
        None
    }

    /// A snapshot of the registered entries, in registration order: the
    /// fixed participant set of one upload.
    #[verifier::loop_isolation(false)]
    pub fn snapshot(&self) -> (r: Vec<RegistryEntry>)
        ensures
            r@.len() == self@.len(),
            forall|j: int| 0 <= j < r@.len()
                ==> (#[trigger] r@[j]).key@ == self@[j].0 && r@[j].channel == self@[j].1,
    {
        let mut out: Vec<RegistryEntry> = Vec::new();
        let mut i: usize = 0;
        while i < self.entries.len()
            invariant
                i <= self.entries@.len(),
                self@.len() == self.entries@.len(),
                forall|j: int| 0 <= j < self.entries@.len()
                    ==> #[trigger] self@[j] == (self.entries@[j].key@, self.entries@[j].channel),
                out@.len() == i,
                forall|j: int| 0 <= j < i
                    ==> (#[trigger] out@[j]).key@ == self@[j].0 && out@[j].channel == self@[j].1,
            decreases self.entries@.len() - i,
        {
            let e = &self.entries[i];
            let key = crate::protocol::copy_range(&e.key, 0, e.key.len());
            proof {
                assert(e.key@.subrange(0, e.key@.len() as int) =~= e.key@);
            }
            out.push(RegistryEntry { key, channel: e.channel });
            i = i + 1;
        }
        out
    }
}

/// Whether two byte strings hold the same bytes.
pub fn bytes_eq(a: &Vec<u8>, b: &Vec<u8>) -> (r: bool)
    ensures
        r == (a@ == b@),
{
    if a.len() != b.len() {
        return false;
    }
    let mut i: usize = 0;
    while i < a.len()
        invariant
            a@.len() == b@.len(),
            i <= a@.len(),
            forall|j: int| 0 <= j < i ==> a@[j] == b@[j],
        decreases a@.len() - i,
    {
        if a[i] != b[i] {
            return false;
        }
        i = i + 1;
    }
    proof {
        assert(a@ =~= b@);
    }
    true
}

} // verus!

//! Identity and signature aggregation.
//!
//! Wraps the BLS12-381 multi-signature scheme of `dusk_bls12_381_sign`:
//! generating a keypair, signing a message, folding public keys into one
//! aggregate key and signatures into one aggregate signature, and verifying
//! an aggregate signature against an aggregate key. Keys and signatures are
//! carried as their fixed-width wire bytes; contracts name the scheme's
//! operations as functions of those bytes.

use vstd::prelude::*;
use dusk_bytes::Serializable;

verus! {

/// Whether `dusk_bls12_381_sign::PublicKey::from_bytes` accepts these bytes
/// as a public key.
pub uninterp spec fn valid_pk(pk: Seq<u8>) -> bool;

/// Whether `dusk_bls12_381_sign::Signature::from_bytes` accepts these bytes
/// as a signature.
pub uninterp spec fn valid_sig(sig: Seq<u8>) -> bool;

/// The signature of the keypair whose public key serializes to `pk` over
/// `msg`, as `SecretKey::sign` computes it (deterministic: the secret scalar
/// is determined by the public point).
pub uninterp spec fn sign_of(pk: Seq<u8>, msg: Seq<u8>) -> Seq<u8>;

/// The aggregate of the single public key `pk`, as `APK::from` computes it.
pub uninterp spec fn apk_of(pk: Seq<u8>) -> Seq<u8>;

/// The aggregate key `apk` with one more public key `pk` folded in, as
/// `APK::aggregate` computes it.
pub uninterp spec fn apk_fold(apk: Seq<u8>, pk: Seq<u8>) -> Seq<u8>;

/// The aggregate of signatures `sig` and `other`, as `Signature::aggregate`
/// computes it.
pub uninterp spec fn sig_fold(sig: Seq<u8>, other: Seq<u8>) -> Seq<u8>;

/// Whether `APK::verify` accepts `sig` as a signature over `msg` under the
/// aggregate key `apk` (false also when either byte string is malformed).
pub uninterp spec fn bls_verify(apk: Seq<u8>, sig: Seq<u8>, msg: Seq<u8>) -> bool;

/// `base` with each key of `pks` folded in, left to right.
pub open spec fn fold_keys(base: Seq<u8>, pks: Seq<Seq<u8>>) -> Seq<u8>
    decreases pks.len(),
{
    if pks.len() == 0 {
        base
    } else {
        fold_keys(apk_fold(base, pks[0]), pks.skip(1))
    }
}

/// `base` with each signature of `sigs` folded in, left to right.
pub open spec fn fold_sigs(base: Seq<u8>, sigs: Seq<Seq<u8>>) -> Seq<u8>
    decreases sigs.len(),
{
    if sigs.len() == 0 {
        base
    } else {
        fold_sigs(sig_fold(base, sigs[0]), sigs.skip(1))
    }
}

/// The signatures of the keypairs with public keys `pks` over `msg`.
pub open spec fn sigs_over(pks: Seq<Seq<u8>>, msg: Seq<u8>) -> Seq<Seq<u8>> {
    pks.map_values(|p: Seq<u8>| sign_of(p, msg))
}

/// `sig` is the aggregate of the signatures over `msg` of some non-empty set
/// of keypairs, and `apk` is the aggregate of exactly those keypairs' public
/// keys, folded in the same order.
pub open spec fn aggregate_of(apk: Seq<u8>, sig: Seq<u8>, msg: Seq<u8>) -> bool {
    exists|pks: Seq<Seq<u8>>|
        pks.len() > 0
        && apk == #[trigger] fold_keys(apk_of(pks[0]), pks.skip(1))
        && sig == fold_sigs(sign_of(pks[0], msg), sigs_over(pks.skip(1), msg))
}

pub proof fn lemma_fold_keys_push(base: Seq<u8>, pks: Seq<Seq<u8>>, p: Seq<u8>)
    ensures
        fold_keys(base, pks.push(p)) == apk_fold(fold_keys(base, pks), p),
    decreases pks.len(),
{
    if pks.len() == 0 {
        assert(pks.push(p)[0] == p);
        assert(pks.push(p).skip(1) =~= Seq::<Seq<u8>>::empty());
        assert(fold_keys(apk_fold(base, p), Seq::<Seq<u8>>::empty()) == apk_fold(base, p));
        assert(fold_keys(base, pks.push(p))
            == fold_keys(apk_fold(base, pks.push(p)[0]), pks.push(p).skip(1)));
    } else {
        assert(pks.push(p)[0] == pks[0]);
        assert(pks.push(p).skip(1) =~= pks.skip(1).push(p));
        lemma_fold_keys_push(apk_fold(base, pks[0]), pks.skip(1), p);
    }
}

pub proof fn lemma_fold_sigs_push(base: Seq<u8>, sigs: Seq<Seq<u8>>, s: Seq<u8>)
    ensures
        fold_sigs(base, sigs.push(s)) == sig_fold(fold_sigs(base, sigs), s),
    decreases sigs.len(),
{
    if sigs.len() == 0 {
        assert(sigs.push(s)[0] == s);
        assert(sigs.push(s).skip(1) =~= Seq::<Seq<u8>>::empty());
        assert(fold_sigs(sig_fold(base, s), Seq::<Seq<u8>>::empty()) == sig_fold(base, s));
        assert(fold_sigs(base, sigs.push(s))
            == fold_sigs(sig_fold(base, sigs.push(s)[0]), sigs.push(s).skip(1)));
    } else {
        assert(sigs.push(s)[0] == sigs[0]);
        assert(sigs.push(s).skip(1) =~= sigs.skip(1).push(s));
        lemma_fold_sigs_push(sig_fold(base, sigs[0]), sigs.skip(1), s);
    }
}

#[verifier::external_type_specification]
#[verifier::external_body]
pub struct ExSecretKey(dusk_bls12_381_sign::SecretKey);

#[verifier::external_type_specification]
#[verifier::external_body]
pub struct ExPublicKey(dusk_bls12_381_sign::PublicKey);

#[verifier::external_type_specification]
#[verifier::external_body]
pub struct ExAPK(dusk_bls12_381_sign::APK);

/// A node's identity: a secret/public BLS keypair, generated once per process
/// lifetime. The secret key never leaves this struct; the public key is
/// carried as its 96 wire bytes.
pub struct Keypair {
    secret: dusk_bls12_381_sign::SecretKey,
    point: dusk_bls12_381_sign::PublicKey,
    public: Vec<u8>,
}

impl Keypair {
    /// The public key's wire bytes.
    pub closed spec fn pk(self) -> Seq<u8> {
        self.public@
    }

    #[verifier::type_invariant]
    spec fn inv(self) -> bool {
        self.public@.len() == 96 && valid_pk(self.public@)
    }

    /// Relies on `SecretKey::random` (a fresh keypair from the thread's RNG)
    /// and `PublicKey::from`: the public key serializes to 96 bytes that
    /// `PublicKey::from_bytes` accepts again.
    #[verifier::external_body]
    pub fn generate() -> (r: Keypair)
        ensures
            r.pk().len() == 96,
            valid_pk(r.pk()),
    {
        let secret = dusk_bls12_381_sign::SecretKey::random(&mut rand::thread_rng());
        let point = dusk_bls12_381_sign::PublicKey::from(&secret);
        let public = point.to_bytes().to_vec();
        Keypair { secret, point, public }
    }

    /// The public key's wire bytes.
    pub fn public_key(&self) -> (r: &Vec<u8>)
        ensures
            r@ == self.pk(),
            r@.len() == 96,
            valid_pk(r@),
    {
        proof {
            use_type_invariant(self);
        }
        &self.public
    }

    /// Relies on `SecretKey::sign`: deterministic in the key and the message,
    /// producing 48 bytes that `Signature::from_bytes` accepts again. The
    /// stored public point and bytes are derived from the stored secret in
    /// `generate`, the only constructor, so the result is the signature of
    /// the keypair that `pk()` identifies.
    #[verifier::external_body]
    pub fn sign(&self, msg: &Vec<u8>) -> (r: Vec<u8>)
        ensures
            r@ == sign_of(self.pk(), msg@),
            r@.len() == 48,
            valid_sig(r@),
    {
        self.secret.sign(&self.point, msg.as_slice()).to_bytes().to_vec()
    }
}

/// The single combined public key of the server and every registered replica:
/// initialized from the server's own key, mutated by folding in each newly
/// registered replica's key.
pub struct AggregateIdentity {
    point: dusk_bls12_381_sign::APK,
    bytes: Vec<u8>,
}

impl AggregateIdentity {
    /// The aggregate key's wire bytes.
    pub closed spec fn key(self) -> Seq<u8> {
        self.bytes@
    }

    #[verifier::type_invariant]
    spec fn inv(self) -> bool {
        self.bytes@.len() == 96
    }

    /// Relies on `APK::from(&PublicKey)`: the aggregate of one single key.
    #[verifier::external_body]
    pub fn from_keypair(kp: &Keypair) -> (r: AggregateIdentity)
        ensures
            r.key() == apk_of(kp.pk()),
            r.key().len() == 96,
    {
        let point = dusk_bls12_381_sign::APK::from(&kp.point);
        let bytes = point.to_bytes().to_vec();
        AggregateIdentity { point, bytes }
    }

    /// Relies on `PublicKey::from_bytes` (accepts exactly the well-formed key
    /// encodings) and `APK::aggregate`: folds one more key into the
    /// aggregate; on a malformed key the aggregate is left untouched.
    #[verifier::external_body]
    pub fn fold_key(&mut self, pk: &Vec<u8>) -> (r: bool)
        requires
            pk@.len() == 96,
        ensures
            r == valid_pk(pk@),
            r ==> final(self).key() == apk_fold(old(self).key(), pk@),
            !r ==> final(self).key() == old(self).key(),
            final(self).key().len() == 96,
    {
        let mut arr = [0u8; 96];
        arr.copy_from_slice(pk.as_slice());
        match dusk_bls12_381_sign::PublicKey::from_bytes(&arr) {
            Ok(point) => {
                self.point.aggregate(&[point]);
                self.bytes = self.point.to_bytes().to_vec();
                true
            }
            Err(_) => false,
        }
    }

    /// The aggregate key's wire bytes.
    pub fn key_bytes(&self) -> (r: &Vec<u8>)
        ensures
            r@ == self.key(),
            r@.len() == 96,
    {
        proof {
            use_type_invariant(self);
        }
        &self.bytes
    }
}

/// Relies on `Signature::from_bytes` (accepts exactly the well-formed
/// signature encodings) and `Signature::aggregate`: the aggregate of two
/// signatures, which serializes to 48 bytes that parse again.
#[verifier::external_body]
pub fn sig_aggregate(a: &Vec<u8>, b: &Vec<u8>) -> (r: Option<Vec<u8>>)
    requires
        a@.len() == 48,
        b@.len() == 48,
    ensures
        valid_sig(a@) && valid_sig(b@) ==> r is Some,
        !(valid_sig(a@) && valid_sig(b@)) ==> r is None,
        r matches Some(s) ==> s@ == sig_fold(a@, b@) && s@.len() == 48 && valid_sig(s@),
{
    let mut aa = [0u8; 48];
    aa.copy_from_slice(a.as_slice());
    let mut bb = [0u8; 48];
    bb.copy_from_slice(b.as_slice());
    let sa = match dusk_bls12_381_sign::Signature::from_bytes(&aa) {
        Ok(s) => s,
        Err(_) => return None,
    };
    let sb = match dusk_bls12_381_sign::Signature::from_bytes(&bb) {
        Ok(s) => s,
        Err(_) => return None,
    };
    Some(sa.aggregate(&[sb]).to_bytes().to_vec())
}

/// Relies on `APK::from_bytes`, `Signature::from_bytes` and `APK::verify`.
/// The last clause is the aggregation property of the scheme, shown by the
/// crate's own aggregated-verification test: folding the signatures of a
/// non-empty set of keypairs over one message, in the order their keys were
/// folded into the aggregate key, yields a signature that verifies under
/// that aggregate key.
#[verifier::external_body]
pub fn verify_aggregate(apk: &Vec<u8>, sig: &Vec<u8>, msg: &Vec<u8>) -> (r: bool)
    requires
        apk@.len() == 96,
        sig@.len() == 48,
    ensures
        r == bls_verify(apk@, sig@, msg@),
        aggregate_of(apk@, sig@, msg@) ==> r,
{
    let mut ka = [0u8; 96];
    ka.copy_from_slice(apk.as_slice());
    let mut sa = [0u8; 48];
    sa.copy_from_slice(sig.as_slice());
    let k = match dusk_bls12_381_sign::APK::from_bytes(&ka) {
        Ok(k) => k,
        Err(_) => return false,
    };
    let s = match dusk_bls12_381_sign::Signature::from_bytes(&sa) {
        Ok(s) => s,
        Err(_) => return false,
    };
    k.verify(&s, msg.as_slice()).is_ok()
}

/// Law: aggregating the public keys of any set of keypairs (a leader plus
/// members), then aggregating the corresponding signatures over one fixed
/// message signed by exactly those keypairs, verifies successfully against
/// that aggregate key.
pub fn subset_certificate_verifies(leader: &Keypair, members: &Vec<Keypair>, msg: &Vec<u8>) -> (ok: bool)
    ensures
        ok,
        bls_verify(
            fold_keys(apk_of(leader.pk()), members@.map_values(|k: Keypair| k.pk())),
            fold_sigs(
                sign_of(leader.pk(), msg@),
                sigs_over(members@.map_values(|k: Keypair| k.pk()), msg@),
            ),
            msg@,
        ),
{
    let mut identity = AggregateIdentity::from_keypair(leader);
    let mut sig = leader.sign(msg);
    let ghost mut pks: Seq<Seq<u8>> = Seq::empty();
    proof {
        assert(sigs_over(pks, msg@) =~= Seq::<Seq<u8>>::empty());
    }
    let mut i: usize = 0;
    while i < members.len()
        invariant
            i <= members@.len(),
            pks.len() == i,
            forall|j: int| 0 <= j < i ==> #[trigger] pks[j] == members@[j].pk(),
            identity.key() == fold_keys(apk_of(leader.pk()), pks),
            sig@ == fold_sigs(sign_of(leader.pk(), msg@), sigs_over(pks, msg@)),
            sig@.len() == 48,
            valid_sig(sig@),
        decreases members@.len() - i,
    {
        let member = &members[i];
        proof {
            use_type_invariant(member);
            lemma_fold_keys_push(apk_of(leader.pk()), pks, member.pk());
            lemma_fold_sigs_push(
                sign_of(leader.pk(), msg@),
                sigs_over(pks, msg@),
                sign_of(member.pk(), msg@),
            );
            assert(sigs_over(pks.push(member.pk()), msg@)
                =~= sigs_over(pks, msg@).push(sign_of(member.pk(), msg@)));
        }
        let folded = identity.fold_key(member.public_key());
        assert(folded);
        let member_sig = member.sign(msg);
        sig = match sig_aggregate(&sig, &member_sig) {
            Some(s) => s,
            None => {
                proof {
                    assert(false);
                }
                return false;
            }
        };
        proof {
            pks = pks.push(member.pk());
        }
        i = i + 1;
    }
    proof {
        let w = seq![leader.pk()] + pks;
        assert(w[0] == leader.pk());
        assert(w.skip(1) =~= pks);
        assert(identity.key() == fold_keys(apk_of(w[0]), w.skip(1)));
        assert(sig@ == fold_sigs(sign_of(w[0], msg@), sigs_over(w.skip(1), msg@)));
        assert(aggregate_of(identity.key(), sig@, msg@));
        assert(pks =~= members@.map_values(|k: Keypair| k.pk()));
    }
    let ok = verify_aggregate(identity.key_bytes(), &sig, msg);
    ok
}

} // verus!

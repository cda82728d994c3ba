//! The primitives that the boxes are built on, and what this library takes
//! for granted about them. Nothing in this file is proved: each function
//! calls out of the library and states what the called code is known to do.

use dryoc::classic::crypto_box::{crypto_box_seal, crypto_box_seal_open};
use sodiumoxide::crypto::{box_, secretbox};
use vstd::prelude::*;

verus! {

/// The ciphertext and the tag, in this order, that
/// `secretbox::seal_detached` produces for a message, a nonce and a key.
pub uninterp spec fn secretbox_sealed(m: Seq<u8>, n: Seq<u8>, k: Seq<u8>) -> (Seq<u8>, Seq<u8>);

/// What `secretbox::open_detached` releases for a ciphertext, a tag, a nonce
/// and a key: the plaintext, or nothing where the tag does not verify.
pub uninterp spec fn secretbox_opened(c: Seq<u8>, tag: Seq<u8>, n: Seq<u8>, k: Seq<u8>) -> Option<
    Seq<u8>,
>;

/// The public key that belongs to a secret key: the one that
/// `box_::gen_keypair` and `box_::keypair_from_seed` hand out beside it.
pub uninterp spec fn box_public_key(sk: Seq<u8>) -> Seq<u8>;

/// The secret key that `box_::keypair_from_seed` derives from a seed.
pub uninterp spec fn box_seed_secret_key(seed: Seq<u8>) -> Seq<u8>;

/// The symmetric key that `box_::precompute` derives from a peer's public key
/// and one's own secret key, or nothing where the key agreement rejects the
/// public key (a point of low order, such as 32 zero bytes).
pub uninterp spec fn box_agreement(pk: Seq<u8>, sk: Seq<u8>) -> Option<Seq<u8>>;

/// What `crypto_box_seal_open` releases for a sealed box and the recipient's
/// keys: the plaintext, or nothing where the box does not verify.
pub uninterp spec fn sealed_box_opened(c: Seq<u8>, pk: Seq<u8>, sk: Seq<u8>) -> Option<Seq<u8>>;

/// The bytes of an optional buffer.
pub open spec fn bytes_of(r: Option<Vec<u8>>) -> Option<Seq<u8>> {
    match r {
        Some(v) => Some(v@),
        None => None,
    }
}

/// `c` and `tag` are the encryption of `m` under `n` and `k`: they are what
/// sealing gives, and `c` opens under `n` and `k` with `tag`, to `m`, and
/// with no other tag.
pub open spec fn is_sealing(c: Seq<u8>, tag: Seq<u8>, m: Seq<u8>, n: Seq<u8>, k: Seq<u8>) -> bool {
    &&& (c, tag) == secretbox_sealed(m, n, k)
    &&& c.len() == m.len()
    &&& tag.len() == 16
    &&& forall|t: Seq<u8>|
        t.len() == 16 ==> #[trigger] secretbox_opened(c, t, n, k) == (if t == tag {
            Some(m)
        } else {
            None
        })
}

/// `c` and `tag` are the public-key encryption of `m` under `n`, from the
/// holder of `sk` to the holder of `pk`. Where the two keys agree on a
/// symmetric key, the box is the secret box under that key, and whoever holds
/// the secret key to `pk` agrees on the same key with the sender's public key.
pub open spec fn is_box_sealing(
    c: Seq<u8>,
    tag: Seq<u8>,
    m: Seq<u8>,
    n: Seq<u8>,
    pk: Seq<u8>,
    sk: Seq<u8>,
) -> bool {
    box_agreement(pk, sk) matches Some(k) ==> {
        &&& is_sealing(c, tag, m, n, k)
        &&& forall|rsk: Seq<u8>|
            rsk.len() == 32 && pk == box_public_key(rsk) ==> #[trigger] box_agreement(
                box_public_key(sk),
                rsk,
            ) == Some(k)
    }
}

/// What opening a combined secret box releases: the first 16 bytes are the
/// tag, the rest is the ciphertext.
pub open spec fn secretbox_opened_combined(c: Seq<u8>, n: Seq<u8>, k: Seq<u8>) -> Option<Seq<u8>> {
    if c.len() < 16 {
        None
    } else {
        secretbox_opened(c.skip(16), c.take(16), n, k)
    }
}

/// What opening a detached public-key box releases: the secret box under the
/// agreed key, and nothing where the keys do not agree.
pub open spec fn box_opened(c: Seq<u8>, tag: Seq<u8>, n: Seq<u8>, pk: Seq<u8>, sk: Seq<u8>) -> Option<
    Seq<u8>,
> {
    match box_agreement(pk, sk) {
        Some(k) => secretbox_opened(c, tag, n, k),
        None => None,
    }
}

/// What opening a combined public-key box releases.
pub open spec fn box_opened_combined(c: Seq<u8>, n: Seq<u8>, pk: Seq<u8>, sk: Seq<u8>) -> Option<
    Seq<u8>,
> {
    if c.len() < 16 {
        None
    } else {
        box_opened(c.skip(16), c.take(16), n, pk, sk)
    }
}

/// `len` zero bytes.
pub open spec fn zeros(len: nat) -> Seq<u8> {
    Seq::new(len, |i: int| 0u8)
}

/// The precomputed key of two keys: the agreed key, and 32 zero bytes where
/// the agreement fails.
pub open spec fn box_precomputed(pk: Seq<u8>, sk: Seq<u8>) -> Seq<u8> {
    match box_agreement(pk, sk) {
        Some(k) => k,
        None => zeros(32),
    }
}

/// Calls `sodiumoxide::init`. Whether it succeeds depends on the process and
/// the machine, so nothing is claimed of the answer.
#[verifier::external_body]
pub(crate) fn sodium_init() -> (ok: bool) {
    sodiumoxide::init().is_ok()
}

/// Calls `secretbox::gen_key`: 32 random bytes.
#[verifier::external_body]
pub(crate) fn secretbox_gen_key() -> (k: Vec<u8>)
    ensures
        k@.len() == 32,
{
    secretbox::gen_key().as_ref().to_vec()
}

/// Calls `secretbox::gen_nonce`: 24 random bytes.
#[verifier::external_body]
pub(crate) fn secretbox_gen_nonce() -> (n: Vec<u8>)
    ensures
        n@.len() == 24,
{
    secretbox::gen_nonce().as_ref().to_vec()
}

/// Calls `secretbox::seal_detached` on a copy of the message. Claimed: the
/// ciphertext has the message's length, the tag has 16 bytes, and the pair
/// opens under the same nonce and key to the message, with this tag only.
#[verifier::external_body]
pub(crate) fn secretbox_seal_detached(m: &[u8], n: &[u8], k: &[u8]) -> (r: (Vec<u8>, Vec<u8>))
    requires
        n@.len() == 24,
        k@.len() == 32,
    ensures
        (r.0@, r.1@) == secretbox_sealed(m@, n@, k@),
        is_sealing(r.0@, r.1@, m@, n@, k@),
{
    let mut c = m.to_vec();
    let nonce = secretbox::Nonce::from_slice(n).unwrap();
    let key = secretbox::Key::from_slice(k).unwrap();
    let tag = secretbox::seal_detached(&mut c, &nonce, &key);
    (c, tag.as_ref().to_vec())
}

/// Calls `secretbox::seal`. Claimed: the result is the 16-byte tag followed
/// by the ciphertext of the detached form.
#[verifier::external_body]
pub(crate) fn secretbox_seal(m: &[u8], n: &[u8], k: &[u8]) -> (c: Vec<u8>)
    requires
        n@.len() == 24,
        k@.len() == 32,
    ensures
        c@.len() == m@.len() + 16,
        is_sealing(c@.skip(16), c@.take(16), m@, n@, k@),
{
    let nonce = secretbox::Nonce::from_slice(n).unwrap();
    let key = secretbox::Key::from_slice(k).unwrap();
    secretbox::seal(m, &nonce, &key)
}

/// Calls `secretbox::open`. Claimed: it refuses fewer than 16 bytes, and
/// else opens the rest under the leading 16 bytes as the tag; a plaintext
/// is 16 bytes shorter than the box.
#[verifier::external_body]
pub(crate) fn secretbox_open(c: &[u8], n: &[u8], k: &[u8]) -> (r: Option<Vec<u8>>)
    requires
        n@.len() == 24,
        k@.len() == 32,
    ensures
        bytes_of(r) == secretbox_opened_combined(c@, n@, k@),
        r matches Some(m) ==> m@.len() + 16 == c@.len(),
{
    let nonce = secretbox::Nonce::from_slice(n).unwrap();
    let key = secretbox::Key::from_slice(k).unwrap();
    secretbox::open(c, &nonce, &key).ok()
}

/// Calls `secretbox::open_detached` on a copy of the ciphertext, and hands
/// the copy out only where the tag verified. A plaintext has the
/// ciphertext's length.
#[verifier::external_body]
pub(crate) fn secretbox_open_detached(c: &[u8], tag: &[u8], n: &[u8], k: &[u8]) -> (r: Option<
    Vec<u8>,
>)
    requires
        tag@.len() == 16,
        n@.len() == 24,
        k@.len() == 32,
    ensures
        bytes_of(r) == secretbox_opened(c@, tag@, n@, k@),
        r matches Some(m) ==> m@.len() == c@.len(),
{
    let mut m = c.to_vec();
    let tag = secretbox::Tag::from_slice(tag).unwrap();
    let nonce = secretbox::Nonce::from_slice(n).unwrap();
    let key = secretbox::Key::from_slice(k).unwrap();
    match secretbox::open_detached(&mut m, &tag, &nonce, &key) {
        Ok(()) => Some(m),
        Err(()) => None,
    }
}

/// Calls `box_::gen_keypair`: a random secret key and the public key that
/// belongs to it, 32 bytes each. Returns the public key first.
#[verifier::external_body]
pub(crate) fn box_gen_keypair() -> (r: (Vec<u8>, Vec<u8>))
    ensures
        r.0@.len() == 32,
        r.1@.len() == 32,
        r.0@ == box_public_key(r.1@),
{
    let (pk, sk) = box_::gen_keypair();
    (pk.as_ref().to_vec(), sk.as_ref().to_vec())
}

/// Calls `box_::keypair_from_seed`: the secret key is a function of the
/// seed, and the public key is the one that belongs to it. Returns the
/// public key first.
#[verifier::external_body]
pub(crate) fn box_keypair_from_seed(seed: &[u8]) -> (r: (Vec<u8>, Vec<u8>))
    requires
        seed@.len() == 32,
    ensures
        r.0@.len() == 32,
        r.1@.len() == 32,
        r.1@ == box_seed_secret_key(seed@),
        r.0@ == box_public_key(r.1@),
{
    let seed = box_::Seed::from_slice(seed).unwrap();
    let (pk, sk) = box_::keypair_from_seed(&seed);
    (pk.as_ref().to_vec(), sk.as_ref().to_vec())
}

/// Calls `box_::gen_nonce`: 24 random bytes.
#[verifier::external_body]
pub(crate) fn box_gen_nonce() -> (n: Vec<u8>)
    ensures
        n@.len() == 24,
{
    box_::gen_nonce().as_ref().to_vec()
}

/// Calls `box_::precompute`. Claimed: 32 bytes, which are the agreed key; the
/// called code leaves its zeroed buffer untouched where the agreement fails.
/// Whoever holds the secret key to `pk` derives the same bytes from the
/// public key that belongs to `sk`.
#[verifier::external_body]
pub(crate) fn box_precompute(pk: &[u8], sk: &[u8]) -> (k: Vec<u8>)
    requires
        pk@.len() == 32,
        sk@.len() == 32,
    ensures
        k@.len() == 32,
        box_agreement(pk@, sk@) matches Some(agreed) ==> k@ == agreed,
        k@ == box_precomputed(pk@, sk@),
        forall|rsk: Seq<u8>|
            rsk.len() == 32 && pk@ == box_public_key(rsk) ==> #[trigger] box_precomputed(
                box_public_key(sk@),
                rsk,
            ) == k@,
{
    let pk = box_::PublicKey::from_slice(pk).unwrap();
    let sk = box_::SecretKey::from_slice(sk).unwrap();
    box_::precompute(&pk, &sk).as_ref().to_vec()
}

/// Calls `box_::seal_detached` on a copy of the message. Claimed: the sizes,
/// and, where the keys agree, that the pair is the secret box under the
/// agreed key, which the recipient agrees on too. Where they do not agree
/// the called code gives up without a report and before it writes: the copy
/// still holds the message, and the tag the zero bytes it was created with.
#[verifier::external_body]
pub(crate) fn box_seal_detached(m: &[u8], n: &[u8], pk: &[u8], sk: &[u8]) -> (r: (
    Vec<u8>,
    Vec<u8>,
))
    requires
        n@.len() == 24,
        pk@.len() == 32,
        sk@.len() == 32,
    ensures
        r.0@.len() == m@.len(),
        r.1@.len() == 16,
        is_box_sealing(r.0@, r.1@, m@, n@, pk@, sk@),
        box_agreement(pk@, sk@) is None ==> r.0@ == m@ && r.1@ == zeros(16),
{
    let mut c = m.to_vec();
    let nonce = box_::Nonce::from_slice(n).unwrap();
    let pk = box_::PublicKey::from_slice(pk).unwrap();
    let sk = box_::SecretKey::from_slice(sk).unwrap();
    let tag = box_::seal_detached(&mut c, &nonce, &pk, &sk);
    (c, tag.as_ref().to_vec())
}

/// Calls `box_::seal`. Claimed: the size, and, where the keys agree, that
/// the result is the 16-byte tag followed by the ciphertext of the detached
/// form. Where they do not agree, only the size.
#[verifier::external_body]
pub(crate) fn box_seal(m: &[u8], n: &[u8], pk: &[u8], sk: &[u8]) -> (c: Vec<u8>)
    requires
        n@.len() == 24,
        pk@.len() == 32,
        sk@.len() == 32,
    ensures
        c@.len() == m@.len() + 16,
        is_box_sealing(c@.skip(16), c@.take(16), m@, n@, pk@, sk@),
{
    let nonce = box_::Nonce::from_slice(n).unwrap();
    let pk = box_::PublicKey::from_slice(pk).unwrap();
    let sk = box_::SecretKey::from_slice(sk).unwrap();
    box_::seal(m, &nonce, &pk, &sk)
}

/// Calls `box_::open`. Claimed: it refuses fewer than 16 bytes and keys that
/// do not agree, and else opens the secret box under the agreed key.
#[verifier::external_body]
pub(crate) fn box_open(c: &[u8], n: &[u8], pk: &[u8], sk: &[u8]) -> (r: Option<Vec<u8>>)
    requires
        n@.len() == 24,
        pk@.len() == 32,
        sk@.len() == 32,
    ensures
        bytes_of(r) == box_opened_combined(c@, n@, pk@, sk@),
        r matches Some(m) ==> m@.len() + 16 == c@.len(),
{
    let nonce = box_::Nonce::from_slice(n).unwrap();
    let pk = box_::PublicKey::from_slice(pk).unwrap();
    let sk = box_::SecretKey::from_slice(sk).unwrap();
    box_::open(c, &nonce, &pk, &sk).ok()
}

/// Calls `box_::open_detached` on a copy of the ciphertext, and hands the
/// copy out only where the tag verified. Claimed: it refuses keys that do
/// not agree, and else opens the secret box under the agreed key.
#[verifier::external_body]
pub(crate) fn box_open_detached(c: &[u8], tag: &[u8], n: &[u8], pk: &[u8], sk: &[u8]) -> (r:
    Option<Vec<u8>>)
    requires
        tag@.len() == 16,
        n@.len() == 24,
        pk@.len() == 32,
        sk@.len() == 32,
    ensures
        bytes_of(r) == box_opened(c@, tag@, n@, pk@, sk@),
        r matches Some(m) ==> m@.len() == c@.len(),
{
    let mut m = c.to_vec();
    let tag = box_::Tag::from_slice(tag).unwrap();
    let nonce = box_::Nonce::from_slice(n).unwrap();
    let pk = box_::PublicKey::from_slice(pk).unwrap();
    let sk = box_::SecretKey::from_slice(sk).unwrap();
    match box_::open_detached(&mut m, &tag, &nonce, &pk, &sk) {
        Ok(()) => Some(m),
        Err(()) => None,
    }
}

/// Calls `box_::open_detached_precomputed` on a copy of the ciphertext, and
/// hands the copy out only where the tag verified. Claimed: it opens the
/// secret box under the given key.
#[verifier::external_body]
pub(crate) fn box_open_detached_precomputed(c: &[u8], tag: &[u8], n: &[u8], k: &[u8]) -> (r:
    Option<Vec<u8>>)
    requires
        tag@.len() == 16,
        n@.len() == 24,
        k@.len() == 32,
    ensures
        bytes_of(r) == secretbox_opened(c@, tag@, n@, k@),
        r matches Some(m) ==> m@.len() == c@.len(),
{
    let mut m = c.to_vec();
    let tag = box_::Tag::from_slice(tag).unwrap();
    let nonce = box_::Nonce::from_slice(n).unwrap();
    let key = box_::PrecomputedKey::from_slice(k).unwrap();
    match box_::open_detached_precomputed(&mut m, &tag, &nonce, &key) {
        Ok(()) => Some(m),
        Err(()) => None,
    }
}

/// Calls `crypto_box_seal`, which writes the sealed box into `c`. The box
/// holds a fresh random key, so two calls differ. Claimed of every success:
/// whoever holds the secret key to `pk` opens the box to the message. The
/// called code fails where the key agreement rejects `pk`.
#[verifier::external_body]
pub(crate) fn sealed_box_seal(c: &mut Vec<u8>, m: &[u8], pk: &[u8]) -> (ok: bool)
    requires
        old(c)@.len() == m@.len() + 48,
        pk@.len() == 32,
    ensures
        final(c)@.len() == old(c)@.len(),
        ok ==> forall|rsk: Seq<u8>|
            rsk.len() == 32 && pk@ == box_public_key(rsk) ==> #[trigger] sealed_box_opened(
                final(c)@,
                pk@,
                rsk,
            ) == Some(m@),
{
    let pk: [u8; 32] = pk.try_into().unwrap();
    crypto_box_seal(c, m, &pk).is_ok()
}

/// Calls `crypto_box_seal_open`, which writes the plaintext into `m` where
/// the box verifies.
#[verifier::external_body]
pub(crate) fn sealed_box_open(m: &mut Vec<u8>, c: &[u8], pk: &[u8], sk: &[u8]) -> (ok: bool)
    requires
        c@.len() >= 48,
        old(m)@.len() == c@.len() - 48,
        pk@.len() == 32,
        sk@.len() == 32,
    ensures
        final(m)@.len() == old(m)@.len(),
        ok ==> sealed_box_opened(c@, pk@, sk@) == Some(final(m)@),
        !ok ==> sealed_box_opened(c@, pk@, sk@) is None,
{
    let pk: [u8; 32] = pk.try_into().unwrap();
    let sk: [u8; 32] = sk.try_into().unwrap();
    crypto_box_seal_open(m, c, &pk, &sk).is_ok()
}

} // verus!

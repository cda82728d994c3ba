//! The public-key box: authenticated encryption from the holder of one secret
//! key to the holder of another, and the sealed box for anonymous senders.

use crate::error::{outcome, released, released_spec, BoxError};
use crate::primitives::{
    box_agreement, box_gen_keypair, box_gen_nonce, box_keypair_from_seed, box_open,
    box_open_detached, box_open_detached_precomputed, box_opened, box_precompute, box_precomputed,
    box_public_key, box_seal, box_seal_detached, box_seed_secret_key, sealed_box_open,
    sealed_box_opened, sealed_box_seal, secretbox_opened, secretbox_sealed, sodium_init, zeros,
};
use vstd::prelude::*;

verus! {

/// Size of a public key.
pub const CRYPTO_BOX_PUBLICKEYBYTES: usize = 32;

/// Size of a secret key.
pub const CRYPTO_BOX_SECRETKEYBYTES: usize = 32;

/// Size of a precomputed key.
pub const CRYPTO_BOX_BEFORENMBYTES: usize = 32;

/// Size of a seed.
pub const CRYPTO_BOX_SEEDBYTES: usize = 32;

/// Size of a nonce.
pub const CRYPTO_BOX_NONCEBYTES: usize = 24;

/// Size of an authentication tag.
pub const CRYPTO_BOX_MACBYTES: usize = 16;

/// What a sealed box adds to its message: the sender's one-time public key
/// and the tag.
pub const CRYPTO_BOX_SEALBYTES: usize = 48;

/// A public key and the secret key that it belongs to.
pub struct KeyPair {
    pub public_key: Vec<u8>,
    pub secret_key: Vec<u8>,
}

/// A detached encryption: the ciphertext, as long as the message, and the
/// tag that authenticates it.
pub struct CryptoBox {
    pub ciphertext: Vec<u8>,
    pub mac: Vec<u8>,
}

/// The public-key box. `new` hands one out once the primitives are set up.
pub struct SodiumBox {
    ready: (),
}

/// The parts of a detached result.
pub open spec fn parts(r: Result<CryptoBox, BoxError>) -> Result<(Seq<u8>, Seq<u8>), BoxError> {
    match r {
        Ok(b) => Ok((b.ciphertext@, b.mac@)),
        Err(e) => Err(e),
    }
}

impl SodiumBox {
    /// Both keys have their fixed size.
    pub open spec fn keys_ok(pk: Seq<u8>, sk: Seq<u8>) -> bool {
        pk.len() == 32 && sk.len() == 32
    }

    /// `spk` and `rsk` are the other side's keys to a box that the holder of
    /// `sk` made for `pk`: the sender's public key and the recipient's secret
    /// key.
    pub open spec fn is_peer(spk: Seq<u8>, rsk: Seq<u8>, pk: Seq<u8>, sk: Seq<u8>) -> bool {
        &&& Self::keys_ok(spk, rsk)
        &&& spk == box_public_key(sk)
        &&& pk == box_public_key(rsk)
    }

    /// The precomputed key of a peer's public key and one's own secret key.
    pub open spec fn beforenm_spec(pk: Seq<u8>, sk: Seq<u8>) -> Result<Seq<u8>, BoxError> {
        if !Self::keys_ok(pk, sk) {
            Err(BoxError::InvalidLength)
        } else {
            Ok(box_precomputed(pk, sk))
        }
    }

    /// Detached encryption: the secret box under the agreed key. Where the
    /// key agreement rejects the public key, nothing is encrypted and no
    /// failure is reported: the message comes back as it is, with a tag of
    /// zero bytes.
    pub open spec fn detached_spec(m: Seq<u8>, n: Seq<u8>, pk: Seq<u8>, sk: Seq<u8>) -> Result<
        (Seq<u8>, Seq<u8>),
        BoxError,
    > {
        if n.len() != 24 || !Self::keys_ok(pk, sk) {
            Err(BoxError::InvalidLength)
        } else {
            match box_agreement(pk, sk) {
                Some(k) => Ok(secretbox_sealed(m, n, k)),
                None => Ok((m, zeros(16))),
            }
        }
    }

    /// Detached decryption under a precomputed key: sizes first, then the
    /// tag, then the plaintext.
    pub open spec fn open_detached_afternm_spec(
        c: Seq<u8>,
        mac: Seq<u8>,
        n: Seq<u8>,
        k: Seq<u8>,
    ) -> Result<Seq<u8>, BoxError> {
        if mac.len() != 16 || n.len() != 24 || k.len() != 32 {
            Err(BoxError::InvalidLength)
        } else {
            released_spec(secretbox_opened(c, mac, n, k))
        }
    }

    /// Detached decryption with the sender's public key and one's own secret
    /// key: sizes first, then the tag, then the plaintext.
    pub open spec fn open_detached_spec(
        c: Seq<u8>,
        mac: Seq<u8>,
        n: Seq<u8>,
        pk: Seq<u8>,
        sk: Seq<u8>,
    ) -> Result<Seq<u8>, BoxError> {
        if mac.len() != 16 || n.len() != 24 || !Self::keys_ok(pk, sk) {
            Err(BoxError::InvalidLength)
        } else {
            released_spec(box_opened(c, mac, n, pk, sk))
        }
    }

    /// Combined decryption: a box too short to hold a tag has no valid size;
    /// else the leading 16 bytes are the tag of the rest.
    pub open spec fn open_easy_spec(c: Seq<u8>, n: Seq<u8>, pk: Seq<u8>, sk: Seq<u8>) -> Result<
        Seq<u8>,
        BoxError,
    > {
        if c.len() < 16 {
            Err(BoxError::InvalidLength)
        } else {
            Self::open_detached_spec(c.skip(16), c.take(16), n, pk, sk)
        }
    }

    /// Opening a sealed box: it must hold at least a public key and a tag.
    pub open spec fn seal_open_spec(c: Seq<u8>, pk: Seq<u8>, sk: Seq<u8>) -> Result<
        Seq<u8>,
        BoxError,
    > {
        if c.len() < 48 || !Self::keys_ok(pk, sk) {
            Err(BoxError::InvalidLength)
        } else {
            released_spec(sealed_box_opened(c, pk, sk))
        }
    }

    /// The answer to a setup attempt, of which `ok` says whether it
    /// succeeded: a box where it did, `InitializationFailed` where it did not.
    pub fn from_init(ok: bool) -> (r: Result<SodiumBox, BoxError>)
        ensures
            ok <==> r is Ok,
            !ok ==> r == Err::<SodiumBox, BoxError>(BoxError::InitializationFailed),
    {
        if ok {
            Ok(SodiumBox { ready: () })
        } else {
            Err(BoxError::InitializationFailed)
        }
    }

    /// Sets the primitives up, which is safe to do repeatedly, and hands out
    /// the box. The only failure is `InitializationFailed`.
    pub fn new() -> (r: Result<SodiumBox, BoxError>)
        ensures
            r matches Err(e) ==> e == BoxError::InitializationFailed,
    {
        let ok = sodium_init();
        Self::from_init(ok)
    }

    /// Derives the symmetric key that the holder of `sk` shares with the
    /// holder of the secret key to `pk`. This is the one-sided combination:
    /// each party calls it with its own secret key and the other's public
    /// key, and both arrive at the same key.
    pub fn crypto_box_beforenm(&self, pk: &[u8], sk: &[u8]) -> (r: Result<Vec<u8>, BoxError>)
        ensures
            outcome(r) == Self::beforenm_spec(pk@, sk@),
            r matches Ok(k) ==> {
                &&& k@.len() == 32
                &&& forall|spk: Seq<u8>, rsk: Seq<u8>|
                    Self::is_peer(spk, rsk, pk@, sk@) ==> #[trigger] Self::beforenm_spec(spk, rsk)
                        == Ok::<Seq<u8>, BoxError>(k@)
            },
    {
        if pk.len() != CRYPTO_BOX_PUBLICKEYBYTES || sk.len() != CRYPTO_BOX_SECRETKEYBYTES {
            return Err(BoxError::InvalidLength);
        }
        Ok(box_precompute(pk, sk))
    }

    /// Encrypts `m` under nonce `n` from the holder of `sk` to the holder of
    /// the secret key to `pk`, and returns the ciphertext and the tag apart.
    /// It fails on a wrong size and on nothing else. Where the keys agree,
    /// the pair is the secret box under the agreed key, the recipient opens
    /// it to `m`, and with any other tag the recipient's attempt fails.
    ///
    /// Beware of a public key that the key agreement rejects, such as 32
    /// zero bytes: the primitive then encrypts nothing and reports nothing,
    /// and the "ciphertext" that comes back is the message itself.
    pub fn crypto_box_detached(&self, m: &[u8], n: &[u8], pk: &[u8], sk: &[u8]) -> (r: Result<
        CryptoBox,
        BoxError,
    >)
        ensures
            parts(r) == Self::detached_spec(m@, n@, pk@, sk@),
            r matches Ok(b) ==> {
                &&& b.ciphertext@.len() == m@.len()
                &&& b.mac@.len() == 16
                &&& box_agreement(pk@, sk@) is Some ==> {
                    &&& forall|spk: Seq<u8>, rsk: Seq<u8>|
                        Self::is_peer(spk, rsk, pk@, sk@) ==> #[trigger] Self::open_detached_spec(
                            b.ciphertext@,
                            b.mac@,
                            n@,
                            spk,
                            rsk,
                        ) == Ok::<Seq<u8>, BoxError>(m@)
                    &&& forall|spk: Seq<u8>, rsk: Seq<u8>, mac2: Seq<u8>|
                        Self::is_peer(spk, rsk, pk@, sk@) && mac2.len() == 16 && mac2 != b.mac@
                            ==> #[trigger] Self::open_detached_spec(
                            b.ciphertext@,
                            mac2,
                            n@,
                            spk,
                            rsk,
                        ) == Err::<Seq<u8>, BoxError>(BoxError::AuthenticationFailed)
                }
            },
    {
        if n.len() != CRYPTO_BOX_NONCEBYTES || pk.len() != CRYPTO_BOX_PUBLICKEYBYTES || sk.len()
            != CRYPTO_BOX_SECRETKEYBYTES {
            return Err(BoxError::InvalidLength);
        }
        let (ciphertext, mac) = box_seal_detached(m, n, pk, sk);
        Ok(CryptoBox { ciphertext, mac })
    }

    /// Encrypts `m` under nonce `n` from the holder of `sk` to the holder of
    /// the secret key to `pk`, into one buffer: the tag, then the ciphertext.
    /// It fails on a wrong size and on nothing else. Where the keys agree,
    /// the recipient opens the box to `m`, and a box with the same ciphertext
    /// and another tag fails to open.
    ///
    /// Beware of a public key that the key agreement rejects, such as 32
    /// zero bytes: the primitive then encrypts nothing and reports nothing,
    /// and the bytes that come back mean nothing.
    pub fn crypto_box_easy(&self, m: &[u8], n: &[u8], pk: &[u8], sk: &[u8]) -> (r: Result<
        Vec<u8>,
        BoxError,
    >)
        ensures
            r is Err <==> n@.len() != 24 || !Self::keys_ok(pk@, sk@),
            r matches Err(e) ==> e == BoxError::InvalidLength,
            r matches Ok(c) ==> {
                &&& c@.len() == m@.len() + 16
                &&& box_agreement(pk@, sk@) matches Some(k) ==> {
                    &&& c@ == secretbox_sealed(m@, n@, k).1 + secretbox_sealed(m@, n@, k).0
                    &&& forall|spk: Seq<u8>, rsk: Seq<u8>|
                        Self::is_peer(spk, rsk, pk@, sk@) ==> #[trigger] Self::open_easy_spec(
                            c@,
                            n@,
                            spk,
                            rsk,
                        ) == Ok::<Seq<u8>, BoxError>(m@)
                    &&& forall|spk: Seq<u8>, rsk: Seq<u8>, c2: Seq<u8>|
                        Self::is_peer(spk, rsk, pk@, sk@) && c2.len() == c@.len() && c2.skip(16)
                            == c@.skip(16) && c2 != c@ ==> #[trigger] Self::open_easy_spec(
                            c2,
                            n@,
                            spk,
                            rsk,
                        ) == Err::<Seq<u8>, BoxError>(BoxError::AuthenticationFailed)
                }
            },
    {
        if n.len() != CRYPTO_BOX_NONCEBYTES || pk.len() != CRYPTO_BOX_PUBLICKEYBYTES || sk.len()
            != CRYPTO_BOX_SECRETKEYBYTES {
            return Err(BoxError::InvalidLength);
        }
        let c = box_seal(m, n, pk, sk);
        proof {
            assert(c@ =~= c@.take(16) + c@.skip(16));
            if box_agreement(pk@, sk@) is Some {
                assert forall|spk: Seq<u8>, rsk: Seq<u8>, c2: Seq<u8>|
                    Self::is_peer(spk, rsk, pk@, sk@) && c2.len() == c@.len() && c2.skip(16)
                        == c@.skip(16) && c2 != c@ implies #[trigger] Self::open_easy_spec(
                    c2,
                    n@,
                    spk,
                    rsk,
                ) == Err::<Seq<u8>, BoxError>(BoxError::AuthenticationFailed) by {
                    if c2.take(16) == c@.take(16) {
                        assert(c2 =~= c2.take(16) + c2.skip(16));
                    }
                }
            }
        }
        Ok(c)
    }

    /// A fresh random secret key and the public key that belongs to it.
    pub fn crypto_box_keypair(&self) -> (kp: KeyPair)
        ensures
            kp.public_key@.len() == 32,
            kp.secret_key@.len() == 32,
            kp.public_key@ == box_public_key(kp.secret_key@),
    {
        let (public_key, secret_key) = box_gen_keypair();
        KeyPair { public_key, secret_key }
    }

    /// A fresh random nonce of 24 bytes.
    pub fn crypto_box_nonce(&self) -> (n: Vec<u8>)
        ensures
            n@.len() == 24,
    {
        box_gen_nonce()
    }

    /// Checks the tag `mac` of the ciphertext `c` under nonce `n`, the
    /// sender's public key `pk` and one's own secret key `sk`, and only then
    /// releases the plaintext, which has the ciphertext's length.
    pub fn crypto_box_open_detached(
        &self,
        c: &[u8],
        mac: &[u8],
        n: &[u8],
        pk: &[u8],
        sk: &[u8],
    ) -> (r: Result<Vec<u8>, BoxError>)
        ensures
            outcome(r) == Self::open_detached_spec(c@, mac@, n@, pk@, sk@),
            r matches Ok(m) ==> m@.len() == c@.len(),
    {
        if mac.len() != CRYPTO_BOX_MACBYTES || n.len() != CRYPTO_BOX_NONCEBYTES || pk.len()
            != CRYPTO_BOX_PUBLICKEYBYTES || sk.len() != CRYPTO_BOX_SECRETKEYBYTES {
            return Err(BoxError::InvalidLength);
        }
        released(box_open_detached(c, mac, n, pk, sk))
    }

    /// As `crypto_box_open_detached`, with the key that
    /// `crypto_box_beforenm` derived in place of the two keys.
    pub fn crypto_box_open_detached_afternm(&self, c: &[u8], mac: &[u8], n: &[u8], k: &[u8]) -> (r:
        Result<Vec<u8>, BoxError>)
        ensures
            outcome(r) == Self::open_detached_afternm_spec(c@, mac@, n@, k@),
            r matches Ok(m) ==> m@.len() == c@.len(),
    {
        if mac.len() != CRYPTO_BOX_MACBYTES || n.len() != CRYPTO_BOX_NONCEBYTES || k.len()
            != CRYPTO_BOX_BEFORENMBYTES {
            return Err(BoxError::InvalidLength);
        }
        released(box_open_detached_precomputed(c, mac, n, k))
    }

    /// Checks the tag that leads the combined box `c` under nonce `n`, the
    /// sender's public key `pk` and one's own secret key `sk`, and only then
    /// releases the plaintext, which is 16 bytes shorter.
    pub fn crypto_box_open_easy(&self, c: &[u8], n: &[u8], pk: &[u8], sk: &[u8]) -> (r: Result<
        Vec<u8>,
        BoxError,
    >)
        ensures
            outcome(r) == Self::open_easy_spec(c@, n@, pk@, sk@),
            r matches Ok(m) ==> m@.len() + 16 == c@.len(),
    {
        if c.len() < CRYPTO_BOX_MACBYTES || n.len() != CRYPTO_BOX_NONCEBYTES || pk.len()
            != CRYPTO_BOX_PUBLICKEYBYTES || sk.len() != CRYPTO_BOX_SECRETKEYBYTES {
            return Err(BoxError::InvalidLength);
        }
        released(box_open(c, n, pk, sk))
    }

    /// The answer to a sealing attempt: the filled buffer where the
    /// primitive accepted the recipient's key.
    pub fn sealed_from(ok: bool, c: Vec<u8>) -> (r: Result<Vec<u8>, BoxError>)
        ensures
            ok ==> r == Ok::<Vec<u8>, BoxError>(c),
            !ok ==> r == Err::<Vec<u8>, BoxError>(BoxError::InvalidLength),
    {
        if ok {
            Ok(c)
        } else {
            Err(BoxError::InvalidLength)
        }
    }

    /// Encrypts `m` to the holder of the secret key to `pk`, from nobody: the
    /// box leads with a one-time public key, and the nonce is derived from
    /// the two public keys. A key of the wrong size is refused; a key that
    /// the key agreement rejects is reported in the same way. Every box that
    /// comes back is 48 bytes longer than `m`, and its recipient opens it to
    /// `m`.
    pub fn crypto_box_seal(&self, m: &[u8], pk: &[u8]) -> (r: Result<Vec<u8>, BoxError>)
        ensures
            pk@.len() != 32 ==> r is Err,
            r matches Err(e) ==> e == BoxError::InvalidLength,
            r matches Ok(c) ==> {
                &&& c@.len() == m@.len() + 48
                &&& forall|rsk: Seq<u8>|
                    rsk.len() == 32 && pk@ == box_public_key(rsk) ==> #[trigger] Self::seal_open_spec(
                        c@,
                        pk@,
                        rsk,
                    ) == Ok::<Seq<u8>, BoxError>(m@)
            },
    {
        if pk.len() != CRYPTO_BOX_PUBLICKEYBYTES || m.len() > usize::MAX - CRYPTO_BOX_SEALBYTES {
            return Err(BoxError::InvalidLength);
        }
        let clen: usize = m.len() + CRYPTO_BOX_SEALBYTES;
        let mut c = vec![0u8; clen];
        let ok = sealed_box_seal(&mut c, m, pk);
        Self::sealed_from(ok, c)
    }

    /// Opens a sealed box with the recipient's two keys: takes the leading
    /// 32 bytes for the sender's one-time public key, checks the tag, and
    /// only then releases the plaintext, which is 48 bytes shorter.
    pub fn crypto_box_seal_open(&self, c: &[u8], pk: &[u8], sk: &[u8]) -> (r: Result<
        Vec<u8>,
        BoxError,
    >)
        ensures
            outcome(r) == Self::seal_open_spec(c@, pk@, sk@),
            r matches Ok(m) ==> m@.len() + 48 == c@.len(),
    {
        if c.len() < CRYPTO_BOX_SEALBYTES || pk.len() != CRYPTO_BOX_PUBLICKEYBYTES || sk.len()
            != CRYPTO_BOX_SECRETKEYBYTES {
            return Err(BoxError::InvalidLength);
        }
        let mlen: usize = c.len() - CRYPTO_BOX_SEALBYTES;
        let mut m = vec![0u8; mlen];
        let ok = sealed_box_open(&mut m, c, pk, sk);
        released(
            if ok {
                Some(m)
            } else {
                None
            },
        )
    }

    /// The key pair of a seed: the same seed gives the same pair.
    pub fn crypto_box_seed_keypair(&self, seed: &[u8]) -> (r: Result<KeyPair, BoxError>)
        ensures
            r is Err <==> seed@.len() != 32,
            r matches Err(e) ==> e == BoxError::InvalidLength,
            r matches Ok(kp) ==> {
                &&& kp.public_key@.len() == 32
                &&& kp.secret_key@.len() == 32
                &&& kp.secret_key@ == box_seed_secret_key(seed@)
                &&& kp.public_key@ == box_public_key(kp.secret_key@)
            },
    {
        if seed.len() != CRYPTO_BOX_SEEDBYTES {
            return Err(BoxError::InvalidLength);
        }
        let (public_key, secret_key) = box_keypair_from_seed(seed);
        Ok(KeyPair { public_key, secret_key })
    }

    /// Size of a precomputed key, in bytes.
    pub fn crypto_box_beforenmbytes(&self) -> (r: u32)
        ensures
            r == 32,
    {
        32
    }

    /// Size of a tag, in bytes.
    pub fn crypto_box_macbytes(&self) -> (r: u32)
        ensures
            r == 16,
    {
        16
    }

    /// The primitive's bound on a message's size, as far as 32 bits hold it.
    pub fn crypto_box_messagebytes_max(&self) -> (r: u32)
        ensures
            r == 0xffff_ffef,
    {
        0xffff_ffef
    }

    /// Size of a nonce, in bytes.
    pub fn crypto_box_noncebytes(&self) -> (r: u32)
        ensures
            r == 24,
    {
        24
    }

    /// Size of a public key, in bytes.
    pub fn crypto_box_publickeybytes(&self) -> (r: u32)
        ensures
            r == 32,
    {
        32
    }

    /// What a sealed box adds to its message, in bytes.
    pub fn crypto_box_sealbytes(&self) -> (r: u32)
        ensures
            r == 48,
    {
        48
    }

    /// Size of a secret key, in bytes.
    pub fn crypto_box_secretkeybytes(&self) -> (r: u32)
        ensures
            r == 32,
    {
        32
    }

    /// Size of a seed, in bytes.
    pub fn crypto_box_seedbytes(&self) -> (r: u32)
        ensures
            r == 32,
    {
        32
    }
}

/// Opening with a precomputed key is opening with the two keys it was
/// derived from: for keys that agree, and the key that
/// `crypto_box_beforenm` gives for them, both answer alike on every
/// ciphertext, tag and nonce.
pub proof fn lemma_precompute_equivalence(
    c: Seq<u8>,
    mac: Seq<u8>,
    n: Seq<u8>,
    pk: Seq<u8>,
    sk: Seq<u8>,
    key: Seq<u8>,
)
    requires
        SodiumBox::beforenm_spec(pk, sk) == Ok::<Seq<u8>, BoxError>(key),
        key.len() == 32,
        box_agreement(pk, sk) is Some,
    ensures
        SodiumBox::open_detached_afternm_spec(c, mac, n, key) == SodiumBox::open_detached_spec(
            c,
            mac,
            n,
            pk,
            sk,
        ),
{
}

/// A combined box is its tag followed by its ciphertext: opening the two
/// joined answers as opening them apart.
pub proof fn lemma_combined_is_tag_then_ciphertext(
    c: Seq<u8>,
    mac: Seq<u8>,
    n: Seq<u8>,
    pk: Seq<u8>,
    sk: Seq<u8>,
)
    requires
        mac.len() == 16,
    ensures
        SodiumBox::open_easy_spec(mac + c, n, pk, sk) == SodiumBox::open_detached_spec(
            c,
            mac,
            n,
            pk,
            sk,
        ),
{
    assert((mac + c).skip(16) =~= c);
    assert((mac + c).take(16) =~= mac);
}

} // verus!

//! The shared-key box: authenticated encryption under one symmetric key.

use crate::error::{outcome, released, released_spec, BoxError};
use crate::primitives::{
    secretbox_gen_key, secretbox_gen_nonce, secretbox_open, secretbox_open_detached,
    secretbox_opened, secretbox_seal, secretbox_seal_detached, secretbox_sealed, sodium_init,
};
use vstd::prelude::*;

verus! {

/// Size of a shared secret key.
pub const CRYPTO_SECRETBOX_KEYBYTES: usize = 32;

/// Size of a nonce.
pub const CRYPTO_SECRETBOX_NONCEBYTES: usize = 24;

/// Size of an authentication tag.
pub const CRYPTO_SECRETBOX_MACBYTES: usize = 16;

/// A detached encryption: the ciphertext, as long as the message, and the
/// tag that authenticates it.
#[allow(non_camel_case_types)]
pub struct Secret_Box {
    pub ciphertext: Vec<u8>,
    pub mac: Vec<u8>,
}

/// The shared-key box. `new` hands one out once the primitives are set up.
pub struct SecretBox {
    ready: (),
}

/// The parts of a detached result.
pub open spec fn parts(r: Result<Secret_Box, BoxError>) -> Result<(Seq<u8>, Seq<u8>), BoxError> {
    match r {
        Ok(b) => Ok((b.ciphertext@, b.mac@)),
        Err(e) => Err(e),
    }
}

impl SecretBox {
    /// The nonce and the key have their fixed sizes.
    pub open spec fn sizes_ok(n: Seq<u8>, k: Seq<u8>) -> bool {
        n.len() == 24 && k.len() == 32
    }

    /// Combined encryption: the tag, then the ciphertext.
    pub open spec fn easy_spec(m: Seq<u8>, n: Seq<u8>, k: Seq<u8>) -> Result<Seq<u8>, BoxError> {
        if !Self::sizes_ok(n, k) {
            Err(BoxError::InvalidLength)
        } else {
            Ok(secretbox_sealed(m, n, k).1 + secretbox_sealed(m, n, k).0)
        }
    }

    /// Detached encryption: the ciphertext and the tag.
    pub open spec fn detached_spec(m: Seq<u8>, n: Seq<u8>, k: Seq<u8>) -> Result<
        (Seq<u8>, Seq<u8>),
        BoxError,
    > {
        if !Self::sizes_ok(n, k) {
            Err(BoxError::InvalidLength)
        } else {
            Ok(secretbox_sealed(m, n, k))
        }
    }

    /// Detached decryption: sizes first, then the tag, then the plaintext.
    pub open spec fn open_detached_spec(c: Seq<u8>, mac: Seq<u8>, n: Seq<u8>, k: Seq<u8>) -> Result<
        Seq<u8>,
        BoxError,
    > {
        if mac.len() != 16 || !Self::sizes_ok(n, k) {
            Err(BoxError::InvalidLength)
        } else {
            released_spec(secretbox_opened(c, mac, n, k))
        }
    }

    /// Combined decryption: a box too short to hold a tag has no valid size;
    /// else the leading 16 bytes are the tag of the rest.
    pub open spec fn open_easy_spec(c: Seq<u8>, n: Seq<u8>, k: Seq<u8>) -> Result<
        Seq<u8>,
        BoxError,
    > {
        if c.len() < 16 {
            Err(BoxError::InvalidLength)
        } else {
            Self::open_detached_spec(c.skip(16), c.take(16), n, k)
        }
    }

    /// The answer to a setup attempt, of which `ok` says whether it
    /// succeeded: a box where it did, `InitializationFailed` where it did not.
    pub fn from_init(ok: bool) -> (r: Result<SecretBox, BoxError>)
        ensures
            ok <==> r is Ok,
            !ok ==> r == Err::<SecretBox, BoxError>(BoxError::InitializationFailed),
    {
        if ok {
            Ok(SecretBox { ready: () })
        } else {
            Err(BoxError::InitializationFailed)
        }
    }

    /// Sets the primitives up, which is safe to do repeatedly, and hands out
    /// the box. The only failure is `InitializationFailed`.
    pub fn new() -> (r: Result<SecretBox, BoxError>)
        ensures
            r matches Err(e) ==> e == BoxError::InitializationFailed,
    {
        let ok = sodium_init();
        Self::from_init(ok)
    }

    /// Encrypts `m` under nonce `n` and key `k`, and returns the ciphertext
    /// and the tag apart. Opening the pair with the same nonce and key gives
    /// `m` back, and with any other tag fails.
    pub fn crypto_secretbox_detached(&self, m: &[u8], n: &[u8], k: &[u8]) -> (r: Result<
        Secret_Box,
        BoxError,
    >)
        ensures
            parts(r) == Self::detached_spec(m@, n@, k@),
            r matches Ok(b) ==> {
                &&& b.ciphertext@.len() == m@.len()
                &&& b.mac@.len() == 16
                &&& Self::open_detached_spec(b.ciphertext@, b.mac@, n@, k@) == Ok::<
                    Seq<u8>,
                    BoxError,
                >(m@)
                &&& forall|mac2: Seq<u8>|
                    mac2.len() == 16 && mac2 != b.mac@ ==> #[trigger] Self::open_detached_spec(
                        b.ciphertext@,
                        mac2,
                        n@,
                        k@,
                    ) == Err::<Seq<u8>, BoxError>(BoxError::AuthenticationFailed)
            },
    {
        if n.len() != CRYPTO_SECRETBOX_NONCEBYTES || k.len() != CRYPTO_SECRETBOX_KEYBYTES {
            return Err(BoxError::InvalidLength);
        }
        let (ciphertext, mac) = secretbox_seal_detached(m, n, k);
        Ok(Secret_Box { ciphertext, mac })
    }

    /// Encrypts `m` under nonce `n` and key `k` into one buffer: the tag,
    /// then the ciphertext. Opening it with the same nonce and key gives `m`
    /// back; a box with the same ciphertext and another tag fails to open.
    pub fn crypto_secretbox_easy(&self, m: &[u8], n: &[u8], k: &[u8]) -> (r: Result<
        Vec<u8>,
        BoxError,
    >)
        ensures
            outcome(r) == Self::easy_spec(m@, n@, k@),
            r matches Ok(c) ==> {
                &&& c@.len() == m@.len() + 16
                &&& Self::open_easy_spec(c@, n@, k@) == Ok::<Seq<u8>, BoxError>(m@)
                &&& forall|c2: Seq<u8>|
                    c2.len() == c@.len() && c2.skip(16) == c@.skip(16) && c2 != c@
                        ==> #[trigger] Self::open_easy_spec(c2, n@, k@) == Err::<
                        Seq<u8>,
                        BoxError,
                    >(BoxError::AuthenticationFailed)
            },
    {
        if n.len() != CRYPTO_SECRETBOX_NONCEBYTES || k.len() != CRYPTO_SECRETBOX_KEYBYTES {
            return Err(BoxError::InvalidLength);
        }
        let c = secretbox_seal(m, n, k);
        proof {
            assert(c@ =~= c@.take(16) + c@.skip(16));
            assert forall|c2: Seq<u8>|
                c2.len() == c@.len() && c2.skip(16) == c@.skip(16) && c2 != c@ implies #[trigger] Self::open_easy_spec(
                c2,
                n@,
                k@,
            ) == Err::<Seq<u8>, BoxError>(BoxError::AuthenticationFailed) by {
                if c2.take(16) == c@.take(16) {
                    assert(c2 =~= c2.take(16) + c2.skip(16));
                }
            }
        }
        Ok(c)
    }

    /// A fresh random key of 32 bytes.
    pub fn crypto_secretbox_keygen(&self) -> (k: Vec<u8>)
        ensures
            k@.len() == 32,
    {
        secretbox_gen_key()
    }

    /// A fresh random nonce of 24 bytes.
    pub fn crypto_secretbox_nonce(&self) -> (n: Vec<u8>)
        ensures
            n@.len() == 24,
    {
        secretbox_gen_nonce()
    }

    /// Checks the tag `mac` of the ciphertext `c` under `n` and `k`, and only
    /// then releases the plaintext, which has the ciphertext's length.
    pub fn crypto_secretbox_open_detached(&self, c: &[u8], mac: &[u8], n: &[u8], k: &[u8]) -> (r:
        Result<Vec<u8>, BoxError>)
        ensures
            outcome(r) == Self::open_detached_spec(c@, mac@, n@, k@),
            r matches Ok(m) ==> m@.len() == c@.len(),
    {
        if mac.len() != CRYPTO_SECRETBOX_MACBYTES || n.len() != CRYPTO_SECRETBOX_NONCEBYTES
            || k.len() != CRYPTO_SECRETBOX_KEYBYTES {
            return Err(BoxError::InvalidLength);
        }
        released(secretbox_open_detached(c, mac, n, k))
    }

    /// Checks the tag that leads the combined box `c` under `n` and `k`, and
    /// only then releases the plaintext, which is 16 bytes shorter.
    pub fn crypto_secretbox_open_easy(&self, c: &[u8], n: &[u8], k: &[u8]) -> (r: Result<
        Vec<u8>,
        BoxError,
    >)
        ensures
            outcome(r) == Self::open_easy_spec(c@, n@, k@),
            r matches Ok(m) ==> m@.len() + 16 == c@.len(),
    {
        if c.len() < CRYPTO_SECRETBOX_MACBYTES || n.len() != CRYPTO_SECRETBOX_NONCEBYTES
            || k.len() != CRYPTO_SECRETBOX_KEYBYTES {
            return Err(BoxError::InvalidLength);
        }
        released(secretbox_open(c, n, k))
    }

    /// Size of a key, in bytes.
    pub fn crypto_secretbox_keybytes(&self) -> (r: u32)
        ensures
            r == 32,
    {
        32
    }

    /// Size of a tag, in bytes.
    pub fn crypto_secretbox_macbytes(&self) -> (r: u32)
        ensures
            r == 16,
    {
        16
    }

    /// The primitive's bound on a message's size, as far as 32 bits hold it.
    pub fn crypto_secretbox_messagebytes_max(&self) -> (r: u32)
        ensures
            r == 0xffff_ffef,
    {
        0xffff_ffef
    }

    /// Size of a nonce, in bytes.
    pub fn crypto_secretbox_noncebytes(&self) -> (r: u32)
        ensures
            r == 24,
    {
        24
    }

    /// The name of the cipher and MAC pair in use, for diagnostics.
    pub fn crypto_secretbox_primitive(&self) -> (r: String)
        ensures
            r@ == "xsalsa20poly1305"@,
    {
        "xsalsa20poly1305".to_owned()
    }
}

/// A combined box is its tag followed by its ciphertext: opening the two
/// joined answers as opening them apart.
pub proof fn lemma_combined_is_tag_then_ciphertext(
    c: Seq<u8>,
    mac: Seq<u8>,
    n: Seq<u8>,
    k: Seq<u8>,
)
    requires
        mac.len() == 16,
    ensures
        SecretBox::open_easy_spec(mac + c, n, k) == SecretBox::open_detached_spec(c, mac, n, k),
{
    assert((mac + c).skip(16) =~= c);
    assert((mac + c).take(16) =~= mac);
}

} // verus!

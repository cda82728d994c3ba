use dryoc::classic::crypto_box::{
    crypto_box_beforenm, crypto_box_easy, crypto_box_seal, crypto_box_seed_keypair,
};
use naclbox::crypto_box::{KeyPair, SodiumBox};
use naclbox::error::BoxError;

fn ready() -> SodiumBox {
    SodiumBox::new().unwrap()
}

fn pair(bx: &SodiumBox, seed: u8) -> KeyPair {
    bx.crypto_box_seed_keypair(&[seed; 32]).ok().unwrap()
}

fn nonce(seed: u8) -> Vec<u8> {
    (0..24u8).map(|i| i.wrapping_mul(3).wrapping_add(seed)).collect()
}

#[test]
fn box_combined_roundtrip() {
    let bx = ready();
    let alice = pair(&bx, 1);
    let bob = pair(&bx, 2);
    for len in 0..70usize {
        let m: Vec<u8> = (0..len).map(|i| (i * 13 + 1) as u8).collect();
        let c = bx.crypto_box_easy(&m, &nonce(1), &bob.public_key, &alice.secret_key).unwrap();
        assert_eq!(c.len(), len + 16);
        assert_eq!(
            bx.crypto_box_open_easy(&c, &nonce(1), &alice.public_key, &bob.secret_key),
            Ok(m)
        );
    }
}

#[test]
fn box_detached_roundtrip() {
    let bx = ready();
    let alice = pair(&bx, 1);
    let bob = pair(&bx, 2);
    for len in 0..70usize {
        let m: Vec<u8> = (0..len).map(|i| (i * 17 + 2) as u8).collect();
        let b = bx
            .crypto_box_detached(&m, &nonce(1), &bob.public_key, &alice.secret_key)
            .ok()
            .unwrap();
        assert_eq!(b.ciphertext.len(), len);
        assert_eq!(b.mac.len(), 16);
        assert_eq!(
            bx.crypto_box_open_detached(
                &b.ciphertext,
                &b.mac,
                &nonce(1),
                &alice.public_key,
                &bob.secret_key
            ),
            Ok(m)
        );
    }
}

#[test]
fn box_roundtrip_with_random_keys() {
    let bx = ready();
    let alice = bx.crypto_box_keypair();
    let bob = bx.crypto_box_keypair();
    assert_eq!(alice.public_key.len(), 32);
    assert_eq!(alice.secret_key.len(), 32);
    assert_ne!(alice.secret_key, bob.secret_key);
    let n = bx.crypto_box_nonce();
    assert_eq!(n.len(), 24);
    assert_ne!(n, bx.crypto_box_nonce());
    let c = bx.crypto_box_easy(b"hi bob", &n, &bob.public_key, &alice.secret_key).unwrap();
    assert_eq!(
        bx.crypto_box_open_easy(&c, &n, &alice.public_key, &bob.secret_key),
        Ok(b"hi bob".to_vec())
    );
}

#[test]
fn box_combined_is_tag_then_detached_ciphertext() {
    let bx = ready();
    let alice = pair(&bx, 1);
    let bob = pair(&bx, 2);
    let m = b"one box, two shapes";
    let c = bx.crypto_box_easy(m, &nonce(0), &bob.public_key, &alice.secret_key).unwrap();
    let b = bx.crypto_box_detached(m, &nonce(0), &bob.public_key, &alice.secret_key).ok().unwrap();
    assert_eq!(&c[..16], &b.mac[..]);
    assert_eq!(&c[16..], &b.ciphertext[..]);
}

#[test]
fn box_matches_an_independent_implementation() {
    let bx = ready();
    let alice = pair(&bx, 1);
    let bob = pair(&bx, 2);
    let m = b"interoperable bytes";
    let n: [u8; 24] = nonce(9).try_into().unwrap();
    let pk: [u8; 32] = bob.public_key.clone().try_into().unwrap();
    let sk: [u8; 32] = alice.secret_key.clone().try_into().unwrap();
    let mut expected = vec![0u8; m.len() + 16];
    crypto_box_easy(&mut expected, m, &n, &pk, &sk).unwrap();
    assert_eq!(bx.crypto_box_easy(m, &n, &bob.public_key, &alice.secret_key), Ok(expected));
}

#[test]
fn box_is_the_secret_box_under_the_precomputed_key() {
    let bx = ready();
    let sb = naclbox::secretbox::SecretBox::new().unwrap();
    let alice = pair(&bx, 1);
    let bob = pair(&bx, 2);
    let k = bx.crypto_box_beforenm(&bob.public_key, &alice.secret_key).unwrap();
    let m = b"layers";
    let c = bx.crypto_box_easy(m, &nonce(2), &bob.public_key, &alice.secret_key).unwrap();
    assert_eq!(sb.crypto_secretbox_easy(m, &nonce(2), &k), Ok(c));
}

#[test]
fn precomputed_key_is_shared_by_both_sides() {
    let bx = ready();
    let alice = pair(&bx, 1);
    let bob = pair(&bx, 2);
    let ka = bx.crypto_box_beforenm(&bob.public_key, &alice.secret_key).unwrap();
    let kb = bx.crypto_box_beforenm(&alice.public_key, &bob.secret_key).unwrap();
    assert_eq!(ka.len(), 32);
    assert_eq!(ka, kb);
    assert_ne!(ka, alice.secret_key);
    assert_ne!(ka, bob.public_key);
    let pk: [u8; 32] = bob.public_key.clone().try_into().unwrap();
    let sk: [u8; 32] = alice.secret_key.clone().try_into().unwrap();
    assert_eq!(ka, crypto_box_beforenm(&pk, &sk).unwrap().to_vec());
}

#[test]
fn precomputed_open_equals_open_with_both_keys() {
    let bx = ready();
    let alice = pair(&bx, 1);
    let bob = pair(&bx, 2);
    let m = b"many messages, one agreement";
    let b = bx.crypto_box_detached(m, &nonce(3), &bob.public_key, &alice.secret_key).ok().unwrap();
    let k = bx.crypto_box_beforenm(&alice.public_key, &bob.secret_key).unwrap();
    let direct = bx.crypto_box_open_detached(
        &b.ciphertext,
        &b.mac,
        &nonce(3),
        &alice.public_key,
        &bob.secret_key,
    );
    let pre = bx.crypto_box_open_detached_afternm(&b.ciphertext, &b.mac, &nonce(3), &k);
    assert_eq!(direct, Ok(m.to_vec()));
    assert_eq!(pre, direct);
    let mut bad = b.mac.clone();
    bad[0] ^= 1;
    let direct = bx.crypto_box_open_detached(
        &b.ciphertext,
        &bad,
        &nonce(3),
        &alice.public_key,
        &bob.secret_key,
    );
    let pre = bx.crypto_box_open_detached_afternm(&b.ciphertext, &bad, &nonce(3), &k);
    assert_eq!(direct, Err(BoxError::AuthenticationFailed));
    assert_eq!(pre, direct);
}

#[test]
fn rejected_public_key_gives_a_zero_precomputed_key_and_never_opens() {
    let bx = ready();
    let alice = pair(&bx, 1);
    let weak = [0u8; 32];
    assert_eq!(bx.crypto_box_beforenm(&weak, &alice.secret_key), Ok(vec![0u8; 32]));
    assert_eq!(
        bx.crypto_box_open_detached(b"abcd", &[0u8; 16], &nonce(0), &weak, &alice.secret_key),
        Err(BoxError::AuthenticationFailed)
    );
    assert_eq!(
        bx.crypto_box_open_easy(&[0u8; 20], &nonce(0), &weak, &alice.secret_key),
        Err(BoxError::AuthenticationFailed)
    );
    let c = bx.crypto_box_easy(b"abcd", &nonce(0), &weak, &alice.secret_key).unwrap();
    assert_eq!(c.len(), 20);
    let b = bx.crypto_box_detached(b"abcd", &nonce(0), &weak, &alice.secret_key).ok().unwrap();
    assert_eq!(b.ciphertext, b"abcd".to_vec());
    assert_eq!(b.mac, vec![0u8; 16]);
}

#[test]
fn box_any_flipped_bit_fails_authentication() {
    let bx = ready();
    let alice = pair(&bx, 1);
    let bob = pair(&bx, 2);
    let c = bx.crypto_box_easy(b"attack at dawn", &nonce(1), &bob.public_key, &alice.secret_key)
        .unwrap();
    for i in 0..c.len() {
        for bit in 0..8 {
            let mut t = c.clone();
            t[i] ^= 1 << bit;
            assert_eq!(
                bx.crypto_box_open_easy(&t, &nonce(1), &alice.public_key, &bob.secret_key),
                Err(BoxError::AuthenticationFailed)
            );
            assert_eq!(
                bx.crypto_box_open_detached(
                    &t[16..],
                    &t[..16],
                    &nonce(1),
                    &alice.public_key,
                    &bob.secret_key
                ),
                Err(BoxError::AuthenticationFailed)
            );
        }
    }
}

#[test]
fn box_distinct_nonces_give_distinct_ciphertexts() {
    let bx = ready();
    let alice = pair(&bx, 1);
    let bob = pair(&bx, 2);
    let m = b"same message, same keys";
    let a = bx.crypto_box_easy(m, &nonce(1), &bob.public_key, &alice.secret_key).unwrap();
    let b = bx.crypto_box_easy(m, &nonce(2), &bob.public_key, &alice.secret_key).unwrap();
    assert_ne!(a, b);
    assert_ne!(a[16..], b[16..]);
}

#[test]
fn box_wrong_recipient_fails_authentication() {
    let bx = ready();
    let alice = pair(&bx, 1);
    let bob = pair(&bx, 2);
    let eve = pair(&bx, 3);
    let c = bx.crypto_box_easy(b"for bob", &nonce(1), &bob.public_key, &alice.secret_key).unwrap();
    assert_eq!(
        bx.crypto_box_open_easy(&c, &nonce(1), &alice.public_key, &eve.secret_key),
        Err(BoxError::AuthenticationFailed)
    );
}

#[test]
fn sealed_box_roundtrip() {
    let bx = ready();
    let bob = pair(&bx, 2);
    for len in 0..70usize {
        let m: Vec<u8> = (0..len).map(|i| (i * 19 + 5) as u8).collect();
        let c = bx.crypto_box_seal(&m, &bob.public_key).unwrap();
        assert_eq!(c.len(), len + 48);
        assert_eq!(bx.crypto_box_seal_open(&c, &bob.public_key, &bob.secret_key), Ok(m));
    }
}

#[test]
fn sealed_box_is_fresh_each_time() {
    let bx = ready();
    let bob = pair(&bx, 2);
    let a = bx.crypto_box_seal(b"anonymous", &bob.public_key).unwrap();
    let b = bx.crypto_box_seal(b"anonymous", &bob.public_key).unwrap();
    assert_ne!(a, b);
    assert_ne!(a[..32], b[..32]);
}

#[test]
fn sealed_box_wrong_recipient_fails_authentication() {
    let bx = ready();
    let bob = pair(&bx, 2);
    let eve = pair(&bx, 3);
    let c = bx.crypto_box_seal(b"for bob only", &bob.public_key).unwrap();
    assert_eq!(
        bx.crypto_box_seal_open(&c, &eve.public_key, &eve.secret_key),
        Err(BoxError::AuthenticationFailed)
    );
    let mut t = c.clone();
    let last = t.len() - 1;
    t[last] ^= 0x80;
    assert_eq!(
        bx.crypto_box_seal_open(&t, &bob.public_key, &bob.secret_key),
        Err(BoxError::AuthenticationFailed)
    );
}

#[test]
fn sealed_box_opens_what_an_independent_implementation_sealed() {
    let bx = ready();
    let bob = pair(&bx, 2);
    let pk: [u8; 32] = bob.public_key.clone().try_into().unwrap();
    let m = b"from elsewhere";
    let mut c = vec![0u8; m.len() + 48];
    crypto_box_seal(&mut c, m, &pk).unwrap();
    assert_eq!(bx.crypto_box_seal_open(&c, &bob.public_key, &bob.secret_key), Ok(m.to_vec()));
}

#[test]
fn sealed_box_too_short_is_invalid_length() {
    let bx = ready();
    let bob = pair(&bx, 2);
    for len in [0usize, 1, 16, 32, 47] {
        assert_eq!(
            bx.crypto_box_seal_open(&vec![0u8; len], &bob.public_key, &bob.secret_key),
            Err(BoxError::InvalidLength)
        );
    }
    assert_eq!(
        bx.crypto_box_seal_open(&[7u8; 48], &bob.public_key, &bob.secret_key),
        Err(BoxError::AuthenticationFailed)
    );
}

#[test]
fn sealed_box_of_the_empty_message() {
    let bx = ready();
    let bob = pair(&bx, 2);
    let c = bx.crypto_box_seal(b"", &bob.public_key).unwrap();
    assert_eq!(c.len(), 48);
    assert_eq!(bx.crypto_box_seal_open(&c, &bob.public_key, &bob.secret_key), Ok(vec![]));
}

#[test]
fn seed_keypair_is_deterministic() {
    let bx = ready();
    let a = pair(&bx, 7);
    let b = pair(&bx, 7);
    let c = pair(&bx, 8);
    assert_eq!(a.public_key, b.public_key);
    assert_eq!(a.secret_key, b.secret_key);
    assert_ne!(a.secret_key, c.secret_key);
    assert_ne!(a.public_key, c.public_key);
    assert_ne!(a.secret_key, vec![7u8; 32]);
    let (pk, sk) = crypto_box_seed_keypair(&[7u8; 32]);
    assert_eq!(a.public_key, pk.to_vec());
    assert_eq!(a.secret_key, sk.to_vec());
}

#[test]
fn box_wrong_sizes_are_invalid_length() {
    let bx = ready();
    let alice = pair(&bx, 1);
    let bob = pair(&bx, 2);
    let n = nonce(0);
    let m = b"m";
    let il = Err(BoxError::InvalidLength);
    for bad in [0usize, 31, 33] {
        let k = vec![1u8; bad];
        assert!(matches!(bx.crypto_box_seed_keypair(&k), Err(BoxError::InvalidLength)));
        assert_eq!(bx.crypto_box_beforenm(&k, &alice.secret_key), il);
        assert_eq!(bx.crypto_box_beforenm(&bob.public_key, &k), il);
        assert_eq!(bx.crypto_box_easy(m, &n, &k, &alice.secret_key), il);
        assert_eq!(bx.crypto_box_easy(m, &n, &bob.public_key, &k), il);
        assert!(matches!(
            bx.crypto_box_detached(m, &n, &k, &alice.secret_key),
            Err(BoxError::InvalidLength)
        ));
        assert!(matches!(
            bx.crypto_box_detached(m, &n, &bob.public_key, &k),
            Err(BoxError::InvalidLength)
        ));
        assert_eq!(bx.crypto_box_open_easy(&[0u8; 20], &n, &k, &bob.secret_key), il);
        assert_eq!(bx.crypto_box_open_easy(&[0u8; 20], &n, &alice.public_key, &k), il);
        assert_eq!(bx.crypto_box_open_detached(m, &[0u8; 16], &n, &k, &bob.secret_key), il);
        assert_eq!(bx.crypto_box_open_detached(m, &[0u8; 16], &n, &alice.public_key, &k), il);
        assert_eq!(bx.crypto_box_open_detached_afternm(m, &[0u8; 16], &n, &k), il);
        assert_eq!(bx.crypto_box_seal(m, &k), il);
        assert_eq!(bx.crypto_box_seal_open(&[0u8; 60], &k, &bob.secret_key), il);
        assert_eq!(bx.crypto_box_seal_open(&[0u8; 60], &bob.public_key, &k), il);
    }
    for bad in [0usize, 23, 25] {
        let n = vec![0u8; bad];
        assert_eq!(bx.crypto_box_easy(m, &n, &bob.public_key, &alice.secret_key), il);
        assert!(matches!(
            bx.crypto_box_detached(m, &n, &bob.public_key, &alice.secret_key),
            Err(BoxError::InvalidLength)
        ));
        assert_eq!(
            bx.crypto_box_open_easy(&[0u8; 20], &n, &alice.public_key, &bob.secret_key),
            il
        );
        assert_eq!(
            bx.crypto_box_open_detached(m, &[0u8; 16], &n, &alice.public_key, &bob.secret_key),
            il
        );
        assert_eq!(bx.crypto_box_open_detached_afternm(m, &[0u8; 16], &n, &[0u8; 32]), il);
    }
    for bad in [0usize, 15, 17] {
        let mac = vec![0u8; bad];
        assert_eq!(
            bx.crypto_box_open_detached(m, &mac, &n, &alice.public_key, &bob.secret_key),
            il
        );
        assert_eq!(bx.crypto_box_open_detached_afternm(m, &mac, &n, &[0u8; 32]), il);
    }
    for len in 0..16usize {
        assert_eq!(
            bx.crypto_box_open_easy(&vec![0u8; len], &n, &alice.public_key, &bob.secret_key),
            il
        );
    }
}

#[test]
fn sealing_answer_follows_the_primitive() {
    assert_eq!(SodiumBox::sealed_from(true, vec![1, 2, 3]), Ok(vec![1, 2, 3]));
    assert_eq!(SodiumBox::sealed_from(false, vec![1, 2, 3]), Err(BoxError::InvalidLength));
}

#[test]
fn sealing_to_a_rejected_public_key_is_an_error() {
    let bx = ready();
    assert_eq!(bx.crypto_box_seal(b"nobody", &[0u8; 32]), Err(BoxError::InvalidLength));
}

#[test]
fn box_setup_failure_is_initialization_failed() {
    assert!(matches!(SodiumBox::from_init(false), Err(BoxError::InitializationFailed)));
    assert!(SodiumBox::from_init(true).is_ok());
    assert!(SodiumBox::new().is_ok());
}

#[test]
fn box_constants() {
    let bx = ready();
    assert_eq!(bx.crypto_box_publickeybytes(), 32);
    assert_eq!(bx.crypto_box_secretkeybytes(), 32);
    assert_eq!(bx.crypto_box_beforenmbytes(), 32);
    assert_eq!(bx.crypto_box_seedbytes(), 32);
    assert_eq!(bx.crypto_box_noncebytes(), 24);
    assert_eq!(bx.crypto_box_macbytes(), 16);
    assert_eq!(bx.crypto_box_sealbytes(), 48);
    assert_eq!(bx.crypto_box_messagebytes_max(), 4294967279);
    assert_eq!(bx.crypto_box_publickeybytes(), dryoc::constants::CRYPTO_BOX_PUBLICKEYBYTES as u32);
    assert_eq!(bx.crypto_box_secretkeybytes(), dryoc::constants::CRYPTO_BOX_SECRETKEYBYTES as u32);
    assert_eq!(bx.crypto_box_beforenmbytes(), dryoc::constants::CRYPTO_BOX_BEFORENMBYTES as u32);
    assert_eq!(bx.crypto_box_seedbytes(), dryoc::constants::CRYPTO_BOX_SEEDBYTES as u32);
    assert_eq!(bx.crypto_box_noncebytes(), dryoc::constants::CRYPTO_BOX_NONCEBYTES as u32);
    assert_eq!(bx.crypto_box_macbytes(), dryoc::constants::CRYPTO_BOX_MACBYTES as u32);
    assert_eq!(bx.crypto_box_sealbytes(), dryoc::constants::CRYPTO_BOX_SEALBYTES as u32);
    assert_eq!(
        bx.crypto_box_messagebytes_max(),
        dryoc::constants::CRYPTO_BOX_MESSAGEBYTES_MAX as u32
    );
    assert_eq!(naclbox::crypto_box::CRYPTO_BOX_SEALBYTES, 48);
    assert_eq!(naclbox::crypto_box::CRYPTO_BOX_NONCEBYTES, 24);
}

#[test]
fn precomputed_key_of_a_rejected_public_key_is_no_agreement() {
    let bx = ready();
    let sb = naclbox::secretbox::SecretBox::new().unwrap();
    let alice = pair(&bx, 1);
    let weak = [0u8; 32];
    let k = bx.crypto_box_beforenm(&weak, &alice.secret_key).unwrap();
    let b = sb.crypto_secretbox_detached(b"forged", &nonce(0), &k).ok().unwrap();
    assert_eq!(
        bx.crypto_box_open_detached_afternm(&b.ciphertext, &b.mac, &nonce(0), &k),
        Ok(b"forged".to_vec())
    );
    assert_eq!(
        bx.crypto_box_open_detached(&b.ciphertext, &b.mac, &nonce(0), &weak, &alice.secret_key),
        Err(BoxError::AuthenticationFailed)
    );
}

use iris_core::data_assets::Pallet;
use iris_core::pre::{
    decrypt_fragment, delegate, encrypt, open_fragment, recombine, EncryptionResult, PreError,
};
use iris_core::primitives::EncryptedFragment;
use umbral_pre::SerializableToSecretArray;

fn box_secret(i: u8) -> Vec<u8> {
    vec![i.wrapping_mul(31).wrapping_add(1); 32]
}

fn box_public(secret: &[u8]) -> Vec<u8> {
    let bytes: [u8; 32] = secret.try_into().unwrap();
    crypto_box::SecretKey::from(bytes).public_key().as_bytes().to_vec()
}

fn nonce(i: u8) -> Vec<u8> {
    vec![i; 24]
}

fn secret_bytes(sk: &umbral_pre::SecretKey) -> Vec<u8> {
    sk.to_secret_array().as_secret().to_vec()
}

struct Setup {
    receiving: Vec<u8>,
    result: EncryptionResult,
    sealed: Vec<EncryptedFragment>,
}

const PLAINTEXT: &[u8] = b"a dataset worth protecting";

fn setup() -> Setup {
    let receiving = umbral_pre::SecretKey::random();
    let result = encrypt([3u8; 32], &PLAINTEXT.to_vec(), 5, 3, &receiving.public_key()).unwrap();
    assert_eq!(result.fragments.len(), 5);
    assert_eq!(result.threshold, 3);
    let mut sealed = Vec::new();
    for (i, frag) in result.fragments.iter().enumerate() {
        let party = box_public(&box_secret(i as u8));
        let ephemeral = box_secret(100 + i as u8);
        let f = delegate(frag, &party, &ephemeral, &nonce(i as u8)).unwrap();
        assert_eq!(f.public_key, box_public(&ephemeral));
        assert_eq!(f.nonce, nonce(i as u8));
        assert_eq!(f.ciphertext.len(), frag.len() + 16);
        sealed.push(f);
    }
    Setup { receiving: secret_bytes(&receiving), result, sealed }
}

fn recombine_with(s: &Setup, receiving: &Vec<u8>, threshold: usize, frags: &Vec<Vec<u8>>) -> Result<Vec<u8>, PreError> {
    recombine(receiving, &s.result.public_key, &s.result.capsule, threshold, frags, &s.result.ciphertext)
}

#[test]
fn any_three_of_five_recombine() {
    let s = setup();
    for a in 0..5 {
        for b in (a + 1)..5 {
            for c in (b + 1)..5 {
                let frags: Vec<Vec<u8>> = [a, b, c]
                    .iter()
                    .map(|&i| decrypt_fragment(&s.sealed[i], &box_secret(i as u8)).unwrap())
                    .collect();
                let pt = recombine_with(&s, &s.receiving, 3, &frags).unwrap();
                assert_eq!(pt, PLAINTEXT.to_vec());
            }
        }
    }
}

#[test]
fn opened_fragment_is_the_delegated_one() {
    let s = setup();
    for i in 0..5 {
        let opened = decrypt_fragment(&s.sealed[i], &box_secret(i as u8)).unwrap();
        assert_eq!(opened, s.result.fragments[i]);
    }
}

#[test]
fn two_of_five_are_refused() {
    let s = setup();
    let frags: Vec<Vec<u8>> = [0usize, 4]
        .iter()
        .map(|&i| decrypt_fragment(&s.sealed[i], &box_secret(i as u8)).unwrap())
        .collect();
    assert_eq!(recombine_with(&s, &s.receiving, 3, &frags), Err(PreError::InsufficientFragments));
    assert_eq!(recombine_with(&s, &s.receiving, 0, &Vec::new()), Err(PreError::InsufficientFragments));
}

#[test]
fn ciphertext_hides_plaintext() {
    let s = setup();
    assert_ne!(s.result.ciphertext, PLAINTEXT.to_vec());
    assert_eq!(s.result.ciphertext.len(), PLAINTEXT.len() + 40);
}

#[test]
fn wrong_receiver_or_capsule_cannot_recombine() {
    let s = setup();
    let frags: Vec<Vec<u8>> = s.result.fragments[..3].to_vec();
    let stranger = secret_bytes(&umbral_pre::SecretKey::random());
    assert_eq!(recombine_with(&s, &stranger, 3, &frags), Err(PreError::RecombinationFailed));
    let bad_capsule = vec![0u8; s.result.capsule.len()];
    let r = recombine(&s.receiving, &s.result.public_key, &bad_capsule, 3, &frags, &s.result.ciphertext);
    assert_eq!(r, Err(PreError::RecombinationFailed));
    assert_eq!(recombine_with(&s, &s.receiving, 3, &frags), Ok(PLAINTEXT.to_vec()));
}

#[test]
fn decrypt_runs_the_whole_pipeline() {
    let s = setup();
    // three of the fragments sealed for one delegatee
    let mut sealed = Vec::new();
    let delegatee = box_secret(42);
    for (i, frag) in s.result.fragments.iter().take(3).enumerate() {
        sealed.push(delegate(frag, &box_public(&delegatee), &box_secret(200 + i as u8), &nonce(9)).unwrap());
    }
    let decrypt = |sealed: &Vec<EncryptedFragment>, key: &Vec<u8>| {
        Pallet::decrypt(
            sealed,
            key,
            &s.receiving,
            &s.result.public_key,
            &s.result.capsule,
            3,
            &s.result.ciphertext,
        )
    };
    assert_eq!(decrypt(&sealed, &delegatee), Ok(PLAINTEXT.to_vec()));
    let recovered = Pallet::decrypt_capsule_fragments(&sealed, &delegatee).unwrap();
    assert_eq!(recovered, s.result.fragments[..3].to_vec());
    assert_eq!(
        Pallet::decrypt_capsule_fragments(&sealed, &box_secret(43)),
        Err(PreError::DecryptionFailed)
    );
    assert_eq!(decrypt(&sealed, &box_secret(43)), Err(PreError::DecryptionFailed));
    let mut sealed = sealed;
    sealed.truncate(2);
    assert_eq!(decrypt(&sealed, &delegatee), Err(PreError::InsufficientFragments));
}

#[test]
fn every_flipped_bit_is_rejected() {
    let s = setup();
    let original = &s.sealed[1];
    let secret = box_secret(1);
    assert!(decrypt_fragment(original, &secret).is_ok());
    for byte in 0..original.ciphertext.len() {
        for bit in 0..8 {
            let mut tampered = EncryptedFragment {
                public_key: original.public_key.clone(),
                nonce: original.nonce.clone(),
                ciphertext: original.ciphertext.clone(),
            };
            tampered.ciphertext[byte] ^= 1 << bit;
            assert_eq!(decrypt_fragment(&tampered, &secret), Err(PreError::DecryptionFailed));
        }
    }
}

#[test]
fn invalid_splits_are_refused() {
    let receiving = umbral_pre::SecretKey::random();
    let pk = receiving.public_key();
    assert!(matches!(encrypt([1u8; 32], &b"x".to_vec(), 5, 0, &pk), Err(PreError::InvalidThreshold)));
    assert!(matches!(encrypt([1u8; 32], &b"x".to_vec(), 2, 3, &pk), Err(PreError::InvalidThreshold)));
    assert!(matches!(encrypt([1u8; 32], &b"x".to_vec(), 0, 0, &pk), Err(PreError::InvalidThreshold)));
    let one = encrypt([1u8; 32], &Vec::new(), 1, 1, &pk).unwrap();
    assert_eq!(one.fragments.len(), 1);
    assert_eq!(one.ciphertext.len(), 40);
}

#[test]
fn sealing_checks_lengths_and_encrypts() {
    let payload = b"fragment bytes".to_vec();
    let party = box_public(&box_secret(5));
    let eph = box_secret(6);
    assert_eq!(
        delegate(&payload, &party[..31].to_vec(), &eph, &nonce(1)).map(|_| ()),
        Err(PreError::MalformedKey)
    );
    assert_eq!(
        delegate(&payload, &party, &eph[..5].to_vec(), &nonce(1)).map(|_| ()),
        Err(PreError::MalformedKey)
    );
    assert_eq!(
        delegate(&payload, &party, &eph, &vec![0u8; 12]).map(|_| ()),
        Err(PreError::MalformedNonce)
    );
    let sealed = delegate(&payload, &party, &eph, &nonce(1)).unwrap();
    assert_eq!(sealed.public_key, box_public(&eph));
    assert_eq!(sealed.ciphertext.len(), payload.len() + 16);
    assert_ne!(&sealed.ciphertext[16..], &payload[..]);
    assert_eq!(open_fragment(&sealed, &box_secret(5)), Ok(payload.clone()));
    // bytes that open but are no capsule fragment
    assert_eq!(decrypt_fragment(&sealed, &box_secret(5)), Err(PreError::MalformedFragment));
    assert_eq!(open_fragment(&sealed, &box_secret(7)), Err(PreError::DecryptionFailed));
    let mut short = sealed;
    short.nonce.pop();
    assert_eq!(open_fragment(&short, &box_secret(5)), Err(PreError::MalformedNonce));
    short.public_key.pop();
    assert_eq!(open_fragment(&short, &box_secret(5)), Err(PreError::MalformedKey));
}

#[test]
fn ciphertext_shorter_than_tag_is_refused() {
    let f = EncryptedFragment {
        public_key: box_public(&box_secret(1)),
        nonce: nonce(3),
        ciphertext: vec![0u8; 15],
    };
    assert_eq!(open_fragment(&f, &box_secret(2)), Err(PreError::DecryptionFailed));
}

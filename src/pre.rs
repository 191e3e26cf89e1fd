//! Proxy re-encryption engine: threshold encryption of a payload under a
//! fresh key, sealing of key fragments for delegatees, opening of sealed
//! fragments, and threshold recombination.
use umbral_pre::{DeserializableFromArray, SerializableToArray};
use rand_chacha::rand_core::SeedableRng;
use crypto_box::aead::Aead;
use vstd::prelude::*;

use crate::primitives::{bytes_view, EncryptedFragment, EncryptedFragmentView};

verus! {

/// The seeded generator that umbral-pre draws its randomness from.
#[verifier::external_type_specification]
#[verifier::external_body]
pub struct ExChaCha20Rng(rand_chacha::ChaCha20Rng);

/// An umbral secret key, carried through opaquely.
#[verifier::external_type_specification]
#[verifier::external_body]
pub struct ExSecretKey(umbral_pre::SecretKey);

/// An umbral public key, carried through opaquely.
#[verifier::external_type_specification]
#[verifier::external_body]
pub struct ExPublicKey(umbral_pre::PublicKey);

/// The umbral signer that signs key fragments.
#[verifier::external_type_specification]
#[verifier::external_body]
pub struct ExSigner(umbral_pre::Signer);

/// The umbral capsule bound to one encryption.
#[verifier::external_type_specification]
#[verifier::external_body]
pub struct ExCapsule(umbral_pre::Capsule);

/// An umbral key fragment.
#[verifier::external_type_specification]
#[verifier::external_body]
pub struct ExVerifiedKeyFrag(umbral_pre::VerifiedKeyFrag);

/// An umbral capsule fragment, as produced by re-encryption.
#[verifier::external_type_specification]
#[verifier::external_body]
pub struct ExVerifiedCapsuleFrag(umbral_pre::VerifiedCapsuleFrag);

/// Failure of umbral encryption.
#[verifier::external_type_specification]
#[verifier::external_body]
pub struct ExEncryptionError(umbral_pre::EncryptionError);

/// Length of an X25519 key.
pub const KEY_LEN: usize = 32;

/// Length of an XSalsa20 nonce.
pub const NONCE_LEN: usize = 24;

/// Length of the Poly1305 tag that a sealed box starts with.
pub const TAG_LEN: usize = 16;

/// How many bytes umbral's encryption adds to a plaintext: a 24-byte
/// nonce in front, a 16-byte tag behind.
pub const CIPHERTEXT_OVERHEAD: usize = 40;

/// Plaintexts below this length always encrypt: the stream cipher
/// refuses from 2^32 - 1 blocks of 64 bytes on.
pub const MAX_PLAINTEXT_LEN: u64 = 64 * 4294967295;

/// The X25519 public key of the secret key `secret`.
pub uninterp spec fn x25519_public(secret: Seq<u8>) -> Seq<u8>;

/// The sealed box of `plaintext` from `secret` to `public` under `nonce`.
pub uninterp spec fn box_sealed(
    public: Seq<u8>,
    secret: Seq<u8>,
    nonce: Seq<u8>,
    plaintext: Seq<u8>,
) -> Seq<u8>;

/// The contents of the sealed box `ciphertext` from `public` to `secret`
/// under `nonce`, or `None` when its authentication tag does not verify.
pub uninterp spec fn box_opened(
    public: Seq<u8>,
    secret: Seq<u8>,
    nonce: Seq<u8>,
    ciphertext: Seq<u8>,
) -> Option<Seq<u8>>;

/// Whether `bytes` is the serialised form of a capsule fragment.
pub uninterp spec fn capsule_frag_bytes(bytes: Seq<u8>) -> bool;

/// The plaintext that the serialised capsule fragments `cfrags` recover
/// from `ciphertext` for the serialised secret key `receiving`, given the
/// serialised delegating public key and capsule; `None` when a value does
/// not deserialise or decryption fails.
pub uninterp spec fn reencrypted_plaintext(
    receiving: Seq<u8>,
    delegating: Seq<u8>,
    capsule: Seq<u8>,
    cfrags: Seq<Seq<u8>>,
    ciphertext: Seq<u8>,
) -> Option<Seq<u8>>;

/// Relies on `ChaCha20Rng::from_seed`: a generator seeded with `seed`.
#[verifier::external_body]
fn seeded_rng(seed: [u8; 32]) -> (r: rand_chacha::ChaCha20Rng) {
    rand_chacha::ChaCha20Rng::from_seed(seed)
}

/// Relies on `umbral_pre::SecretKey::random_with_rng`: a fresh secret key.
#[verifier::external_body]
fn random_secret_key(rng: &mut rand_chacha::ChaCha20Rng) -> (r: umbral_pre::SecretKey) {
    umbral_pre::SecretKey::random_with_rng(rng)
}

/// Relies on `umbral_pre::SecretKey::public_key`.
#[verifier::external_body]
fn public_key_of(secret: &umbral_pre::SecretKey) -> (r: umbral_pre::PublicKey) {
    secret.public_key()
}

/// Relies on `umbral_pre::Signer::new`: a signer for the key fragments.
#[verifier::external_body]
fn signer_of(secret: umbral_pre::SecretKey) -> (r: umbral_pre::Signer) {
    umbral_pre::Signer::new(secret)
}

/// Relies on `umbral_pre::encrypt_with_rng`: the capsule and the
/// ciphertext of `plaintext` under `public`. Its DEM fails only when the
/// XChaCha20-Poly1305 cipher refuses the length, and prepends a 24-byte
/// nonce to the ciphertext and its 16-byte tag.
#[verifier::external_body]
fn encrypt_under(
    rng: &mut rand_chacha::ChaCha20Rng,
    public: &umbral_pre::PublicKey,
    plaintext: &Vec<u8>,
) -> (r: Result<(umbral_pre::Capsule, Vec<u8>), umbral_pre::EncryptionError>)
    ensures
        plaintext@.len() < MAX_PLAINTEXT_LEN ==> r is Ok,
        r matches Ok(p) ==> p.1@.len() == plaintext@.len() + CIPHERTEXT_OVERHEAD,
{
    umbral_pre::encrypt_with_rng(rng, public, plaintext).map(|(c, ct)| (c, ct.into_vec()))
}

/// Relies on `umbral_pre::generate_kfrags_with_rng`, which returns one
/// key fragment for each of the `shares` requested.
#[verifier::external_body]
fn generate_key_frags(
    rng: &mut rand_chacha::ChaCha20Rng,
    delegating: &umbral_pre::SecretKey,
    receiving: &umbral_pre::PublicKey,
    signer: &umbral_pre::Signer,
    threshold: usize,
    shares: usize,
) -> (r: Vec<umbral_pre::VerifiedKeyFrag>)
    ensures
        r@.len() == shares,
{
    umbral_pre::generate_kfrags_with_rng(
        rng,
        delegating,
        receiving,
        signer,
        threshold,
        shares,
        true,
        true,
    ).into_vec()
}

/// Relies on `umbral_pre::reencrypt_with_rng`: the capsule fragment that
/// `kfrag` makes of `capsule`.
#[verifier::external_body]
fn reencrypt_capsule(
    rng: &mut rand_chacha::ChaCha20Rng,
    capsule: &umbral_pre::Capsule,
    kfrag: umbral_pre::VerifiedKeyFrag,
) -> (r: umbral_pre::VerifiedCapsuleFrag) {
    umbral_pre::reencrypt_with_rng(rng, capsule, kfrag)
}

/// Relies on `SerializableToArray::to_array` of `VerifiedCapsuleFrag`.
#[verifier::external_body]
fn capsule_frag_to_bytes(cfrag: &umbral_pre::VerifiedCapsuleFrag) -> (r: Vec<u8>) {
    cfrag.to_array().to_vec()
}

/// Relies on `SerializableToArray::to_array` of `Capsule`.
#[verifier::external_body]
fn capsule_to_bytes(capsule: &umbral_pre::Capsule) -> (r: Vec<u8>) {
    capsule.to_array().to_vec()
}

/// Relies on `SerializableToArray::to_array` of `PublicKey`.
#[verifier::external_body]
fn public_key_to_bytes(public: &umbral_pre::PublicKey) -> (r: Vec<u8>) {
    public.to_array().to_vec()
}

/// Relies on `umbral_pre::VerifiedCapsuleFrag::from_verified_bytes`,
/// whose outcome depends on the bytes alone.
#[verifier::external_body]
fn is_capsule_frag(bytes: &Vec<u8>) -> (r: bool)
    ensures
        r == capsule_frag_bytes(bytes@),
{
    umbral_pre::VerifiedCapsuleFrag::from_verified_bytes(bytes).is_ok()
}

/// Relies on `umbral_pre::decrypt_reencrypted`, on arguments read back
/// from their serialised forms with `DeserializableFromArray::from_bytes`
/// and `VerifiedCapsuleFrag::from_verified_bytes`. The outcome depends on
/// the bytes alone; an empty list of fragments fails.
#[verifier::external_body]
fn decrypt_reencrypted(
    receiving: &Vec<u8>,
    delegating: &Vec<u8>,
    capsule: &Vec<u8>,
    cfrags: &Vec<Vec<u8>>,
    ciphertext: &Vec<u8>,
) -> (r: Option<Vec<u8>>)
    ensures
        match r {
            Some(p) => reencrypted_plaintext(receiving@, delegating@, capsule@, bytes_view(cfrags@), ciphertext@) == Some(p@),
            None => reencrypted_plaintext(receiving@, delegating@, capsule@, bytes_view(cfrags@), ciphertext@) is None,
        },
        cfrags@.len() == 0 ==> r is None,
{
    let sk = umbral_pre::SecretKey::from_bytes(receiving).ok()?;
    let pk = umbral_pre::PublicKey::from_bytes(delegating).ok()?;
    let capsule = umbral_pre::Capsule::from_bytes(capsule).ok()?;
    let frags: Option<Vec<umbral_pre::VerifiedCapsuleFrag>> = cfrags.iter().map(
        |b| umbral_pre::VerifiedCapsuleFrag::from_verified_bytes(b).ok(),
    ).collect();
    umbral_pre::decrypt_reencrypted(&sk, &pk, &capsule, frags?, ciphertext).ok().map(|p| p.into_vec())
}

/// Relies on `crypto_box::SecretKey::public_key`: the X25519 public key.
#[verifier::external_body]
fn box_public_key(secret: &Vec<u8>) -> (r: Vec<u8>)
    requires
        secret@.len() == KEY_LEN,
    ensures
        r@ == x25519_public(secret@),
        r@.len() == KEY_LEN,
{
    let secret: [u8; 32] = secret.as_slice().try_into().unwrap();
    crypto_box::SecretKey::from(secret).public_key().as_bytes().to_vec()
}

/// Relies on `crypto_box::SalsaBox::new` and its `Aead::encrypt`, whose
/// outcome depends on the keys, the nonce and the plaintext alone. With
/// a `Vec` buffer and no associated data it always succeeds; the box is
/// the tag followed by as many bytes as the plaintext.
#[verifier::external_body]
fn box_seal(public: &Vec<u8>, secret: &Vec<u8>, nonce: &Vec<u8>, plaintext: &Vec<u8>) -> (r: Option<Vec<u8>>)
    requires
        public@.len() == KEY_LEN,
        secret@.len() == KEY_LEN,
        nonce@.len() == NONCE_LEN,
    ensures
        r is Some,
        r matches Some(b) ==> b@ == box_sealed(public@, secret@, nonce@, plaintext@) && b@.len()
            == plaintext@.len() + TAG_LEN,
{
    let public: [u8; 32] = public.as_slice().try_into().unwrap();
    let secret: [u8; 32] = secret.as_slice().try_into().unwrap();
    let salsa = crypto_box::SalsaBox::new(&public.into(), &secret.into());
    let nonce: [u8; 24] = nonce.as_slice().try_into().unwrap();
    salsa.encrypt(&nonce.into(), plaintext.as_slice()).ok()
}

/// Relies on `crypto_box::SalsaBox::new` and its `Aead::decrypt`, whose
/// outcome depends on the keys, the nonce and the ciphertext alone; a
/// ciphertext shorter than the tag is refused.
#[verifier::external_body]
fn box_open(public: &Vec<u8>, secret: &Vec<u8>, nonce: &Vec<u8>, ciphertext: &Vec<u8>) -> (r: Option<Vec<u8>>)
    requires
        public@.len() == KEY_LEN,
        secret@.len() == KEY_LEN,
        nonce@.len() == NONCE_LEN,
    ensures
        match r {
            Some(b) => box_opened(public@, secret@, nonce@, ciphertext@) == Some(b@),
            None => box_opened(public@, secret@, nonce@, ciphertext@) is None,
        },
        ciphertext@.len() < TAG_LEN ==> r is None,
{
    let public: [u8; 32] = public.as_slice().try_into().unwrap();
    let secret: [u8; 32] = secret.as_slice().try_into().unwrap();
    let salsa = crypto_box::SalsaBox::new(&public.into(), &secret.into());
    let nonce: [u8; 24] = nonce.as_slice().try_into().unwrap();
    salsa.decrypt(&nonce.into(), ciphertext.as_slice()).ok()
}

/// Failures of the re-encryption engine.
#[derive(PartialEq, Eq, Structural, Clone, Copy, Debug)]
pub enum PreError {
    /// the threshold is zero or larger than the number of shares
    InvalidThreshold,
    /// the payload is too large to encrypt
    EncryptionFailed,
    /// a key does not have the length of an X25519 key
    MalformedKey,
    /// a nonce does not have the length of an XSalsa20 nonce
    MalformedNonce,
    /// a sealed fragment failed authentication: tampered, or the wrong key
    DecryptionFailed,
    /// opened bytes are not a capsule fragment
    MalformedFragment,
    /// fewer fragments than the threshold were supplied
    InsufficientFragments,
    /// the fragments do not recombine to the key of the capsule, or a
    /// key or the capsule does not deserialise
    RecombinationFailed,
}

/// What a threshold encryption hands out, in serialised form: the
/// capsule bound to this encryption, the ciphertext, the public key of
/// the fresh key it was encrypted under, and one re-encrypted key
/// fragment for each share.
pub struct EncryptionResult {
    pub capsule: Vec<u8>,
    pub ciphertext: Vec<u8>,
    pub public_key: Vec<u8>,
    pub fragments: Vec<Vec<u8>>,
    pub threshold: usize,
}

/// Whether `threshold` out of `shares` is a meaningful split.
pub open spec fn valid_split(shares: usize, threshold: usize) -> bool {
    1 <= threshold <= shares
}

/// Encrypts `plaintext` under a fresh key drawn from `seed`, and splits
/// that key into `shares` fragments for the holder of `receiving`, of
/// which any `threshold` recombine it.
pub fn encrypt(
    seed: [u8; 32],
    plaintext: &Vec<u8>,
    shares: usize,
    threshold: usize,
    receiving: &umbral_pre::PublicKey,
) -> (r: Result<EncryptionResult, PreError>)
    ensures
        !valid_split(shares, threshold) <==> r == Err::<EncryptionResult, PreError>(
            PreError::InvalidThreshold,
        ),
        valid_split(shares, threshold) && plaintext@.len() < MAX_PLAINTEXT_LEN ==> r is Ok,
        r is Err ==> r == Err::<EncryptionResult, PreError>(PreError::InvalidThreshold) || r
            == Err::<EncryptionResult, PreError>(PreError::EncryptionFailed),
        r matches Ok(e) ==> e.fragments@.len() == shares && e.threshold == threshold
            && e.ciphertext@.len() == plaintext@.len() + CIPHERTEXT_OVERHEAD,
{
    if threshold == 0 || threshold > shares {
        return Err(PreError::InvalidThreshold);
    }
    let mut rng = seeded_rng(seed);
    let delegating = random_secret_key(&mut rng);
    let public_key = public_key_of(&delegating);
    let signer = signer_of(random_secret_key(&mut rng));
    let (capsule, ciphertext) = match encrypt_under(&mut rng, &public_key, plaintext) {
        Ok(pair) => pair,
        Err(_) => {
            return Err(PreError::EncryptionFailed);
        },
    };
    let mut kfrags = generate_key_frags(
        &mut rng,
        &delegating,
        receiving,
        &signer,
        threshold,
        shares,
    );
    let mut fragments: Vec<Vec<u8>> = Vec::new();
    while kfrags.len() > 0
        invariant
            fragments@.len() + kfrags@.len() == shares,
        decreases kfrags@.len(),
    {
        let kfrag = kfrags.remove(0);
        let cfrag = reencrypt_capsule(&mut rng, &capsule, kfrag);
        fragments.push(capsule_frag_to_bytes(&cfrag));
    }
    Ok(
        EncryptionResult {
            capsule: capsule_to_bytes(&capsule),
            ciphertext,
            public_key: public_key_to_bytes(&public_key),
            fragments,
            threshold,
        },
    )
}

/// What sealing `fragment` for `delegatee` with the ephemeral secret key
/// `ephemeral` and `nonce` yields.
pub open spec fn seal_outcome(
    fragment: Seq<u8>,
    delegatee: Seq<u8>,
    ephemeral: Seq<u8>,
    nonce: Seq<u8>,
) -> Result<EncryptedFragmentView, PreError> {
    if delegatee.len() != KEY_LEN || ephemeral.len() != KEY_LEN {
        Err(PreError::MalformedKey)
    } else if nonce.len() != NONCE_LEN {
        Err(PreError::MalformedNonce)
    } else {
        Ok(
            EncryptedFragmentView {
                public_key: x25519_public(ephemeral),
                nonce,
                ciphertext: box_sealed(delegatee, ephemeral, nonce, fragment),
            },
        )
    }
}

/// Seals the serialised capsule fragment `fragment` for the holder of
/// the X25519 public key `delegatee`, from the ephemeral secret key
/// `ephemeral`, which the caller discards afterwards.
pub fn delegate(
    fragment: &Vec<u8>,
    delegatee: &Vec<u8>,
    ephemeral: &Vec<u8>,
    nonce: &Vec<u8>,
) -> (r: Result<EncryptedFragment, PreError>)
    ensures
        match r {
            Ok(f) => seal_outcome(fragment@, delegatee@, ephemeral@, nonce@) == Ok::<
                EncryptedFragmentView,
                PreError,
            >(f@),
            Err(e) => seal_outcome(fragment@, delegatee@, ephemeral@, nonce@) == Err::<
                EncryptedFragmentView,
                PreError,
            >(e),
        },
        delegatee@.len() == KEY_LEN && ephemeral@.len() == KEY_LEN && nonce@.len() == NONCE_LEN
            ==> r is Ok,
        r matches Ok(f) ==> f.ciphertext@.len() == fragment@.len() + TAG_LEN,
{
    if delegatee.len() != KEY_LEN || ephemeral.len() != KEY_LEN {
        return Err(PreError::MalformedKey);
    }
    if nonce.len() != NONCE_LEN {
        return Err(PreError::MalformedNonce);
    }
    match box_seal(delegatee, ephemeral, nonce, fragment) {
        None => Err(PreError::EncryptionFailed),
        Some(ciphertext) => {
            let public_key = box_public_key(ephemeral);
            let nonce = crate::primitives::copy_bytes(nonce);
            Ok(EncryptedFragment { public_key, nonce, ciphertext })
        },
    }
}

/// What opening the sealed fragment `f` with the secret key `secret` yields.
pub open spec fn open_outcome(f: EncryptedFragmentView, secret: Seq<u8>) -> Result<
    Seq<u8>,
    PreError,
> {
    if f.public_key.len() != KEY_LEN || secret.len() != KEY_LEN {
        Err(PreError::MalformedKey)
    } else if f.nonce.len() != NONCE_LEN {
        Err(PreError::MalformedNonce)
    } else {
        match box_opened(f.public_key, secret, f.nonce, f.ciphertext) {
            None => Err(PreError::DecryptionFailed),
            Some(b) => Ok(b),
        }
    }
}

/// What decrypting the sealed fragment `f` with `secret` yields: the
/// opened bytes when they are a capsule fragment.
pub open spec fn fragment_outcome(f: EncryptedFragmentView, secret: Seq<u8>) -> Result<
    Seq<u8>,
    PreError,
> {
    match open_outcome(f, secret) {
        Err(e) => Err(e),
        Ok(b) => if capsule_frag_bytes(b) {
            Ok(b)
        } else {
            Err(PreError::MalformedFragment)
        },
    }
}

/// Opens a sealed fragment with the delegatee's X25519 secret key.
pub fn open_fragment(f: &EncryptedFragment, secret: &Vec<u8>) -> (r: Result<Vec<u8>, PreError>)
    ensures
        match r {
            Ok(b) => open_outcome(f@, secret@) == Ok::<Seq<u8>, PreError>(b@),
            Err(e) => open_outcome(f@, secret@) == Err::<Seq<u8>, PreError>(e),
        },
        f@.ciphertext.len() < TAG_LEN ==> r is Err,
{
    if f.public_key.len() != KEY_LEN || secret.len() != KEY_LEN {
        return Err(PreError::MalformedKey);
    }
    if f.nonce.len() != NONCE_LEN {
        return Err(PreError::MalformedNonce);
    }
    match box_open(&f.public_key, secret, &f.nonce, &f.ciphertext) {
        None => Err(PreError::DecryptionFailed),
        Some(b) => Ok(b),
    }
}

/// Recovers one serialised capsule fragment from its sealed form. Fails
/// when the authentication tag does not verify or the opened bytes are
/// not a capsule fragment.
pub fn decrypt_fragment(f: &EncryptedFragment, secret: &Vec<u8>) -> (r: Result<Vec<u8>, PreError>)
    ensures
        match r {
            Ok(b) => fragment_outcome(f@, secret@) == Ok::<Seq<u8>, PreError>(b@),
            Err(e) => fragment_outcome(f@, secret@) == Err::<Seq<u8>, PreError>(e),
        },
{
    let bytes = match open_fragment(f, secret) {
        Ok(b) => b,
        Err(e) => {
            return Err(e);
        },
    };
    if is_capsule_frag(&bytes) {
        Ok(bytes)
    } else {
        Err(PreError::MalformedFragment)
    }
}

/// Whether `supplied` fragments are too few to recombine a key split
/// with `threshold`.
pub open spec fn too_few(supplied: int, threshold: usize) -> bool {
    supplied < threshold || supplied == 0
}

/// What recombining the serialised fragments `cfrags` yields.
pub open spec fn recombine_outcome(
    receiving: Seq<u8>,
    delegating: Seq<u8>,
    capsule: Seq<u8>,
    threshold: usize,
    cfrags: Seq<Seq<u8>>,
    ciphertext: Seq<u8>,
) -> Result<Seq<u8>, PreError> {
    if too_few(cfrags.len() as int, threshold) {
        Err(PreError::InsufficientFragments)
    } else {
        match reencrypted_plaintext(receiving, delegating, capsule, cfrags, ciphertext) {
            Some(p) => Ok(p),
            None => Err(PreError::RecombinationFailed),
        }
    }
}

/// Recombines the serialised fragments of a capsule into its key and
/// decrypts the ciphertext with it; `receiving`, `delegating` and
/// `capsule` are serialised too. Fewer fragments than the threshold are
/// refused before any decryption is attempted.
pub fn recombine(
    receiving: &Vec<u8>,
    delegating: &Vec<u8>,
    capsule: &Vec<u8>,
    threshold: usize,
    fragments: &Vec<Vec<u8>>,
    ciphertext: &Vec<u8>,
) -> (r: Result<Vec<u8>, PreError>)
    ensures
        match r {
            Ok(p) => recombine_outcome(receiving@, delegating@, capsule@, threshold, bytes_view(fragments@), ciphertext@)
                == Ok::<Seq<u8>, PreError>(p@),
            Err(e) => recombine_outcome(receiving@, delegating@, capsule@, threshold, bytes_view(fragments@), ciphertext@)
                == Err::<Seq<u8>, PreError>(e),
        },
{
    if fragments.len() < threshold || fragments.len() == 0 {
        return Err(PreError::InsufficientFragments);
    }
    match decrypt_reencrypted(receiving, delegating, capsule, fragments, ciphertext) {
        Some(pt) => Ok(pt),
        None => Err(PreError::RecombinationFailed),
    }
}

} // verus!

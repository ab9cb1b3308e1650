//! Symmetric authenticated encryption: algorithm catalog, key objects,
//! AEAD seal/open with a fresh prepended nonce, password-based key
//! derivation, and constant-time comparison of secrets.

use vstd::prelude::*;
use zeroize::Zeroize;

verus! {

/// Errors of the symmetric data path.
#[derive(Debug)]
pub enum CryptoError {
    /// Encryption operation failed.
    EncryptionFailed,
    /// Decryption operation failed (bounds or tag mismatch).
    DecryptionFailed,
    /// Key has the wrong length for the algorithm.
    InvalidKeyLength,
    /// Nonce has the wrong format or length.
    InvalidNonce,
    /// Key derivation from a password failed.
    KeyDerivationFailed,
    /// The random source refused to produce bytes.
    RandomGenerationFailed,
    /// The requested algorithm is not in the catalog.
    UnsupportedAlgorithm(String),
}

/// The closed set of supported AEAD algorithms.
#[derive(Debug, Clone, Copy, PartialEq, Eq, Structural)]
pub enum Algorithm {
    /// AES-256 in GCM mode.
    Aes256Gcm,
    /// ChaCha20-Poly1305.
    ChaCha20Poly1305,
}

impl Algorithm {
    /// Key size in bytes, as a mathematical value.
    pub open spec fn spec_key_size(self) -> nat {
        32
    }

    /// Nonce size in bytes, as a mathematical value.
    pub open spec fn spec_nonce_size(self) -> nat {
        12
    }

    /// Tag size in bytes, as a mathematical value.
    pub open spec fn spec_tag_size(self) -> nat {
        16
    }

    /// Key size in bytes for this algorithm.
    pub fn key_size(&self) -> (n: usize)
        ensures
            n == self.spec_key_size(),
    {
        match self {
            Algorithm::Aes256Gcm => 32,
            Algorithm::ChaCha20Poly1305 => 32,
        }
    }

    /// Nonce size in bytes for this algorithm.
    pub fn nonce_size(&self) -> (n: usize)
        ensures
            n == self.spec_nonce_size(),
    {
        match self {
            Algorithm::Aes256Gcm => 12,
            Algorithm::ChaCha20Poly1305 => 12,
        }
    }

    /// Tag size in bytes for this algorithm.
    pub fn tag_size(&self) -> (n: usize)
        ensures
            n == self.spec_tag_size(),
    {
        match self {
            Algorithm::Aes256Gcm => 16,
            Algorithm::ChaCha20Poly1305 => 16,
        }
    }
}

/// What AES-256-GCM sealing returns for a key, nonce, associated data and
/// plaintext: ciphertext with the tag appended. The result depends on the
/// arguments alone.
pub uninterp spec fn aes_gcm_seal_bytes(
    key: Seq<u8>,
    nonce: Seq<u8>,
    aad: Seq<u8>,
    plaintext: Seq<u8>,
) -> Seq<u8>;

/// What AES-256-GCM opening returns: the plaintext when the tag
/// authenticates, nothing otherwise. The result depends on the arguments
/// alone.
pub uninterp spec fn aes_gcm_open_bytes(
    key: Seq<u8>,
    nonce: Seq<u8>,
    aad: Seq<u8>,
    ciphertext: Seq<u8>,
) -> Option<Seq<u8>>;

/// What ChaCha20-Poly1305 sealing returns; see `aes_gcm_seal_bytes`.
pub uninterp spec fn chacha_seal_bytes(
    key: Seq<u8>,
    nonce: Seq<u8>,
    aad: Seq<u8>,
    plaintext: Seq<u8>,
) -> Seq<u8>;

/// What ChaCha20-Poly1305 opening returns; see `aes_gcm_open_bytes`.
pub uninterp spec fn chacha_open_bytes(
    key: Seq<u8>,
    nonce: Seq<u8>,
    aad: Seq<u8>,
    ciphertext: Seq<u8>,
) -> Option<Seq<u8>>;

/// The derived key that PBKDF2-HMAC-SHA256 produces for a password, salt,
/// iteration count and output length. The result depends on the arguments
/// alone.
pub uninterp spec fn pbkdf2_hmac_sha256(
    password: Seq<u8>,
    salt: Seq<u8>,
    iterations: u32,
    out_len: nat,
) -> Seq<u8>;

/// Sealing under the given algorithm.
pub open spec fn seal_bytes(
    alg: Algorithm,
    key: Seq<u8>,
    nonce: Seq<u8>,
    aad: Seq<u8>,
    plaintext: Seq<u8>,
) -> Seq<u8> {
    match alg {
        Algorithm::Aes256Gcm => aes_gcm_seal_bytes(key, nonce, aad, plaintext),
        Algorithm::ChaCha20Poly1305 => chacha_seal_bytes(key, nonce, aad, plaintext),
    }
}

/// Opening under the given algorithm.
pub open spec fn open_bytes(
    alg: Algorithm,
    key: Seq<u8>,
    nonce: Seq<u8>,
    aad: Seq<u8>,
    ciphertext: Seq<u8>,
) -> Option<Seq<u8>> {
    match alg {
        Algorithm::Aes256Gcm => aes_gcm_open_bytes(key, nonce, aad, ciphertext),
        Algorithm::ChaCha20Poly1305 => chacha_open_bytes(key, nonce, aad, ciphertext),
    }
}

/// What `decrypt` recovers from an input of the form `nonce || sealed`:
/// the opened plaintext when the input is long enough and the tag
/// authenticates under the key and associated data, nothing otherwise.
pub open spec fn decrypt_bytes(
    alg: Algorithm,
    key: Seq<u8>,
    input: Seq<u8>,
    aad: Seq<u8>,
) -> Option<Seq<u8>> {
    if input.len() >= alg.spec_nonce_size() + alg.spec_tag_size() {
        open_bytes(
            alg,
            key,
            input.subrange(0, alg.spec_nonce_size() as int),
            aad,
            input.subrange(alg.spec_nonce_size() as int, input.len() as int),
        )
    } else {
        None
    }
}

#[verifier::external_type_specification]
#[verifier::external_body]
pub struct ExSystemRandom(ring::rand::SystemRandom);

pub assume_specification[ ring::rand::SystemRandom::new ]() -> ring::rand::SystemRandom;

/// Relies on ring::rand::SecureRandom::fill for SystemRandom: on success the
/// buffer holds `n` bytes from the system CSPRNG. Nothing is stated of the
/// bytes themselves.
#[verifier::external_body]
pub(crate) fn random_bytes(rng: &ring::rand::SystemRandom, n: usize) -> (r: Result<
    Vec<u8>,
    CryptoError,
>)
    ensures
        r matches Ok(v) ==> v@.len() == n,
        r matches Err(e) ==> e matches CryptoError::RandomGenerationFailed,
{
    let mut buf = vec![0u8; n];
    match ring::rand::SecureRandom::fill(rng, &mut buf) {
        Ok(()) => Ok(buf),
        Err(_) => Err(CryptoError::RandomGenerationFailed),
    }
}

/// Relies on ring::pbkdf2::derive with PBKDF2_HMAC_SHA256: fills a buffer of
/// `out_len` bytes with the derived key, which is a function of the password,
/// salt, iteration count and output length alone.
#[verifier::external_body]
fn pbkdf2_derive(password: &[u8], salt: &[u8], iterations: u32, out_len: usize) -> (r: Vec<u8>)
    requires
        iterations >= 1,
        out_len <= 64,
        password@.len() < 0x1000000000000,
        salt@.len() < 0x1000000000000,
    ensures
        r@ == pbkdf2_hmac_sha256(password@, salt@, iterations, out_len as nat),
        r@.len() == out_len,
{
    let mut out = vec![0u8; out_len];
    ring::pbkdf2::derive(
        ring::pbkdf2::PBKDF2_HMAC_SHA256,
        core::num::NonZeroU32::new(iterations).unwrap(),
        salt,
        password,
        &mut out,
    );
    out
}

/// Relies on ring::aead (UnboundKey, LessSafeKey::seal_in_place_append_tag,
/// Nonce::try_assume_unique_for_key) with AES_256_GCM: sealing appends a
/// 16-byte tag, the sealed bytes are a function of key, nonce, associated
/// data and plaintext alone, and opening them with the same parameters
/// yields the plaintext back.
#[verifier::external_body]
fn aes_gcm_seal(key: &[u8], nonce: &[u8], aad: &[u8], plaintext: &[u8]) -> (r: Result<
    Vec<u8>,
    CryptoError,
>)
    requires
        key@.len() == 32,
        nonce@.len() == 12,
    ensures
        r matches Ok(c) ==> c@ == aes_gcm_seal_bytes(key@, nonce@, aad@, plaintext@)
            && c@.len() == plaintext@.len() + 16
            && aes_gcm_open_bytes(key@, nonce@, aad@, c@) == Some(plaintext@),
        r matches Err(e) ==> e matches CryptoError::EncryptionFailed,
{
    let unbound = ring::aead::UnboundKey::new(&ring::aead::AES_256_GCM, key)
        .map_err(|_| CryptoError::EncryptionFailed)?;
    let sealing = ring::aead::LessSafeKey::new(unbound);
    let n = ring::aead::Nonce::try_assume_unique_for_key(nonce)
        .map_err(|_| CryptoError::EncryptionFailed)?;
    let mut data = plaintext.to_vec();
    sealing
        .seal_in_place_append_tag(n, ring::aead::Aad::from(aad), &mut data)
        .map_err(|_| CryptoError::EncryptionFailed)?;
    Ok(data)
}

/// Relies on ring::aead LessSafeKey::open_in_place with AES_256_GCM: opening
/// is a function of key, nonce, associated data and ciphertext alone; it
/// yields the plaintext exactly when the tag authenticates.
#[verifier::external_body]
fn aes_gcm_open(key: &[u8], nonce: &[u8], aad: &[u8], ciphertext: &[u8]) -> (r: Result<
    Vec<u8>,
    CryptoError,
>)
    requires
        key@.len() == 32,
        nonce@.len() == 12,
    ensures
        r matches Ok(p) ==> aes_gcm_open_bytes(key@, nonce@, aad@, ciphertext@) == Some(p@)
            && p@.len() + 16 == ciphertext@.len(),
        r matches Err(e) ==> e matches CryptoError::DecryptionFailed && aes_gcm_open_bytes(
            key@,
            nonce@,
            aad@,
            ciphertext@,
        ) is None,
{
    let unbound = ring::aead::UnboundKey::new(&ring::aead::AES_256_GCM, key)
        .map_err(|_| CryptoError::DecryptionFailed)?;
    let opening = ring::aead::LessSafeKey::new(unbound);
    let n = ring::aead::Nonce::try_assume_unique_for_key(nonce)
        .map_err(|_| CryptoError::DecryptionFailed)?;
    let mut data = ciphertext.to_vec();
    let plain = opening
        .open_in_place(n, ring::aead::Aad::from(aad), &mut data)
        .map_err(|_| CryptoError::DecryptionFailed)?;
    Ok(plain.to_vec())
}

/// Relies on ring::aead with CHACHA20_POLY1305; see `aes_gcm_seal`.
#[verifier::external_body]
fn chacha_seal(key: &[u8], nonce: &[u8], aad: &[u8], plaintext: &[u8]) -> (r: Result<
    Vec<u8>,
    CryptoError,
>)
    requires
        key@.len() == 32,
        nonce@.len() == 12,
    ensures
        r matches Ok(c) ==> c@ == chacha_seal_bytes(key@, nonce@, aad@, plaintext@)
            && c@.len() == plaintext@.len() + 16
            && chacha_open_bytes(key@, nonce@, aad@, c@) == Some(plaintext@),
        r matches Err(e) ==> e matches CryptoError::EncryptionFailed,
{
    let unbound = ring::aead::UnboundKey::new(&ring::aead::CHACHA20_POLY1305, key)
        .map_err(|_| CryptoError::EncryptionFailed)?;
    let sealing = ring::aead::LessSafeKey::new(unbound);
    let n = ring::aead::Nonce::try_assume_unique_for_key(nonce)
        .map_err(|_| CryptoError::EncryptionFailed)?;
    let mut data = plaintext.to_vec();
    sealing
        .seal_in_place_append_tag(n, ring::aead::Aad::from(aad), &mut data)
        .map_err(|_| CryptoError::EncryptionFailed)?;
    Ok(data)
}

/// Relies on ring::aead with CHACHA20_POLY1305; see `aes_gcm_open`.
#[verifier::external_body]
fn chacha_open(key: &[u8], nonce: &[u8], aad: &[u8], ciphertext: &[u8]) -> (r: Result<
    Vec<u8>,
    CryptoError,
>)
    requires
        key@.len() == 32,
        nonce@.len() == 12,
    ensures
        r matches Ok(p) ==> chacha_open_bytes(key@, nonce@, aad@, ciphertext@) == Some(p@)
            && p@.len() + 16 == ciphertext@.len(),
        r matches Err(e) ==> e matches CryptoError::DecryptionFailed && chacha_open_bytes(
            key@,
            nonce@,
            aad@,
            ciphertext@,
        ) is None,
{
    let unbound = ring::aead::UnboundKey::new(&ring::aead::CHACHA20_POLY1305, key)
        .map_err(|_| CryptoError::DecryptionFailed)?;
    let opening = ring::aead::LessSafeKey::new(unbound);
    let n = ring::aead::Nonce::try_assume_unique_for_key(nonce)
        .map_err(|_| CryptoError::DecryptionFailed)?;
    let mut data = ciphertext.to_vec();
    let plain = opening
        .open_in_place(n, ring::aead::Aad::from(aad), &mut data)
        .map_err(|_| CryptoError::DecryptionFailed)?;
    Ok(plain.to_vec())
}

/// A symmetric key bound to one AEAD algorithm.
pub struct CryptoKey {
    key: Vec<u8>,
    algorithm: Algorithm,
}

impl CryptoKey {
    /// The key has exactly the length its algorithm prescribes.
    pub open spec fn wf(self) -> bool {
        self.spec_key().len() == self.spec_algorithm().spec_key_size()
    }

    /// The key material, as a mathematical value.
    pub closed spec fn spec_key(self) -> Seq<u8> {
        self.key@
    }

    /// The algorithm, as a mathematical value.
    pub closed spec fn spec_algorithm(self) -> Algorithm {
        self.algorithm
    }

    /// Accepts the material exactly when its length matches the algorithm.
    pub fn new(key: Vec<u8>, algorithm: Algorithm) -> (r: Result<Self, CryptoError>)
        ensures
            r matches Ok(k) ==> k.wf() && k.spec_key() == key@ && k.spec_algorithm() == algorithm,
            r matches Err(e) ==> e matches CryptoError::InvalidKeyLength && key@.len()
                != algorithm.spec_key_size(),
            key@.len() == algorithm.spec_key_size() ==> r is Ok,
    {
        if key.len() != algorithm.key_size() {
            return Err(CryptoError::InvalidKeyLength);
        }
        Ok(Self { key, algorithm })
    }

    /// Generates a fresh key from the system random source.
    pub fn generate(algorithm: Algorithm) -> (r: Result<Self, CryptoError>)
        ensures
            r matches Ok(k) ==> k.wf() && k.spec_algorithm() == algorithm,
            r matches Err(e) ==> e matches CryptoError::RandomGenerationFailed,
    {
        let rng = ring::rand::SystemRandom::new();
        let key = random_bytes(&rng, algorithm.key_size())?;
        Ok(Self { key, algorithm })
    }

    /// Derives a key from a password with PBKDF2-HMAC-SHA256. The result is
    /// a function of the password, salt, iteration count and algorithm
    /// alone, so two calls with equal arguments yield byte-identical keys.
    pub fn derive_from_password(
        password: &[u8],
        salt: &[u8],
        iterations: u32,
        algorithm: Algorithm,
    ) -> (r: Result<Self, CryptoError>)
        ensures
            iterations == 0 ==> (r matches Err(e) && e matches CryptoError::KeyDerivationFailed),
            r matches Ok(k) ==> iterations >= 1 && k.wf() && k.spec_algorithm() == algorithm
                && k.spec_key() == pbkdf2_hmac_sha256(
                password@,
                salt@,
                iterations,
                algorithm.spec_key_size(),
            ),
            iterations >= 1 && password@.len() < 0x1000000000000 && salt@.len() < 0x1000000000000
                ==> r is Ok,
    {
        if iterations == 0 {
            return Err(CryptoError::KeyDerivationFailed);
        }
        if (password.len() as u64) >= 0x1000000000000u64 || (salt.len() as u64)
            >= 0x1000000000000u64 {
            return Err(CryptoError::KeyDerivationFailed);
        }
        let key = pbkdf2_derive(password, salt, iterations, algorithm.key_size());
        Ok(Self { key, algorithm })
    }

    /// The algorithm this key is for.
    pub fn algorithm(&self) -> (a: Algorithm)
        ensures
            a == self.spec_algorithm(),
    {
        self.algorithm
    }

    /// The raw key material.
    pub fn key(&self) -> (r: &[u8])
        ensures
            r@ == self.spec_key(),
    {
        self.key.as_slice()
    }

    /// The key length in bytes.
    pub fn key_len(&self) -> (n: usize)
        ensures
            n == self.spec_key().len(),
    {
        self.key.len()
    }
}

impl Drop for CryptoKey {
    /// Relies on zeroize::Zeroize for Vec<u8>: the key material is
    /// overwritten before the buffer is released.
    #[verifier::external_body]
    fn drop(&mut self)
        opens_invariants none
        no_unwind
    {
        self.key.zeroize();
    }
}

/// A handle over the process-wide random source that produces nonces.
pub struct NonceGenerator {
    rng: ring::rand::SystemRandom,
}

impl Default for NonceGenerator {
    /// A generator over the system random source.
    fn default() -> Self {
        Self::new()
    }
}

impl NonceGenerator {
    /// Creates a new nonce generator over the system random source.
    pub fn new() -> Self {
        Self { rng: ring::rand::SystemRandom::new() }
    }

    /// Samples a random nonce of the requested size.
    pub fn generate(&self, size: usize) -> (r: Result<Vec<u8>, CryptoError>)
        ensures
            r matches Ok(v) ==> v@.len() == size,
            r matches Err(e) ==> e matches CryptoError::RandomGenerationFailed,
    {
        random_bytes(&self.rng, size)
    }
}

/// A sealing context that yields its nonce exactly once: the first call to
/// `advance` hands the nonce out, every later call yields nothing.
pub struct SingleUseNonce {
    nonce: Option<Vec<u8>>,
}

impl SingleUseNonce {
    /// The nonce still held, as a mathematical value.
    pub closed spec fn spec_nonce(self) -> Option<Seq<u8>> {
        match self.nonce {
            Some(n) => Some(n@),
            None => None,
        }
    }

    /// Wraps a nonce for single use.
    pub fn new(nonce: Vec<u8>) -> (r: Self)
        ensures
            r.spec_nonce() == Some(nonce@),
    {
        Self { nonce: Some(nonce) }
    }

    /// Yields the nonce on the first call and nothing afterwards.
    pub fn advance(&mut self) -> (r: Option<Vec<u8>>)
        ensures
            final(self).spec_nonce() is None,
            match old(self).spec_nonce() {
                Some(n) => r matches Some(v) && v@ == n,
                None => r is None,
            },
    {
        self.nonce.take()
    }
}

/// Encrypts `plaintext` under `key`, authenticating `additional_data`, and
/// returns `nonce || sealed`, the nonce freshly sampled from the system
/// random source. Decrypting the result with the same key and associated
/// data yields the plaintext back.
pub fn encrypt(key: &CryptoKey, plaintext: &[u8], additional_data: &[u8]) -> (r: Result<
    Vec<u8>,
    CryptoError,
>)
    requires
        key.wf(),
    ensures
        r matches Ok(c) ==> c@.len() == key.spec_algorithm().spec_nonce_size() + plaintext@.len()
            + key.spec_algorithm().spec_tag_size() && decrypt_bytes(
            key.spec_algorithm(),
            key.spec_key(),
            c@,
            additional_data@,
        ) == Some(plaintext@),
        r matches Err(e) ==> e matches CryptoError::EncryptionFailed || e matches
            CryptoError::RandomGenerationFailed,
{
    let nonce_gen = NonceGenerator::new();
    let nonce_bytes = nonce_gen.generate(key.algorithm().nonce_size())?;
    let mut single = SingleUseNonce::new(nonce_bytes);
    let nonce = match single.advance() {
        Some(n) => n,
        None => {
            return Err(CryptoError::EncryptionFailed);
        },
    };
    let sealed = match key.algorithm() {
        Algorithm::Aes256Gcm => aes_gcm_seal(key.key(), nonce.as_slice(), additional_data, plaintext)?,
        Algorithm::ChaCha20Poly1305 => chacha_seal(
            key.key(),
            nonce.as_slice(),
            additional_data,
            plaintext,
        )?,
    };
    let ghost nonce_view = nonce@;
    let ghost sealed_view = sealed@;
    let mut output = nonce;
    let mut sealed_tail = sealed;
    output.append(&mut sealed_tail);
    proof {
        assert(output@ == nonce_view + sealed_view);
        assert(output@.subrange(0, 12) =~= nonce_view);
        assert(output@.subrange(12, output@.len() as int) =~= sealed_view);
    }
    Ok(output)
}

/// Decrypts an input of the form `nonce || sealed` under `key` and
/// `additional_data`: returns the plaintext exactly when the input is long
/// enough and the tag authenticates, and `DecryptionFailed` otherwise.
pub fn decrypt(key: &CryptoKey, ciphertext: &[u8], additional_data: &[u8]) -> (r: Result<
    Vec<u8>,
    CryptoError,
>)
    requires
        key.wf(),
    ensures
        r matches Ok(p) ==> decrypt_bytes(
            key.spec_algorithm(),
            key.spec_key(),
            ciphertext@,
            additional_data@,
        ) == Some(p@) && ciphertext@.len() == p@.len() + key.spec_algorithm().spec_nonce_size()
            + key.spec_algorithm().spec_tag_size(),
        r matches Err(e) ==> e matches CryptoError::DecryptionFailed && decrypt_bytes(
            key.spec_algorithm(),
            key.spec_key(),
            ciphertext@,
            additional_data@,
        ) is None,
{
    let nonce_size = key.algorithm().nonce_size();
    let tag_size = key.algorithm().tag_size();
    if ciphertext.len() < nonce_size + tag_size {
        return Err(CryptoError::DecryptionFailed);
    }
    let nonce: &[u8] = &ciphertext[0..nonce_size];
    let body: &[u8] = &ciphertext[nonce_size..ciphertext.len()];
    match key.algorithm() {
        Algorithm::Aes256Gcm => aes_gcm_open(key.key(), nonce, additional_data, body),
        Algorithm::ChaCha20Poly1305 => chacha_open(key.key(), nonce, additional_data, body),
    }
}

/// Generates a 32-byte random salt for key derivation.
pub fn generate_salt() -> (r: Result<Vec<u8>, CryptoError>)
    ensures
        r matches Ok(v) ==> v@.len() == 32,
        r matches Err(e) ==> e matches CryptoError::RandomGenerationFailed,
{
    let rng = ring::rand::SystemRandom::new();
    random_bytes(&rng, 32)
}

/// Compares two byte slices without an early return on mismatch: the
/// difference of every position is folded into one accumulator, and the
/// result is true exactly when the slices are equal.
pub fn secure_compare(a: &[u8], b: &[u8]) -> (r: bool)
    ensures
        r == (a@ == b@),
{
    if a.len() != b.len() {
        assert(a@ != b@);
        return false;
    }
    let mut result: u8 = 0;
    let mut i: usize = 0;
    while i < a.len()
        invariant
            i <= a@.len(),
            a@.len() == b@.len(),
            (result == 0) <==> (forall|j: int| 0 <= j < i ==> a@[j] == b@[j]),
        decreases a@.len() - i,
    {
        let x = a[i];
        let y = b[i];
        let d = x ^ y;
        proof {
            assert((x ^ y) == 0 <==> x == y) by (bit_vector);
            assert((result | d) == 0 <==> result == 0 && d == 0) by (bit_vector);
        }
        result = result | d;
        i += 1;
    }
    if result == 0 {
        proof {
            assert(a@ =~= b@);
        }
        true
    } else {
        proof {
            let j = choose|j: int| 0 <= j < a@.len() && a@[j] != b@[j];
            assert(a@[j] != b@[j]);
        }
        false
    }
}

} // verus!

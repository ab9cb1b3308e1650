//! Asymmetric keys: RSA and ECDSA generation, signing and verification
//! (direct and pre-hashed), PEM export of the public half, and ECDH key
//! agreement.

use vstd::prelude::*;
use vstd::string::{StrSliceExecFns, StringExecFns};
use crate::encoding::{b64_encode_of, base64_encode, chars_to_string, str_to_chars};
use pkcs8::DecodePrivateKey;
use spki::DecodePublicKey;
use zeroize::Zeroize;

verus! {

/// Errors of the asymmetric control path.
#[derive(Debug)]
pub enum KeyError {
    /// Key generation failed.
    GenerationFailed,
    /// Key bytes do not parse in the expected encoding.
    InvalidFormat,
    /// The requested algorithm is not supported for this operation.
    UnsupportedAlgorithm(String),
    /// Parsing a key pair from its serialized form failed.
    ParsingFailed,
    /// The signature does not verify.
    VerificationFailed,
}

/// The closed set of asymmetric algorithms.
#[derive(Debug, Clone, Copy, PartialEq, Eq, Structural)]
pub enum AsymmetricAlgorithm {
    /// RSA with a 2048-bit modulus, paired with SHA-256.
    Rsa2048,
    /// RSA with a 4096-bit modulus, paired with SHA-384.
    Rsa4096,
    /// ECDSA over P-256, paired with SHA-256.
    EcdsaP256,
    /// ECDSA over P-384, paired with SHA-384.
    EcdsaP384,
}

impl AsymmetricAlgorithm {
    /// The algorithm's name, as a mathematical value.
    pub open spec fn spec_name(self) -> Seq<char> {
        match self {
            AsymmetricAlgorithm::Rsa2048 => "RSA-2048"@,
            AsymmetricAlgorithm::Rsa4096 => "RSA-4096"@,
            AsymmetricAlgorithm::EcdsaP256 => "ECDSA-P256"@,
            AsymmetricAlgorithm::EcdsaP384 => "ECDSA-P384"@,
        }
    }

    /// The algorithm name as a string.
    pub fn as_str(&self) -> (r: &'static str)
        ensures
            r@ == self.spec_name(),
    {
        match self {
            AsymmetricAlgorithm::Rsa2048 => "RSA-2048",
            AsymmetricAlgorithm::Rsa4096 => "RSA-4096",
            AsymmetricAlgorithm::EcdsaP256 => "ECDSA-P256",
            AsymmetricAlgorithm::EcdsaP384 => "ECDSA-P384",
        }
    }
}

/// The SHA-256 digest of a byte sequence.
pub uninterp spec fn sha256_of(data: Seq<u8>) -> Seq<u8>;

/// The SHA-384 digest of a byte sequence.
pub uninterp spec fn sha384_of(data: Seq<u8>) -> Seq<u8>;

/// The SPKI DER encoding of the public half determined by an RSA private
/// key in PKCS#8 DER form.
pub uninterp spec fn rsa_spki_of(private_pkcs8: Seq<u8>) -> Seq<u8>;

/// The modulus size in bytes of an RSA private key in PKCS#8 DER form.
pub uninterp spec fn rsa_key_size_of(private_pkcs8: Seq<u8>) -> nat;

/// Whether the RSA private DER parses and PKCS#1 v1.5 signing over a
/// SHA-256 digest succeeds for it; a function of the key alone.
pub uninterp spec fn rsa_sha256_sign_accepts(private_pkcs8: Seq<u8>) -> bool;

/// As `rsa_sha256_sign_accepts`, for SHA-384 digests.
pub uninterp spec fn rsa_sha384_sign_accepts(private_pkcs8: Seq<u8>) -> bool;

/// The PKCS#1 v1.5 signature over the SHA-256 digest of the message:
/// deterministic in the private key and the message.
pub uninterp spec fn rsa_sha256_signature_of(private_pkcs8: Seq<u8>, message: Seq<u8>) -> Seq<u8>;

/// As `rsa_sha256_signature_of`, over SHA-384.
pub uninterp spec fn rsa_sha384_signature_of(private_pkcs8: Seq<u8>, message: Seq<u8>) -> Seq<u8>;

/// Whether the RSA private DER parses and the caller-computed digest fits
/// the modulus under PKCS#1 v1.5 padding, on the SHA-256 pairing.
pub uninterp spec fn rsa_sha256_prehash_accepts(private_pkcs8: Seq<u8>, hash: Seq<u8>) -> bool;

/// As `rsa_sha256_prehash_accepts`, on the SHA-384 pairing.
pub uninterp spec fn rsa_sha384_prehash_accepts(private_pkcs8: Seq<u8>, hash: Seq<u8>) -> bool;

/// The PKCS#1 v1.5 signature over a caller-computed digest, on the SHA-256
/// pairing: deterministic in the private key and the digest.
pub uninterp spec fn rsa_sha256_prehash_signature_of(
    private_pkcs8: Seq<u8>,
    hash: Seq<u8>,
) -> Seq<u8>;

/// As `rsa_sha256_prehash_signature_of`, on the SHA-384 pairing.
pub uninterp spec fn rsa_sha384_prehash_signature_of(
    private_pkcs8: Seq<u8>,
    hash: Seq<u8>,
) -> Seq<u8>;

/// Whether ECDH over P-256 accepts the inputs: the private PKCS#8 DER
/// parses and the peer bytes are a valid SEC1 point on the curve.
pub uninterp spec fn p256_agree_accepts(private_pkcs8: Seq<u8>, peer_sec1: Seq<u8>) -> bool;

/// As `p256_agree_accepts`, for P-384.
pub uninterp spec fn p384_agree_accepts(private_pkcs8: Seq<u8>, peer_sec1: Seq<u8>) -> bool;

/// Whether RSA PKCS#1 v1.5 verification over SHA-256 accepts the signature
/// for the message under the public key; parsing of the public key and
/// signature is part of the outcome.
pub uninterp spec fn rsa_sha256_verifies(
    public_spki: Seq<u8>,
    message: Seq<u8>,
    signature: Seq<u8>,
) -> bool;

/// As `rsa_sha256_verifies`, over SHA-384.
pub uninterp spec fn rsa_sha384_verifies(
    public_spki: Seq<u8>,
    message: Seq<u8>,
    signature: Seq<u8>,
) -> bool;

/// Whether RSA PKCS#1 v1.5 verification accepts the signature for a
/// caller-computed SHA-256 digest under the public key.
pub uninterp spec fn rsa_sha256_prehash_verifies(
    public_spki: Seq<u8>,
    hash: Seq<u8>,
    signature: Seq<u8>,
) -> bool;

/// As `rsa_sha256_prehash_verifies`, for the SHA-384 pairing.
pub uninterp spec fn rsa_sha384_prehash_verifies(
    public_spki: Seq<u8>,
    hash: Seq<u8>,
    signature: Seq<u8>,
) -> bool;

/// The uncompressed SEC1 public point determined by a P-256 private key in
/// PKCS#8 DER form.
pub uninterp spec fn p256_public_of(private_pkcs8: Seq<u8>) -> Seq<u8>;

/// As `p256_public_of`, for P-384.
pub uninterp spec fn p384_public_of(private_pkcs8: Seq<u8>) -> Seq<u8>;

/// Whether ECDSA P-256/SHA-256 verification accepts the ASN.1 signature for
/// the message under the SEC1 public key.
pub uninterp spec fn p256_verifies(public_sec1: Seq<u8>, message: Seq<u8>, signature: Seq<u8>) -> bool;

/// As `p256_verifies`, for P-384/SHA-384.
pub uninterp spec fn p384_verifies(public_sec1: Seq<u8>, message: Seq<u8>, signature: Seq<u8>) -> bool;

/// The ECDH shared secret over P-256 for a private key in PKCS#8 DER form
/// and a peer public key in SEC1 form.
pub uninterp spec fn p256_shared_of(private_pkcs8: Seq<u8>, peer_sec1: Seq<u8>) -> Seq<u8>;

/// As `p256_shared_of`, for P-384.
pub uninterp spec fn p384_shared_of(private_pkcs8: Seq<u8>, peer_sec1: Seq<u8>) -> Seq<u8>;

/// The public key bytes determined by a private key, per algorithm.
pub open spec fn public_of(alg: AsymmetricAlgorithm, private_pkcs8: Seq<u8>) -> Seq<u8> {
    match alg {
        AsymmetricAlgorithm::Rsa2048 => rsa_spki_of(private_pkcs8),
        AsymmetricAlgorithm::Rsa4096 => rsa_spki_of(private_pkcs8),
        AsymmetricAlgorithm::EcdsaP256 => p256_public_of(private_pkcs8),
        AsymmetricAlgorithm::EcdsaP384 => p384_public_of(private_pkcs8),
    }
}

/// Whether verification accepts the signature for the message, per
/// algorithm.
pub open spec fn signature_verifies(
    alg: AsymmetricAlgorithm,
    public_key: Seq<u8>,
    message: Seq<u8>,
    signature: Seq<u8>,
) -> bool {
    match alg {
        AsymmetricAlgorithm::Rsa2048 => rsa_sha256_verifies(public_key, message, signature),
        AsymmetricAlgorithm::Rsa4096 => rsa_sha384_verifies(public_key, message, signature),
        AsymmetricAlgorithm::EcdsaP256 => p256_verifies(public_key, message, signature),
        AsymmetricAlgorithm::EcdsaP384 => p384_verifies(public_key, message, signature),
    }
}

/// Whether pre-hash verification accepts the signature for the digest, per
/// algorithm. On the ECDSA paths the digest is treated as the message,
/// because the underlying primitive hashes again.
pub open spec fn prehash_signature_verifies(
    alg: AsymmetricAlgorithm,
    public_key: Seq<u8>,
    hash: Seq<u8>,
    signature: Seq<u8>,
) -> bool {
    match alg {
        AsymmetricAlgorithm::Rsa2048 => rsa_sha256_prehash_verifies(public_key, hash, signature),
        AsymmetricAlgorithm::Rsa4096 => rsa_sha384_prehash_verifies(public_key, hash, signature),
        AsymmetricAlgorithm::EcdsaP256 => p256_verifies(public_key, hash, signature),
        AsymmetricAlgorithm::EcdsaP384 => p384_verifies(public_key, hash, signature),
    }
}

/// The digest paired with the algorithm: SHA-256 for RSA-2048 and P-256,
/// SHA-384 for RSA-4096 and P-384.
pub open spec fn hash_of(alg: AsymmetricAlgorithm, data: Seq<u8>) -> Seq<u8> {
    match alg {
        AsymmetricAlgorithm::Rsa2048 => sha256_of(data),
        AsymmetricAlgorithm::EcdsaP256 => sha256_of(data),
        AsymmetricAlgorithm::Rsa4096 => sha384_of(data),
        AsymmetricAlgorithm::EcdsaP384 => sha384_of(data),
    }
}

/// Relies on sha2::Sha256 (Digest::digest): a 32-byte digest that is a
/// function of the input alone.
#[verifier::external_body]
fn sha256(data: &[u8]) -> (r: Vec<u8>)
    ensures
        r@ == sha256_of(data@),
        r@.len() == 32,
{
    let digest = <sha2::Sha256 as sha2::Digest>::digest(data);
    digest.to_vec()
}

/// Relies on sha2::Sha384 (Digest::digest): a 48-byte digest that is a
/// function of the input alone.
#[verifier::external_body]
fn sha384(data: &[u8]) -> (r: Vec<u8>)
    ensures
        r@ == sha384_of(data@),
        r@.len() == 48,
{
    let digest = <sha2::Sha384 as sha2::Digest>::digest(data);
    digest.to_vec()
}

/// Relies on rsa::RsaPrivateKey::new (random primes at the requested bit
/// size), RsaPublicKey::from, to_pkcs8_der and to_public_key_der: the SPKI
/// bytes encode the public half determined by the private DER, both DER
/// outputs are non-empty, the modulus has the requested size, and a key of
/// either supported size signs both digest pairings.
#[verifier::external_body]
fn rsa_generate(bits: usize) -> (r: Result<(Vec<u8>, Vec<u8>), KeyError>)
    requires
        bits == 2048 || bits == 4096,
    ensures
        r matches Ok(pair) ==> pair.1@ == rsa_spki_of(pair.0@) && pair.0@.len() > 0
            && pair.1@.len() > 0 && 8 * rsa_key_size_of(pair.0@) == bits && rsa_sha256_sign_accepts(
            pair.0@,
        ) && rsa_sha384_sign_accepts(pair.0@),
        r matches Err(e) ==> e matches KeyError::GenerationFailed,
{
    let mut rng = rand_core::OsRng;
    let private_key = rsa::RsaPrivateKey::new(&mut rng, bits).map_err(|_| KeyError::GenerationFailed)?;
    let public_key = rsa::RsaPublicKey::from(&private_key);
    let private_der = pkcs8::EncodePrivateKey::to_pkcs8_der(&private_key)
        .map_err(|_| KeyError::GenerationFailed)?;
    let public_der = spki::EncodePublicKey::to_public_key_der(&public_key)
        .map_err(|_| KeyError::GenerationFailed)?;
    Ok((private_der.as_bytes().to_vec(), public_der.to_vec()))
}

/// Relies on rsa pkcs1v15: RsaPrivateKey::from_pkcs8_der,
/// SigningKey::<Sha256>::new_unprefixed and try_sign_with_rng. The outcome
/// and the signature are functions of the key and message alone (the RNG
/// serves blinding only); the signature is one modulus in length and
/// verifies under the matching public key.
#[verifier::external_body]
fn rsa_sha256_sign(private_pkcs8: &[u8], data: &[u8]) -> (r: Result<Vec<u8>, KeyError>)
    ensures
        (r is Ok) <==> rsa_sha256_sign_accepts(private_pkcs8@),
        r matches Ok(s) ==> s@ == rsa_sha256_signature_of(private_pkcs8@, data@) && s@.len()
            == rsa_key_size_of(private_pkcs8@) && rsa_sha256_verifies(
            rsa_spki_of(private_pkcs8@),
            data@,
            s@,
        ),
        r matches Err(e) ==> (e matches KeyError::InvalidFormat || e matches
            KeyError::GenerationFailed),
{
    let private_key = rsa::RsaPrivateKey::from_pkcs8_der(private_pkcs8)
        .map_err(|_| KeyError::InvalidFormat)?;
    let signing_key = rsa::pkcs1v15::SigningKey::<sha2::Sha256>::new_unprefixed(private_key);
    let mut rng = rand_core::OsRng;
    let signature = rsa::signature::RandomizedSigner::try_sign_with_rng(&signing_key, &mut rng, data)
        .map_err(|_| KeyError::GenerationFailed)?;
    Ok(rsa::signature::SignatureEncoding::to_vec(&signature))
}

/// As `rsa_sha256_sign`, with SigningKey::<Sha384>.
#[verifier::external_body]
fn rsa_sha384_sign(private_pkcs8: &[u8], data: &[u8]) -> (r: Result<Vec<u8>, KeyError>)
    ensures
        (r is Ok) <==> rsa_sha384_sign_accepts(private_pkcs8@),
        r matches Ok(s) ==> s@ == rsa_sha384_signature_of(private_pkcs8@, data@) && s@.len()
            == rsa_key_size_of(private_pkcs8@) && rsa_sha384_verifies(
            rsa_spki_of(private_pkcs8@),
            data@,
            s@,
        ),
        r matches Err(e) ==> (e matches KeyError::InvalidFormat || e matches
            KeyError::GenerationFailed),
{
    let private_key = rsa::RsaPrivateKey::from_pkcs8_der(private_pkcs8)
        .map_err(|_| KeyError::InvalidFormat)?;
    let signing_key = rsa::pkcs1v15::SigningKey::<sha2::Sha384>::new_unprefixed(private_key);
    let mut rng = rand_core::OsRng;
    let signature = rsa::signature::RandomizedSigner::try_sign_with_rng(&signing_key, &mut rng, data)
        .map_err(|_| KeyError::GenerationFailed)?;
    Ok(rsa::signature::SignatureEncoding::to_vec(&signature))
}

/// Relies on rsa pkcs1v15: RsaPublicKey::from_public_key_der,
/// VerifyingKey::<Sha256>::new_unprefixed, Signature::try_from and
/// Verifier::verify. The outcome is a function of the public key, message
/// and signature alone.
#[verifier::external_body]
fn rsa_sha256_verify(public_spki: &[u8], data: &[u8], signature: &[u8]) -> (r: Result<
    (),
    KeyError,
>)
    ensures
        (r is Ok) <==> rsa_sha256_verifies(public_spki@, data@, signature@),
        r matches Err(e) ==> (e matches KeyError::InvalidFormat || e matches
            KeyError::VerificationFailed),
{
    let public_key = rsa::RsaPublicKey::from_public_key_der(public_spki)
        .map_err(|_| KeyError::InvalidFormat)?;
    let verifying_key = rsa::pkcs1v15::VerifyingKey::<sha2::Sha256>::new_unprefixed(public_key);
    let rsa_signature = rsa::pkcs1v15::Signature::try_from(signature)
        .map_err(|_| KeyError::InvalidFormat)?;
    rsa::signature::Verifier::verify(&verifying_key, data, &rsa_signature)
        .map_err(|_| KeyError::VerificationFailed)
}

/// As `rsa_sha256_verify`, with VerifyingKey::<Sha384>.
#[verifier::external_body]
fn rsa_sha384_verify(public_spki: &[u8], data: &[u8], signature: &[u8]) -> (r: Result<
    (),
    KeyError,
>)
    ensures
        (r is Ok) <==> rsa_sha384_verifies(public_spki@, data@, signature@),
        r matches Err(e) ==> (e matches KeyError::InvalidFormat || e matches
            KeyError::VerificationFailed),
{
    let public_key = rsa::RsaPublicKey::from_public_key_der(public_spki)
        .map_err(|_| KeyError::InvalidFormat)?;
    let verifying_key = rsa::pkcs1v15::VerifyingKey::<sha2::Sha384>::new_unprefixed(public_key);
    let rsa_signature = rsa::pkcs1v15::Signature::try_from(signature)
        .map_err(|_| KeyError::InvalidFormat)?;
    rsa::signature::Verifier::verify(&verifying_key, data, &rsa_signature)
        .map_err(|_| KeyError::VerificationFailed)
}

/// Relies on rsa pkcs1v15's PrehashSigner::sign_prehash with
/// SigningKey::<Sha256>: signs a caller-computed digest, deterministically
/// in the key and digest (no RNG at all); the signature is one modulus in
/// length and verifies under the matching public key through
/// verify_prehash.
#[verifier::external_body]
fn rsa_sha256_sign_prehash(private_pkcs8: &[u8], hash: &[u8]) -> (r: Result<Vec<u8>, KeyError>)
    ensures
        (r is Ok) <==> rsa_sha256_prehash_accepts(private_pkcs8@, hash@),
        r matches Ok(s) ==> s@ == rsa_sha256_prehash_signature_of(private_pkcs8@, hash@)
            && s@.len() == rsa_key_size_of(private_pkcs8@) && rsa_sha256_prehash_verifies(
            rsa_spki_of(private_pkcs8@),
            hash@,
            s@,
        ),
        r matches Err(e) ==> (e matches KeyError::InvalidFormat || e matches
            KeyError::GenerationFailed),
{
    let private_key = rsa::RsaPrivateKey::from_pkcs8_der(private_pkcs8)
        .map_err(|_| KeyError::InvalidFormat)?;
    let signing_key = rsa::pkcs1v15::SigningKey::<sha2::Sha256>::new_unprefixed(private_key);
    let signature = rsa::signature::hazmat::PrehashSigner::sign_prehash(&signing_key, hash)
        .map_err(|_| KeyError::GenerationFailed)?;
    Ok(rsa::signature::SignatureEncoding::to_vec(&signature))
}

/// As `rsa_sha256_sign_prehash`, with SigningKey::<Sha384>.
#[verifier::external_body]
fn rsa_sha384_sign_prehash(private_pkcs8: &[u8], hash: &[u8]) -> (r: Result<Vec<u8>, KeyError>)
    ensures
        (r is Ok) <==> rsa_sha384_prehash_accepts(private_pkcs8@, hash@),
        r matches Ok(s) ==> s@ == rsa_sha384_prehash_signature_of(private_pkcs8@, hash@)
            && s@.len() == rsa_key_size_of(private_pkcs8@) && rsa_sha384_prehash_verifies(
            rsa_spki_of(private_pkcs8@),
            hash@,
            s@,
        ),
        r matches Err(e) ==> (e matches KeyError::InvalidFormat || e matches
            KeyError::GenerationFailed),
{
    let private_key = rsa::RsaPrivateKey::from_pkcs8_der(private_pkcs8)
        .map_err(|_| KeyError::InvalidFormat)?;
    let signing_key = rsa::pkcs1v15::SigningKey::<sha2::Sha384>::new_unprefixed(private_key);
    let signature = rsa::signature::hazmat::PrehashSigner::sign_prehash(&signing_key, hash)
        .map_err(|_| KeyError::GenerationFailed)?;
    Ok(rsa::signature::SignatureEncoding::to_vec(&signature))
}

/// Relies on rsa pkcs1v15's PrehashVerifier::verify_prehash with
/// VerifyingKey::<Sha256>: the outcome is a function of the public key,
/// digest and signature alone.
#[verifier::external_body]
fn rsa_sha256_verify_prehash(public_spki: &[u8], hash: &[u8], signature: &[u8]) -> (r: Result<
    (),
    KeyError,
>)
    ensures
        (r is Ok) <==> rsa_sha256_prehash_verifies(public_spki@, hash@, signature@),
        r matches Err(e) ==> (e matches KeyError::InvalidFormat || e matches
            KeyError::VerificationFailed),
{
    let public_key = rsa::RsaPublicKey::from_public_key_der(public_spki)
        .map_err(|_| KeyError::InvalidFormat)?;
    let verifying_key = rsa::pkcs1v15::VerifyingKey::<sha2::Sha256>::new_unprefixed(public_key);
    let rsa_signature = rsa::pkcs1v15::Signature::try_from(signature)
        .map_err(|_| KeyError::InvalidFormat)?;
    rsa::signature::hazmat::PrehashVerifier::verify_prehash(&verifying_key, hash, &rsa_signature)
        .map_err(|_| KeyError::VerificationFailed)
}

/// As `rsa_sha256_verify_prehash`, with VerifyingKey::<Sha384>.
#[verifier::external_body]
fn rsa_sha384_verify_prehash(public_spki: &[u8], hash: &[u8], signature: &[u8]) -> (r: Result<
    (),
    KeyError,
>)
    ensures
        (r is Ok) <==> rsa_sha384_prehash_verifies(public_spki@, hash@, signature@),
        r matches Err(e) ==> (e matches KeyError::InvalidFormat || e matches
            KeyError::VerificationFailed),
{
    let public_key = rsa::RsaPublicKey::from_public_key_der(public_spki)
        .map_err(|_| KeyError::InvalidFormat)?;
    let verifying_key = rsa::pkcs1v15::VerifyingKey::<sha2::Sha384>::new_unprefixed(public_key);
    let rsa_signature = rsa::pkcs1v15::Signature::try_from(signature)
        .map_err(|_| KeyError::InvalidFormat)?;
    rsa::signature::hazmat::PrehashVerifier::verify_prehash(&verifying_key, hash, &rsa_signature)
        .map_err(|_| KeyError::VerificationFailed)
}

/// Relies on ring EcdsaKeyPair::generate_pkcs8 and from_pkcs8 with
/// ECDSA_P256_SHA256_ASN1_SIGNING, and KeyPair::public_key: the public key
/// bytes (an uncompressed SEC1 point) are determined by the PKCS#8
/// document.
#[verifier::external_body]
fn ecdsa_p256_generate(rng: &ring::rand::SystemRandom) -> (r: Result<(Vec<u8>, Vec<u8>), KeyError>)
    ensures
        r matches Ok(pair) ==> pair.1@ == p256_public_of(pair.0@) && pair.0@.len() > 0
            && pair.1@.len() > 0,
        r matches Err(e) ==> (e matches KeyError::GenerationFailed || e matches
            KeyError::ParsingFailed),
{
    let alg = &ring::signature::ECDSA_P256_SHA256_ASN1_SIGNING;
    let doc = ring::signature::EcdsaKeyPair::generate_pkcs8(alg, rng)
        .map_err(|_| KeyError::GenerationFailed)?;
    let pair = ring::signature::EcdsaKeyPair::from_pkcs8(alg, doc.as_ref(), rng)
        .map_err(|_| KeyError::ParsingFailed)?;
    let public = ring::signature::KeyPair::public_key(&pair).as_ref().to_vec();
    Ok((doc.as_ref().to_vec(), public))
}

/// As `ecdsa_p256_generate`, with ECDSA_P384_SHA384_ASN1_SIGNING.
#[verifier::external_body]
fn ecdsa_p384_generate(rng: &ring::rand::SystemRandom) -> (r: Result<(Vec<u8>, Vec<u8>), KeyError>)
    ensures
        r matches Ok(pair) ==> pair.1@ == p384_public_of(pair.0@) && pair.0@.len() > 0
            && pair.1@.len() > 0,
        r matches Err(e) ==> (e matches KeyError::GenerationFailed || e matches
            KeyError::ParsingFailed),
{
    let alg = &ring::signature::ECDSA_P384_SHA384_ASN1_SIGNING;
    let doc = ring::signature::EcdsaKeyPair::generate_pkcs8(alg, rng)
        .map_err(|_| KeyError::GenerationFailed)?;
    let pair = ring::signature::EcdsaKeyPair::from_pkcs8(alg, doc.as_ref(), rng)
        .map_err(|_| KeyError::ParsingFailed)?;
    let public = ring::signature::KeyPair::public_key(&pair).as_ref().to_vec();
    Ok((doc.as_ref().to_vec(), public))
}

/// Relies on ring EcdsaKeyPair::from_pkcs8 and sign with
/// ECDSA_P256_SHA256_ASN1_SIGNING: the signature is randomized, and it
/// verifies under the key pair's public key.
#[verifier::external_body]
fn ecdsa_p256_sign(private_pkcs8: &[u8], data: &[u8], rng: &ring::rand::SystemRandom) -> (r:
    Result<Vec<u8>, KeyError>)
    ensures
        r matches Ok(s) ==> p256_verifies(p256_public_of(private_pkcs8@), data@, s@),
        r matches Err(e) ==> (e matches KeyError::ParsingFailed || e matches
            KeyError::GenerationFailed),
{
    let alg = &ring::signature::ECDSA_P256_SHA256_ASN1_SIGNING;
    let pair = ring::signature::EcdsaKeyPair::from_pkcs8(alg, private_pkcs8, rng)
        .map_err(|_| KeyError::ParsingFailed)?;
    let sig = pair.sign(rng, data).map_err(|_| KeyError::GenerationFailed)?;
    Ok(sig.as_ref().to_vec())
}

/// As `ecdsa_p256_sign`, with ECDSA_P384_SHA384_ASN1_SIGNING.
#[verifier::external_body]
fn ecdsa_p384_sign(private_pkcs8: &[u8], data: &[u8], rng: &ring::rand::SystemRandom) -> (r:
    Result<Vec<u8>, KeyError>)
    ensures
        r matches Ok(s) ==> p384_verifies(p384_public_of(private_pkcs8@), data@, s@),
        r matches Err(e) ==> (e matches KeyError::ParsingFailed || e matches
            KeyError::GenerationFailed),
{
    let alg = &ring::signature::ECDSA_P384_SHA384_ASN1_SIGNING;
    let pair = ring::signature::EcdsaKeyPair::from_pkcs8(alg, private_pkcs8, rng)
        .map_err(|_| KeyError::ParsingFailed)?;
    let sig = pair.sign(rng, data).map_err(|_| KeyError::GenerationFailed)?;
    Ok(sig.as_ref().to_vec())
}

/// Relies on ring UnparsedPublicKey::verify with ECDSA_P256_SHA256_ASN1:
/// the outcome is a function of the public key, message and signature
/// alone.
#[verifier::external_body]
fn ecdsa_p256_verify(public_sec1: &[u8], data: &[u8], signature: &[u8]) -> (r: bool)
    ensures
        r == p256_verifies(public_sec1@, data@, signature@),
{
    let key = ring::signature::UnparsedPublicKey::new(
        &ring::signature::ECDSA_P256_SHA256_ASN1,
        public_sec1,
    );
    key.verify(data, signature).is_ok()
}

/// As `ecdsa_p256_verify`, with ECDSA_P384_SHA384_ASN1.
#[verifier::external_body]
fn ecdsa_p384_verify(public_sec1: &[u8], data: &[u8], signature: &[u8]) -> (r: bool)
    ensures
        r == p384_verifies(public_sec1@, data@, signature@),
{
    let key = ring::signature::UnparsedPublicKey::new(
        &ring::signature::ECDSA_P384_SHA384_ASN1,
        public_sec1,
    );
    key.verify(data, signature).is_ok()
}

/// Relies on p256 SecretKey::from_pkcs8_der, PublicKey::from_sec1_bytes and
/// elliptic_curve::ecdh::diffie_hellman: the 32 shared-secret bytes are the
/// affine X coordinate of the peer point multiplied by the private scalar,
/// so the two sides of one exchange compute the same bytes.
#[verifier::external_body]
fn p256_agree(private_pkcs8: &[u8], peer_sec1: &[u8]) -> (r: Result<Vec<u8>, KeyError>)
    ensures
        (r is Ok) <==> p256_agree_accepts(private_pkcs8@, peer_sec1@),
        r matches Ok(s) ==> s@ == p256_shared_of(private_pkcs8@, peer_sec1@) && s@.len() == 32 && (
        forall|other: Seq<u8>|
            peer_sec1@ == #[trigger] p256_public_of(other) ==> s@ == p256_shared_of(
                other,
                p256_public_of(private_pkcs8@),
            )),
        r matches Err(e) ==> e matches KeyError::InvalidFormat,
{
    let secret_key = p256::SecretKey::from_pkcs8_der(private_pkcs8)
        .map_err(|_| KeyError::InvalidFormat)?;
    let peer_public = p256::PublicKey::from_sec1_bytes(peer_sec1)
        .map_err(|_| KeyError::InvalidFormat)?;
    let shared = elliptic_curve::ecdh::diffie_hellman(
        secret_key.to_nonzero_scalar(),
        peer_public.as_affine(),
    );
    Ok(shared.raw_secret_bytes().to_vec())
}

/// As `p256_agree`, over P-384 with 48 shared-secret bytes.
#[verifier::external_body]
fn p384_agree(private_pkcs8: &[u8], peer_sec1: &[u8]) -> (r: Result<Vec<u8>, KeyError>)
    ensures
        (r is Ok) <==> p384_agree_accepts(private_pkcs8@, peer_sec1@),
        r matches Ok(s) ==> s@ == p384_shared_of(private_pkcs8@, peer_sec1@) && s@.len() == 48 && (
        forall|other: Seq<u8>|
            peer_sec1@ == #[trigger] p384_public_of(other) ==> s@ == p384_shared_of(
                other,
                p384_public_of(private_pkcs8@),
            )),
        r matches Err(e) ==> e matches KeyError::InvalidFormat,
{
    let secret_key = p384::SecretKey::from_pkcs8_der(private_pkcs8)
        .map_err(|_| KeyError::InvalidFormat)?;
    let peer_public = p384::PublicKey::from_sec1_bytes(peer_sec1)
        .map_err(|_| KeyError::InvalidFormat)?;
    let shared = elliptic_curve::ecdh::diffie_hellman(
        secret_key.to_nonzero_scalar(),
        peer_public.as_affine(),
    );
    Ok(shared.raw_secret_bytes().to_vec())
}

/// A private/public key pair tagged with its algorithm. The private half is
/// PKCS#8 DER; the public half is SPKI DER for RSA and an uncompressed SEC1
/// point for ECDSA.
pub struct AsymmetricKey {
    /// Algorithm of the pair.
    pub algorithm: AsymmetricAlgorithm,
    private_key: Vec<u8>,
    public_key: Vec<u8>,
}

impl AsymmetricKey {
    /// The private key bytes, as a mathematical value.
    pub closed spec fn spec_private(self) -> Seq<u8> {
        self.private_key@
    }

    /// The public key bytes, as a mathematical value.
    pub closed spec fn spec_public(self) -> Seq<u8> {
        self.public_key@
    }

    /// The algorithm, as a mathematical value.
    pub closed spec fn spec_algorithm(self) -> AsymmetricAlgorithm {
        self.algorithm
    }

    /// The public half is the one determined by the private half, and an
    /// RSA key has the modulus size its tag names.
    pub open spec fn wf(self) -> bool {
        &&& self.spec_public() == public_of(self.spec_algorithm(), self.spec_private())
        &&& (self.spec_algorithm() matches AsymmetricAlgorithm::Rsa2048 ==> rsa_key_size_of(
            self.spec_private(),
        ) == 256 && rsa_sha256_sign_accepts(self.spec_private()))
        &&& (self.spec_algorithm() matches AsymmetricAlgorithm::Rsa4096 ==> rsa_key_size_of(
            self.spec_private(),
        ) == 512 && rsa_sha384_sign_accepts(self.spec_private()))
    }

    /// Generates a fresh key pair for the algorithm; both halves are
    /// non-empty DER encodings.
    pub fn generate(algorithm: AsymmetricAlgorithm) -> (r: Result<Self, KeyError>)
        ensures
            r matches Ok(k) ==> k.wf() && k.spec_algorithm() == algorithm && k.spec_private().len()
                > 0 && k.spec_public().len() > 0,
            r matches Err(e) ==> (e matches KeyError::GenerationFailed || e matches
                KeyError::ParsingFailed),
    {
        match algorithm {
            AsymmetricAlgorithm::Rsa2048 => {
                let (private_key, public_key) = rsa_generate(2048)?;
                Ok(Self { algorithm, private_key, public_key })
            },
            AsymmetricAlgorithm::Rsa4096 => {
                let (private_key, public_key) = rsa_generate(4096)?;
                Ok(Self { algorithm, private_key, public_key })
            },
            AsymmetricAlgorithm::EcdsaP256 => {
                let rng = ring::rand::SystemRandom::new();
                let (private_key, public_key) = ecdsa_p256_generate(&rng)?;
                Ok(Self { algorithm, private_key, public_key })
            },
            AsymmetricAlgorithm::EcdsaP384 => {
                let rng = ring::rand::SystemRandom::new();
                let (private_key, public_key) = ecdsa_p384_generate(&rng)?;
                Ok(Self { algorithm, private_key, public_key })
            },
        }
    }

    /// The private key bytes (PKCS#8 DER).
    pub fn private_key_bytes(&self) -> (r: &[u8])
        ensures
            r@ == self.spec_private(),
    {
        self.private_key.as_slice()
    }

    /// The public key bytes.
    pub fn public_key_bytes(&self) -> (r: &[u8])
        ensures
            r@ == self.spec_public(),
    {
        self.public_key.as_slice()
    }

    /// Signs `data`; the produced signature verifies under this key's
    /// public half. On the RSA paths signing always succeeds for a
    /// well-formed key and the signature is deterministic, one modulus in
    /// length; on the ECDSA paths the signature is randomized.
    pub fn sign(&self, data: &[u8]) -> (r: Result<Vec<u8>, KeyError>)
        requires
            self.wf(),
        ensures
            r matches Ok(s) ==> signature_verifies(self.spec_algorithm(), self.spec_public(), data@, s@),
            self.spec_algorithm() matches AsymmetricAlgorithm::Rsa2048 ==> r matches Ok(s) && s@
                == rsa_sha256_signature_of(self.spec_private(), data@) && s@.len() == 256,
            self.spec_algorithm() matches AsymmetricAlgorithm::Rsa4096 ==> r matches Ok(s) && s@
                == rsa_sha384_signature_of(self.spec_private(), data@) && s@.len() == 512,
            r matches Err(e) ==> (e matches KeyError::InvalidFormat || e matches
                KeyError::GenerationFailed || e matches KeyError::ParsingFailed),
    {
        match self.algorithm {
            AsymmetricAlgorithm::Rsa2048 => rsa_sha256_sign(self.private_key.as_slice(), data),
            AsymmetricAlgorithm::Rsa4096 => rsa_sha384_sign(self.private_key.as_slice(), data),
            AsymmetricAlgorithm::EcdsaP256 => {
                let rng = ring::rand::SystemRandom::new();
                ecdsa_p256_sign(self.private_key.as_slice(), data, &rng)
            },
            AsymmetricAlgorithm::EcdsaP384 => {
                let rng = ring::rand::SystemRandom::new();
                ecdsa_p384_sign(self.private_key.as_slice(), data, &rng)
            },
        }
    }

    /// Verifies a signature over `data`: succeeds exactly when the
    /// algorithm's verification accepts it under this key's public half.
    pub fn verify(&self, data: &[u8], signature: &[u8]) -> (r: Result<(), KeyError>)
        ensures
            (r is Ok) <==> signature_verifies(
                self.spec_algorithm(),
                self.spec_public(),
                data@,
                signature@,
            ),
            r matches Err(e) ==> (e matches KeyError::InvalidFormat || e matches
                KeyError::VerificationFailed),
    {
        match self.algorithm {
            AsymmetricAlgorithm::Rsa2048 => rsa_sha256_verify(
                self.public_key.as_slice(),
                data,
                signature,
            ),
            AsymmetricAlgorithm::Rsa4096 => rsa_sha384_verify(
                self.public_key.as_slice(),
                data,
                signature,
            ),
            AsymmetricAlgorithm::EcdsaP256 => {
                if ecdsa_p256_verify(self.public_key.as_slice(), data, signature) {
                    Ok(())
                } else {
                    Err(KeyError::VerificationFailed)
                }
            },
            AsymmetricAlgorithm::EcdsaP384 => {
                if ecdsa_p384_verify(self.public_key.as_slice(), data, signature) {
                    Ok(())
                } else {
                    Err(KeyError::VerificationFailed)
                }
            },
        }
    }

    /// The digest of `data` under the hash paired with this algorithm.
    pub fn compute_hash(&self, data: &[u8]) -> (r: Vec<u8>)
        ensures
            r@ == hash_of(self.spec_algorithm(), data@),
            (self.spec_algorithm() matches AsymmetricAlgorithm::Rsa2048 || self.spec_algorithm() matches
                AsymmetricAlgorithm::EcdsaP256) ==> r@.len() == 32,
            (self.spec_algorithm() matches AsymmetricAlgorithm::Rsa4096 || self.spec_algorithm() matches
                AsymmetricAlgorithm::EcdsaP384) ==> r@.len() == 48,
    {
        match self.algorithm {
            AsymmetricAlgorithm::Rsa2048 => sha256(data),
            AsymmetricAlgorithm::EcdsaP256 => sha256(data),
            AsymmetricAlgorithm::Rsa4096 => sha384(data),
            AsymmetricAlgorithm::EcdsaP384 => sha384(data),
        }
    }

    /// The name of the hash paired with this algorithm.
    pub fn hash_algorithm(&self) -> (r: &'static str)
        ensures
            (self.spec_algorithm() matches AsymmetricAlgorithm::Rsa2048 || self.spec_algorithm() matches
                AsymmetricAlgorithm::EcdsaP256) ==> r@ == "SHA-256"@,
            (self.spec_algorithm() matches AsymmetricAlgorithm::Rsa4096 || self.spec_algorithm() matches
                AsymmetricAlgorithm::EcdsaP384) ==> r@ == "SHA-384"@,
    {
        match self.algorithm {
            AsymmetricAlgorithm::Rsa2048 => "SHA-256",
            AsymmetricAlgorithm::EcdsaP256 => "SHA-256",
            AsymmetricAlgorithm::Rsa4096 => "SHA-384",
            AsymmetricAlgorithm::EcdsaP384 => "SHA-384",
        }
    }

    /// Signs a caller-computed digest. On the RSA paths the digest is
    /// signed as such, deterministically, succeeding exactly when the
    /// digest fits the modulus under the padding; on the ECDSA paths the
    /// digest is treated as the message and hashed again by the primitive.
    pub fn sign_hash(&self, hash: &[u8]) -> (r: Result<Vec<u8>, KeyError>)
        requires
            self.wf(),
        ensures
            r matches Ok(s) ==> prehash_signature_verifies(
                self.spec_algorithm(),
                self.spec_public(),
                hash@,
                s@,
            ),
            self.spec_algorithm() matches AsymmetricAlgorithm::Rsa2048 ==> ((r is Ok)
                <==> rsa_sha256_prehash_accepts(self.spec_private(), hash@)) && (r matches Ok(s)
                ==> s@ == rsa_sha256_prehash_signature_of(self.spec_private(), hash@) && s@.len()
                == 256),
            self.spec_algorithm() matches AsymmetricAlgorithm::Rsa4096 ==> ((r is Ok)
                <==> rsa_sha384_prehash_accepts(self.spec_private(), hash@)) && (r matches Ok(s)
                ==> s@ == rsa_sha384_prehash_signature_of(self.spec_private(), hash@) && s@.len()
                == 512),
            r matches Err(e) ==> (e matches KeyError::InvalidFormat || e matches
                KeyError::GenerationFailed || e matches KeyError::ParsingFailed),
    {
        match self.algorithm {
            AsymmetricAlgorithm::Rsa2048 => rsa_sha256_sign_prehash(
                self.private_key.as_slice(),
                hash,
            ),
            AsymmetricAlgorithm::Rsa4096 => rsa_sha384_sign_prehash(
                self.private_key.as_slice(),
                hash,
            ),
            AsymmetricAlgorithm::EcdsaP256 => {
                let rng = ring::rand::SystemRandom::new();
                ecdsa_p256_sign(self.private_key.as_slice(), hash, &rng)
            },
            AsymmetricAlgorithm::EcdsaP384 => {
                let rng = ring::rand::SystemRandom::new();
                ecdsa_p384_sign(self.private_key.as_slice(), hash, &rng)
            },
        }
    }

    /// Verifies a signature against a caller-computed digest, symmetric to
    /// `sign_hash`.
    pub fn verify_hash(&self, hash: &[u8], signature: &[u8]) -> (r: Result<(), KeyError>)
        ensures
            (r is Ok) <==> prehash_signature_verifies(
                self.spec_algorithm(),
                self.spec_public(),
                hash@,
                signature@,
            ),
            r matches Err(e) ==> (e matches KeyError::InvalidFormat || e matches
                KeyError::VerificationFailed),
    {
        match self.algorithm {
            AsymmetricAlgorithm::Rsa2048 => rsa_sha256_verify_prehash(
                self.public_key.as_slice(),
                hash,
                signature,
            ),
            AsymmetricAlgorithm::Rsa4096 => rsa_sha384_verify_prehash(
                self.public_key.as_slice(),
                hash,
                signature,
            ),
            AsymmetricAlgorithm::EcdsaP256 => {
                if ecdsa_p256_verify(self.public_key.as_slice(), hash, signature) {
                    Ok(())
                } else {
                    Err(KeyError::VerificationFailed)
                }
            },
            AsymmetricAlgorithm::EcdsaP384 => {
                if ecdsa_p384_verify(self.public_key.as_slice(), hash, signature) {
                    Ok(())
                } else {
                    Err(KeyError::VerificationFailed)
                }
            },
        }
    }
}

impl Drop for AsymmetricKey {
    /// Relies on zeroize::Zeroize for Vec<u8>: the private half is
    /// overwritten before the buffer is released.
    #[verifier::external_body]
    fn drop(&mut self)
        opens_invariants none
        no_unwind
    {
        self.private_key.zeroize();
    }
}

/// Base64 text broken into lines of at most 64 characters.
pub open spec fn wrap64(s: Seq<char>) -> Seq<char>
    decreases s.len(),
{
    if s.len() <= 64 {
        s
    } else {
        s.subrange(0, 64) + seq!['\n'] + wrap64(s.subrange(64, s.len() as int))
    }
}

/// The PEM armor around base64 text wrapped at 64 columns, with no newline
/// after the footer.
pub open spec fn pem_of(b64: Seq<char>) -> Seq<char> {
    "-----BEGIN PUBLIC KEY-----\n"@ + wrap64(b64) + "\n-----END PUBLIC KEY-----"@
}

impl AsymmetricKey {
    /// The public key as standard PEM: `PUBLIC KEY` armor around the
    /// base64-encoded bytes, wrapped at 64 columns.
    pub fn public_key_pem(&self) -> (r: String)
        ensures
            r@ == pem_of(b64_encode_of(self.spec_public())),
    {
        let b64 = base64_encode(self.public_key.as_slice());
        let chars = str_to_chars(b64.as_str());
        let ghost full = chars@;
        let mut out = String::new();
        out.append("-----BEGIN PUBLIC KEY-----\n");
        let ghost header = "-----BEGIN PUBLIC KEY-----\n"@;
        let ghost mut built: Seq<char> = Seq::empty();
        proof {
            assert(full.subrange(0, full.len() as int) =~= full);
            assert(wrap64(full) =~= built + wrap64(full.subrange(0, full.len() as int)));
        }
        let mut i: usize = 0;
        while chars.len() - i > 64
            invariant
                i <= chars@.len(),
                chars@ == full,
                out@ == header + built,
                wrap64(full) == built + wrap64(full.subrange(i as int, full.len() as int)),
            decreases chars@.len() - i,
        {
            let chunk = chars_to_string(&chars.as_slice()[i..i + 64]);
            out.append(chunk.as_str());
            out.append("\n");
            proof {
                reveal_strlit("\n");
                let rest = full.subrange(i as int, full.len() as int);
                assert(rest.len() > 64);
                assert(rest.subrange(0, 64) =~= full.subrange(i as int, i + 64));
                assert(rest.subrange(64, rest.len() as int) =~= full.subrange(
                    i + 64,
                    full.len() as int,
                ));
                built = built + full.subrange(i as int, i + 64) + seq!['\n'];
                assert("\n"@ =~= seq!['\n']);
                assert(out@ =~= header + built);
                assert(wrap64(full) =~= built + wrap64(full.subrange(i + 64, full.len() as int)));
            }
            i += 64;
        }
        let tail = chars_to_string(&chars.as_slice()[i..chars.len()]);
        out.append(tail.as_str());
        out.append("\n-----END PUBLIC KEY-----");
        proof {
            let rest = full.subrange(i as int, full.len() as int);
            assert(rest.len() <= 64);
            assert(wrap64(rest) == rest);
            assert(out@ =~= pem_of(full));
        }
        out
    }
}

/// ECDH key agreement derived from an EC key pair; holds a copy of the
/// private key DER.
pub struct KeyAgreement {
    algorithm: AsymmetricAlgorithm,
    private_key: Vec<u8>,
}

impl KeyAgreement {
    /// The algorithm, as a mathematical value.
    pub closed spec fn spec_algorithm(self) -> AsymmetricAlgorithm {
        self.algorithm
    }

    /// The private key bytes, as a mathematical value.
    pub closed spec fn spec_private(self) -> Seq<u8> {
        self.private_key@
    }

    /// Accepts exactly the ECDSA keys; RSA keys are refused as unsupported.
    pub fn from_key(key: &AsymmetricKey) -> (r: Result<Self, KeyError>)
        ensures
            (key.spec_algorithm() matches AsymmetricAlgorithm::EcdsaP256 || key.spec_algorithm() matches
                AsymmetricAlgorithm::EcdsaP384) ==> (r matches Ok(a) && a.spec_algorithm()
                == key.spec_algorithm() && a.spec_private() == key.spec_private()),
            (key.spec_algorithm() matches AsymmetricAlgorithm::Rsa2048 || key.spec_algorithm() matches
                AsymmetricAlgorithm::Rsa4096) ==> (r matches Err(e) && e matches
                KeyError::UnsupportedAlgorithm(_)),
    {
        match key.algorithm {
            AsymmetricAlgorithm::EcdsaP256 | AsymmetricAlgorithm::EcdsaP384 => {
                let mut private_copy: Vec<u8> = Vec::new();
                let mut i: usize = 0;
                let source = key.private_key_bytes();
                while i < source.len()
                    invariant
                        i <= source@.len(),
                        private_copy@ == source@.subrange(0, i as int),
                    decreases source@.len() - i,
                {
                    private_copy.push(source[i]);
                    proof {
                        assert(private_copy@ =~= source@.subrange(0, (i + 1) as int));
                    }
                    i += 1;
                }
                proof {
                    assert(private_copy@ =~= source@);
                }
                Ok(KeyAgreement { algorithm: key.algorithm, private_key: private_copy })
            },
            _ => Err(
                KeyError::UnsupportedAlgorithm(String::from_str("Key agreement requires ECDSA keys")),
            ),
        }
    }

    /// Computes the ECDH shared secret with a peer public key in SEC1 form:
    /// it succeeds exactly when the private key and the peer point parse,
    /// and fails with `InvalidFormat` otherwise. The secret is a function
    /// of the private key and the peer point; when the peer point is the
    /// public half of another private key, both sides compute the same
    /// bytes.
    pub fn agree(&self, peer_public_key: &[u8]) -> (r: Result<Vec<u8>, KeyError>)
        ensures
            self.spec_algorithm() matches AsymmetricAlgorithm::EcdsaP256 ==> ((r is Ok)
                <==> p256_agree_accepts(self.spec_private(), peer_public_key@)) && (r matches Err(e)
                ==> e matches KeyError::InvalidFormat),
            self.spec_algorithm() matches AsymmetricAlgorithm::EcdsaP384 ==> ((r is Ok)
                <==> p384_agree_accepts(self.spec_private(), peer_public_key@)) && (r matches Err(e)
                ==> e matches KeyError::InvalidFormat),
            self.spec_algorithm() matches AsymmetricAlgorithm::EcdsaP256 ==> (r matches Ok(s) ==> s@
                == p256_shared_of(self.spec_private(), peer_public_key@) && s@.len() == 32 && (
            forall|other: Seq<u8>|
                peer_public_key@ == #[trigger] p256_public_of(other) ==> s@ == p256_shared_of(
                    other,
                    p256_public_of(self.spec_private()),
                ))),
            self.spec_algorithm() matches AsymmetricAlgorithm::EcdsaP384 ==> (r matches Ok(s) ==> s@
                == p384_shared_of(self.spec_private(), peer_public_key@) && s@.len() == 48 && (
            forall|other: Seq<u8>|
                peer_public_key@ == #[trigger] p384_public_of(other) ==> s@ == p384_shared_of(
                    other,
                    p384_public_of(self.spec_private()),
                ))),
            (self.spec_algorithm() matches AsymmetricAlgorithm::Rsa2048 || self.spec_algorithm()
                matches AsymmetricAlgorithm::Rsa4096) ==> (r matches Err(e) && e matches
                KeyError::UnsupportedAlgorithm(_)),
    {
        match self.algorithm {
            AsymmetricAlgorithm::EcdsaP256 => p256_agree(self.private_key.as_slice(), peer_public_key),
            AsymmetricAlgorithm::EcdsaP384 => p384_agree(self.private_key.as_slice(), peer_public_key),
            _ => Err(KeyError::UnsupportedAlgorithm(String::from_str("Not an ECDH key"))),
        }
    }
}

impl Drop for KeyAgreement {
    /// Relies on zeroize::Zeroize for Vec<u8>: the private copy is
    /// overwritten before the buffer is released.
    #[verifier::external_body]
    fn drop(&mut self)
        opens_invariants none
        no_unwind
    {
        self.private_key.zeroize();
    }
}

} // verus!

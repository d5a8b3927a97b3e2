//! E3 offline content protection: wrap a book's bytes so that only a registered
//! device (holding the matching P-256 private key) can decrypt them. ECIES over
//! P-256: ephemeral ECDH → HKDF-SHA256 → AES-256-GCM. Wire format:
//!   - AES-256-GCM combined box = nonce(12) ‖ ciphertext ‖ tag(16)
//!   - HKDF-SHA256(ikm = ECDH shared X, salt = SALT, info = INFO, L = 32)
//!   - ephemeral / device public keys are X9.63 uncompressed points (65 bytes)
//!
//! Also the checks on a device registration and on an offline delivery.
use aes_gcm::aead::rand_core::RngCore;
use aes_gcm::aead::{Aead, OsRng};
use aes_gcm::{Aes256Gcm, KeyInit, Nonce};
use base64::Engine;
use hkdf::Hkdf;
use p256::ecdh::EphemeralSecret;
use p256::elliptic_curve::sec1::ToEncodedPoint;
use p256::PublicKey;
use sha2::Sha256;
use vstd::prelude::*;
use vstd::string::*;
use vstd::utf8::*;

verus! {

/// The HKDF salt of the key wrapping.
pub const SALT: &'static str = "noirpanther-offline-salt-v1";
/// The HKDF info of the key wrapping.
pub const INFO: &'static str = "noirpanther-offline-v1";

/// The largest plaintext AES-GCM encrypts: 2^36 bytes.
pub open spec fn aes_gcm_max_plaintext() -> nat {
    0x10_0000_0000
}

/// Whether the bytes are the SEC1 encoding of a P-256 point other than the
/// identity (what p256's `PublicKey::from_sec1_bytes` accepts).
pub uninterp spec fn is_p256_public_key(bytes: Seq<u8>) -> bool;

/// The AES-256-GCM encryption (ciphertext ‖ 16-byte tag, no associated data)
/// of `plaintext` under `key` and `nonce`.
pub uninterp spec fn aes256gcm_ciphertext(key: Seq<u8>, nonce: Seq<u8>, plaintext: Seq<u8>) -> Seq<u8>;

/// The 32-byte HKDF-SHA256 output for a salt, input key material and info.
pub uninterp spec fn hkdf_sha256_32(salt: Seq<u8>, ikm: Seq<u8>, info: Seq<u8>) -> Seq<u8>;

/// The x coordinate (32 bytes, big-endian) of the P-256 Diffie-Hellman
/// shared point of the two public keys given as SEC1 bytes, as p256's
/// `diffie_hellman` computes it from either side's secret.
pub uninterp spec fn p256_ecdh_x(ephemeral_pub: Seq<u8>, device_pub: Seq<u8>) -> Seq<u8>;

/// The standard (padded) base64 encoding of some bytes.
pub uninterp spec fn base64_standard_encode(bytes: Seq<u8>) -> Seq<char>;

/// The bytes of a standard (padded) base64 text, when it decodes.
pub uninterp spec fn base64_standard_decode(text: Seq<u8>) -> Option<Seq<u8>>;

/// p256's `PublicKey::from_sec1_bytes`: accepts exactly the encodings of
/// P-256 points other than the identity.
#[verifier::external_body]
fn parse_p256_public_key(bytes: &[u8]) -> (r: bool)
    ensures
        r <==> is_p256_public_key(bytes@),
{
    PublicKey::from_sec1_bytes(bytes).is_ok()
}

/// `n` bytes from the operating system's random source (`OsRng::fill_bytes`,
/// which panics only when the operating system cannot provide randomness).
/// Only the length is stated.
#[verifier::external_body]
fn random_bytes(n: usize) -> (r: Vec<u8>)
    ensures
        r@.len() == n,
{
    let mut bytes = vec![0u8; n];
    OsRng.fill_bytes(&mut bytes);
    bytes
}

/// aes-gcm's `Aes256Gcm::encrypt`: fails exactly when the plaintext exceeds
/// 2^36 bytes; otherwise the ciphertext followed by the 16-byte tag.
#[verifier::external_body]
fn aes256gcm_encrypt(key: &[u8], nonce: &[u8], plaintext: &[u8]) -> (r: Option<Vec<u8>>)
    requires
        key@.len() == 32,
        nonce@.len() == 12,
    ensures
        r is Some <==> plaintext@.len() <= aes_gcm_max_plaintext(),
        r matches Some(c) ==> c@ == aes256gcm_ciphertext(key@, nonce@, plaintext@) && c@.len()
            == plaintext@.len() + 16,
{
    Aes256Gcm::new_from_slice(key).ok()?.encrypt(Nonce::from_slice(nonce), plaintext).ok()
}

/// An ephemeral ECDH agreement with the device key `device_pub` (SEC1
/// bytes): p256's `PublicKey::from_sec1_bytes` on the device key,
/// `EphemeralSecret::random` over `OsRng`, the uncompressed encoding of the
/// ephemeral public key and the x coordinate of `diffie_hellman`. The p256
/// key and secret types stay inside this item, since their curve parameter is
/// bound by an outside trait. The ephemeral key is random, so it is stated
/// only as some uncompressed point; the shared secret is the Diffie-Hellman
/// value of that point and the device key.
#[verifier::external_body]
fn ephemeral_agreement(device_pub: &[u8]) -> (r: Option<(Vec<u8>, Vec<u8>)>)
    ensures
        r is Some <==> is_p256_public_key(device_pub@),
        r matches Some((ephemeral_pub, shared)) ==> ephemeral_pub@.len() == 65
            && ephemeral_pub@[0] == 0x04 && is_p256_public_key(ephemeral_pub@)
            && shared@ == p256_ecdh_x(ephemeral_pub@, device_pub@) && shared@.len() == 32,
{
    let device = PublicKey::from_sec1_bytes(device_pub).ok()?;
    let secret = EphemeralSecret::random(&mut OsRng);
    let ephemeral_pub = secret.public_key().to_encoded_point(false).as_bytes().to_vec();
    Some((ephemeral_pub, secret.diffie_hellman(&device).raw_secret_bytes().to_vec()))
}

/// hkdf's `Hkdf::<Sha256>::new(Some(salt), ikm).expand(info, ..)` into 32
/// bytes, which never exceeds the 255 × 32-byte limit and so always succeeds.
#[verifier::external_body]
fn hkdf_sha256_expand_32(salt: &[u8], ikm: &[u8], info: &[u8]) -> (r: Option<Vec<u8>>)
    ensures
        r is Some,
        r matches Some(okm) ==> okm@ == hkdf_sha256_32(salt@, ikm@, info@) && okm@.len() == 32,
{
    let mut okm = vec![0u8; 32];
    Hkdf::<Sha256>::new(Some(salt), ikm).expand(info, &mut okm).ok().map(|_| okm)
}

/// base64's `STANDARD.encode`. Inputs are limited so that the encoded length
/// fits in memory (the crate panics when it would overflow).
#[verifier::external_body]
pub(crate) fn base64_encode(bytes: &[u8]) -> (r: String)
    requires
        bytes@.len() <= 0x3fff_ffff_ffff,
    ensures
        r@ == base64_standard_encode(bytes@),
{
    base64::engine::general_purpose::STANDARD.encode(bytes)
}

/// base64's `STANDARD.decode`.
#[verifier::external_body]
pub(crate) fn base64_decode(text: &[u8]) -> (r: Option<Vec<u8>>)
    ensures
        match base64_standard_decode(text@) {
            Some(b) => r matches Some(v) && v@ == b,
            None => r is None,
        },
{
    base64::engine::general_purpose::STANDARD.decode(text).ok()
}

/// The result of wrapping a book for offline reading on a specific device.
pub struct WrappedContent {
    /// AES-256-GCM(content_key, plaintext) — the encrypted book.
    pub blob: Vec<u8>,
    /// The ephemeral public key (X9.63 uncompressed, 65 bytes) used for ECDH.
    pub ephemeral_pub: Vec<u8>,
    /// AES-256-GCM(kek, content_key) — the content key wrapped to the device.
    pub wrapped_key: Vec<u8>,
}

#[derive(Debug, PartialEq, Eq, Structural)]
pub enum OfflineCryptoError {
    /// invalid device public key
    BadDeviceKey,
    /// encryption failed
    Encrypt,
    /// key derivation failed
    Kdf,
}

impl OfflineCryptoError {
    /// The error's message.
    pub fn message(&self) -> (r: &'static str)
        ensures
            r@ == match self {
                OfflineCryptoError::BadDeviceKey => "invalid device public key"@,
                OfflineCryptoError::Encrypt => "encryption failed"@,
                OfflineCryptoError::Kdf => "key derivation failed"@,
            },
    {
        match self {
            OfflineCryptoError::BadDeviceKey => "invalid device public key",
            OfflineCryptoError::Encrypt => "encryption failed",
            OfflineCryptoError::Kdf => "key derivation failed",
        }
    }
}

/// Whether the bytes are an uncompressed (X9.63) P-256 point: 65 bytes,
/// starting with 0x04, other than the identity.
pub open spec fn is_uncompressed_device_key(key: Seq<u8>) -> bool {
    key.len() == 65 && key[0] == 0x04 && is_p256_public_key(key)
}

/// Validate that `device_pub_x963` is a real P-256 point (uncompressed SEC1, 65
/// bytes) and not the identity.
pub fn validate_device_key(device_pub_x963: &[u8]) -> (r: Result<(), OfflineCryptoError>)
    ensures
        r is Ok <==> is_uncompressed_device_key(device_pub_x963@),
        r is Err ==> r == Err::<(), OfflineCryptoError>(OfflineCryptoError::BadDeviceKey),
{
    if device_pub_x963.len() != 65 || device_pub_x963[0] != 0x04 {
        return Err(OfflineCryptoError::BadDeviceKey);
    }
    if parse_p256_public_key(device_pub_x963) {
        Ok(())
    } else {
        Err(OfflineCryptoError::BadDeviceKey)
    }
}

/// `sealed` is an AES-256-GCM combined box of `plaintext` under `key`:
/// a 12-byte nonce followed by the ciphertext and tag under that nonce.
pub open spec fn is_sealed_box(key: Seq<u8>, plaintext: Seq<u8>, sealed: Seq<u8>) -> bool {
    &&& sealed.len() == 12 + plaintext.len() + 16
    &&& sealed.subrange(12, sealed.len() as int) == aes256gcm_ciphertext(
        key,
        sealed.subrange(0, 12),
        plaintext,
    )
}

/// Encrypt `plaintext` under `key` with a fresh random nonce, giving the
/// combined box nonce ‖ ciphertext ‖ tag.
pub fn seal(key: &[u8], plaintext: &[u8]) -> (r: Result<Vec<u8>, OfflineCryptoError>)
    requires
        key@.len() == 32,
    ensures
        r is Ok <==> plaintext@.len() <= aes_gcm_max_plaintext(),
        r matches Ok(sealed) ==> is_sealed_box(key@, plaintext@, sealed@),
        r is Err ==> r == Err::<Vec<u8>, OfflineCryptoError>(OfflineCryptoError::Encrypt),
{
    let nonce_bytes = random_bytes(12);
    let ciphertext = match aes256gcm_encrypt(key, nonce_bytes.as_slice(), plaintext) {
        Some(c) => c,
        None => {
            return Err(OfflineCryptoError::Encrypt);
        },
    };
    let mut out: Vec<u8> = Vec::new();
    crate::text::append_bytes(&mut out, nonce_bytes.as_slice());
    crate::text::append_bytes(&mut out, ciphertext.as_slice());
    assert(out@.subrange(0, 12) =~= nonce_bytes@);
    assert(out@.subrange(12, out@.len() as int) =~= ciphertext@);
    Ok(out)
}

/// The key-encryption key of a delivery to `device_pub` with ephemeral key
/// `ephemeral_pub`: HKDF-SHA256 (salt `SALT`, info `INFO`, 32 bytes) of the
/// x coordinate of their Diffie-Hellman point.
pub open spec fn key_encryption_key(ephemeral_pub: Seq<u8>, device_pub: Seq<u8>) -> Seq<u8> {
    hkdf_sha256_32(encode_utf8(SALT@), p256_ecdh_x(ephemeral_pub, device_pub), encode_utf8(INFO@))
}

/// What holds of every outcome of wrapping `plaintext` for the device key
/// `device_pub`: the blob seals the plaintext under some (random) content
/// key, the wrapped key seals that content key under the key-encryption key
/// derived from the Diffie-Hellman value of the ephemeral key and the device
/// key, and the ephemeral key is an uncompressed P-256 point.
pub open spec fn is_wrapped_content(plaintext: Seq<u8>, device_pub: Seq<u8>, w: WrappedContent) -> bool {
    &&& w.ephemeral_pub@.len() == 65
    &&& w.ephemeral_pub@[0] == 0x04
    &&& is_p256_public_key(w.ephemeral_pub@)
    &&& exists|content_key: Seq<u8>|
        {
            &&& content_key.len() == 32
            &&& is_sealed_box(content_key, plaintext, w.blob@)
            &&& is_sealed_box(
                key_encryption_key(w.ephemeral_pub@, device_pub),
                content_key,
                w.wrapped_key@,
            )
        }
}


/// Encrypt `plaintext` for a device whose P-256 public key is `device_pub_x963`
/// (uncompressed SEC1 / X9.63, 65 bytes). The returned content key is wrapped so
/// only that device's private key can recover it; everything else on the wire is
/// useless without the device.
pub fn wrap_for_device(plaintext: &[u8], device_pub_x963: &[u8]) -> (r: Result<
    WrappedContent,
    OfflineCryptoError,
>)
    ensures
        !is_p256_public_key(device_pub_x963@) ==> r matches Err(OfflineCryptoError::BadDeviceKey),
        is_p256_public_key(device_pub_x963@) && plaintext@.len() > aes_gcm_max_plaintext() ==> r matches Err(
            OfflineCryptoError::Encrypt,
        ),
        is_p256_public_key(device_pub_x963@) && plaintext@.len() <= aes_gcm_max_plaintext() ==> (r matches Ok(
            w,
        ) && is_wrapped_content(plaintext@, device_pub_x963@, w)),
{
    if !parse_p256_public_key(device_pub_x963) {
        return Err(OfflineCryptoError::BadDeviceKey);
    }
    let content_key = random_bytes(32);
    let blob = seal(content_key.as_slice(), plaintext)?;
    let (ephemeral_pub, shared) = match ephemeral_agreement(device_pub_x963) {
        Some(agreement) => agreement,
        None => {
            return Err(OfflineCryptoError::BadDeviceKey);
        },
    };
    let kek = match hkdf_sha256_expand_32(SALT.as_bytes(), shared.as_slice(), INFO.as_bytes()) {
        Some(k) => k,
        None => {
            return Err(OfflineCryptoError::Kdf);
        },
    };
    let wrapped_key = seal(kek.as_slice(), content_key.as_slice())?;
    let w = WrappedContent { blob, ephemeral_pub, wrapped_key };
    proof {
        let ck = content_key@;
        assert(is_sealed_box(ck, plaintext@, w.blob@));
        assert(is_sealed_box(key_encryption_key(w.ephemeral_pub@, device_pub_x963@), ck, w.wrapped_key@));
        assert(ck.len() == 32);
    }
    Ok(w)
}


/// Max accepted length (in bytes) of a client-supplied `device_id`.
pub const MAX_DEVICE_ID_LEN: usize = 256;
/// Max registered devices per user. Re-registering an existing device does not
/// count against this.
pub const MAX_DEVICES_PER_USER: u64 = 50;
/// Max book size (in bytes) encrypted for offline delivery in a single
/// in-memory pass: 1 GiB.
pub const MAX_OFFLINE_BOOK_BYTES: u64 = 1073741824;

/// Why a device registration is rejected (a 400 response).
#[derive(Debug, PartialEq, Eq, Structural)]
pub enum DeviceRegistrationError {
    InvalidDeviceId,
    InvalidPublicKey,
    WrongKeyLength,
    NotAP256Point,
    TooManyDevices,
}

impl DeviceRegistrationError {
    /// The message of the 400 response.
    pub fn message(&self) -> (r: &'static str)
        ensures
            r@ == match self {
                DeviceRegistrationError::InvalidDeviceId => "Invalid device id"@,
                DeviceRegistrationError::InvalidPublicKey => "Invalid public key"@,
                DeviceRegistrationError::WrongKeyLength => "Public key must be a 65-byte X9.63 point"@,
                DeviceRegistrationError::NotAP256Point => "Public key is not a valid P-256 point"@,
                DeviceRegistrationError::TooManyDevices => "Too many registered devices"@,
            },
    {
        match self {
            DeviceRegistrationError::InvalidDeviceId => "Invalid device id",
            DeviceRegistrationError::InvalidPublicKey => "Invalid public key",
            DeviceRegistrationError::WrongKeyLength => "Public key must be a 65-byte X9.63 point",
            DeviceRegistrationError::NotAP256Point => "Public key is not a valid P-256 point",
            DeviceRegistrationError::TooManyDevices => "Too many registered devices",
        }
    }
}

/// The outcome of checking a device registration: the decoded key, or why
/// the registration is rejected.
pub open spec fn device_registration_spec(device_id: Seq<char>, public_key_b64: Seq<char>) -> Result<
    Seq<u8>,
    DeviceRegistrationError,
> {
    if device_id.len() == 0 || encode_utf8(device_id).len() > MAX_DEVICE_ID_LEN {
        Err(DeviceRegistrationError::InvalidDeviceId)
    } else {
        match base64_standard_decode(encode_utf8(public_key_b64)) {
            None => Err(DeviceRegistrationError::InvalidPublicKey),
            Some(key) => if key.len() != 65 {
                Err(DeviceRegistrationError::WrongKeyLength)
            } else if !is_uncompressed_device_key(key) {
                Err(DeviceRegistrationError::NotAP256Point)
            } else {
                Ok(key)
            },
        }
    }
}

/// Check a device registration request: a non-empty device id of at most
/// 256 bytes, and a base64 public key decoding to a 65-byte P-256 point.
/// Returns the decoded key.
pub fn check_device_registration(device_id: &str, public_key_b64: &str) -> (r: Result<
    Vec<u8>,
    DeviceRegistrationError,
>)
    ensures
        match device_registration_spec(device_id@, public_key_b64@) {
            Ok(key) => r matches Ok(k) && k@ == key,
            Err(e) => r == Err::<Vec<u8>, DeviceRegistrationError>(e),
        },
{
    if device_id.is_empty() || device_id.as_bytes().len() > MAX_DEVICE_ID_LEN {
        return Err(DeviceRegistrationError::InvalidDeviceId);
    }
    let public_key = match base64_decode(public_key_b64.as_bytes()) {
        Some(k) => k,
        None => {
            return Err(DeviceRegistrationError::InvalidPublicKey);
        },
    };
    if public_key.len() != 65 {
        return Err(DeviceRegistrationError::WrongKeyLength);
    }
    if validate_device_key(public_key.as_slice()).is_err() {
        return Err(DeviceRegistrationError::NotAP256Point);
    }
    Ok(public_key)
}

/// Whether a user already holding `existing_count` other devices may not
/// register a new one.
pub fn device_limit_reached(existing_count: u64) -> (r: bool)
    ensures
        r == (existing_count >= MAX_DEVICES_PER_USER),
{
    existing_count >= MAX_DEVICES_PER_USER
}

/// Whether a book of `file_len` bytes may be encrypted for offline delivery.
pub fn offline_delivery_allowed(file_len: u64) -> (r: bool)
    ensures
        r == (file_len <= MAX_OFFLINE_BOOK_BYTES),
{
    file_len <= MAX_OFFLINE_BOOK_BYTES
}

/// The offline delivery as sent to the device: every part base64-encoded.
pub struct OfflineResponse {
    /// AES-256-GCM(content_key, book), base64.
    pub blob: String,
    /// Ephemeral P-256 public key (X9.63), base64.
    pub ephemeral_pub: String,
    /// AES-256-GCM(kek, content_key) where kek = HKDF(ECDH(device, ephemeral)), base64.
    pub wrapped_key: String,
}

/// Encode wrapped content for the wire.
pub fn encode_offline_response(w: &WrappedContent) -> (r: OfflineResponse)
    requires
        w.blob@.len() <= 0x3fff_ffff_ffff,
        w.ephemeral_pub@.len() <= 0x3fff_ffff_ffff,
        w.wrapped_key@.len() <= 0x3fff_ffff_ffff,
    ensures
        r.blob@ == base64_standard_encode(w.blob@),
        r.ephemeral_pub@ == base64_standard_encode(w.ephemeral_pub@),
        r.wrapped_key@ == base64_standard_encode(w.wrapped_key@),
{
    OfflineResponse {
        blob: base64_encode(w.blob.as_slice()),
        ephemeral_pub: base64_encode(w.ephemeral_pub.as_slice()),
        wrapped_key: base64_encode(w.wrapped_key.as_slice()),
    }
}

} // verus!

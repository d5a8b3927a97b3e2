use aes_gcm::aead::{Aead, OsRng};
use aes_gcm::{Aes256Gcm, KeyInit, Nonce};
use base64::Engine;
use hkdf::Hkdf;
use p256::elliptic_curve::sec1::ToEncodedPoint;
use p256::{PublicKey, SecretKey};
use sha2::Sha256;
use stump::offline_crypto::{
    check_device_registration, device_limit_reached, encode_offline_response,
    offline_delivery_allowed, seal, validate_device_key, wrap_for_device,
    DeviceRegistrationError, OfflineCryptoError, INFO, SALT,
};

fn device_key() -> (SecretKey, Vec<u8>) {
    let secret = SecretKey::random(&mut OsRng);
    let public = secret.public_key().to_encoded_point(false).as_bytes().to_vec();
    (secret, public)
}

fn open(key: &[u8], sealed: &[u8]) -> Vec<u8> {
    let cipher = Aes256Gcm::new_from_slice(key).unwrap();
    cipher.decrypt(Nonce::from_slice(&sealed[..12]), &sealed[12..]).expect("authentic box")
}

#[test]
fn wrapped_content_opens_with_the_device_key() {
    let (secret, public) = device_key();
    let book = b"a whole book".to_vec();
    let wrapped = wrap_for_device(&book, &public).ok().expect("wrapped");
    assert_eq!(wrapped.ephemeral_pub.len(), 65);
    let ephemeral = PublicKey::from_sec1_bytes(&wrapped.ephemeral_pub).unwrap();
    let shared = p256::ecdh::diffie_hellman(secret.to_nonzero_scalar(), ephemeral.as_affine());
    let hkdf = Hkdf::<Sha256>::new(Some(SALT.as_bytes()), &shared.raw_secret_bytes()[..]);
    let mut kek = [0u8; 32];
    hkdf.expand(INFO.as_bytes(), &mut kek).unwrap();
    let content_key = open(&kek, &wrapped.wrapped_key);
    assert_eq!(content_key.len(), 32);
    assert_eq!(open(&content_key, &wrapped.blob), book);
    assert_eq!(wrapped.blob.len(), 12 + book.len() + 16);
}

#[test]
fn bad_device_keys_are_rejected() {
    assert_eq!(validate_device_key(&[4u8; 65]), Err(OfflineCryptoError::BadDeviceKey));
    assert!(matches!(wrap_for_device(b"x", &[1, 2, 3]), Err(OfflineCryptoError::BadDeviceKey)));
    let (_, public) = device_key();
    assert_eq!(validate_device_key(&public), Ok(()));
    assert_eq!(OfflineCryptoError::BadDeviceKey.message(), "invalid device public key");
}

#[test]
fn sealed_box_is_nonce_then_ciphertext() {
    let key = [7u8; 32];
    let sealed = seal(&key, b"secret").ok().unwrap();
    assert_eq!(sealed.len(), 12 + 6 + 16);
    assert_eq!(open(&key, &sealed), b"secret".to_vec());
}

#[test]
fn device_registration_checks() {
    let (_, public) = device_key();
    let b64 = base64::engine::general_purpose::STANDARD.encode(&public);
    assert_eq!(check_device_registration("phone", &b64), Ok(public.clone()));
    assert_eq!(check_device_registration("", &b64), Err(DeviceRegistrationError::InvalidDeviceId));
    assert_eq!(
        check_device_registration(&"x".repeat(257), &b64),
        Err(DeviceRegistrationError::InvalidDeviceId)
    );
    assert!(check_device_registration(&"x".repeat(256), &b64).is_ok());
    assert_eq!(check_device_registration("phone", "%%%"), Err(DeviceRegistrationError::InvalidPublicKey));
    let short = base64::engine::general_purpose::STANDARD.encode([4u8; 33]);
    assert_eq!(check_device_registration("phone", &short), Err(DeviceRegistrationError::WrongKeyLength));
    let bogus = base64::engine::general_purpose::STANDARD.encode([4u8; 65]);
    assert_eq!(check_device_registration("phone", &bogus), Err(DeviceRegistrationError::NotAP256Point));
    assert_eq!(DeviceRegistrationError::WrongKeyLength.message(), "Public key must be a 65-byte X9.63 point");
    assert_eq!(DeviceRegistrationError::TooManyDevices.message(), "Too many registered devices");
}

#[test]
fn device_and_size_limits() {
    assert!(!device_limit_reached(49));
    assert!(device_limit_reached(50));
    assert!(offline_delivery_allowed(1024 * 1024 * 1024));
    assert!(!offline_delivery_allowed(1024 * 1024 * 1024 + 1));
}

#[test]
fn offline_response_is_base64() {
    let (_, public) = device_key();
    let wrapped = wrap_for_device(b"book", &public).ok().unwrap();
    let response = encode_offline_response(&wrapped);
    let b64 = base64::engine::general_purpose::STANDARD;
    assert_eq!(b64.decode(response.blob).unwrap(), wrapped.blob);
    assert_eq!(b64.decode(response.ephemeral_pub).unwrap(), wrapped.ephemeral_pub);
    assert_eq!(b64.decode(response.wrapped_key).unwrap(), wrapped.wrapped_key);
}

#[test]
fn only_uncompressed_device_keys_are_accepted() {
    let (secret, public) = device_key();
    let compressed = secret.public_key().to_encoded_point(true).as_bytes().to_vec();
    assert_eq!(compressed.len(), 33);
    assert!(PublicKey::from_sec1_bytes(&compressed).is_ok());
    assert_eq!(validate_device_key(&compressed), Err(OfflineCryptoError::BadDeviceKey));
    assert_eq!(validate_device_key(&public), Ok(()));
    assert_eq!(validate_device_key(&[]), Err(OfflineCryptoError::BadDeviceKey));
    assert_eq!(validate_device_key(&[0u8; 65]), Err(OfflineCryptoError::BadDeviceKey));
}

#[test]
fn wrapped_content_has_uncompressed_ephemeral_key_and_sealed_content_key() {
    let (_, public) = device_key();
    let wrapped = wrap_for_device(b"pages", &public).ok().expect("wrapped");
    assert_eq!(wrapped.ephemeral_pub[0], 4);
    assert_eq!(wrapped.wrapped_key.len(), 12 + 32 + 16);
    assert_eq!(wrapped.blob.len(), 12 + 5 + 16);
    let again = wrap_for_device(b"pages", &public).ok().expect("wrapped");
    assert_ne!(again.ephemeral_pub, wrapped.ephemeral_pub);
}

//! The authenticated envelope: encryption round trips, failure on a
//! wrong key, and the wire form of the envelope.

use intersect_core::derive_shared_secret;
use intersect_core::hash;
use intersect_core::Encrypted;
use intersect_core::EncryptionError;
use intersect_core::Secret;

#[test]
fn sdfsdfsdf() {
    let payload = Secret::random();

    let password = "hunter12";
    let salt = hash(&b"salt".to_vec());
    let key = Secret::from_bytes(derive_shared_secret(&password.as_bytes().to_vec(), &salt));
    let encrypted = Encrypted::encrypt(&payload.bytes_cloned(), &key).unwrap();
    println!("encrypted: {}", encrypted.to_bytes().len());
    let serialised = encrypted.to_bytes();
    println!("encrypted len (bytes): {}", serialised.len());

    let deserialised = Encrypted::from_bytes(&serialised).unwrap();
    let decrypted = Secret::from_bytes(deserialised.decrypt(&key).unwrap());
    println!("decrypted: {}", decrypted.to_base58());

    assert_eq!(payload, decrypted);
}

#[test]
fn it_works() {
    // the text as a NUL-terminated string, the framing a segment uses
    let text: Vec<u8> = b"hello!\0".to_vec();

    let key = Secret::random();
    let encrypted = Encrypted::encrypt(&text, &key).unwrap();
    let serialised = encrypted.to_bytes();
    println!("encrypted (base64): {}", serialised.len());

    let deserialised = Encrypted::from_bytes(&serialised).unwrap();
    let decrypted = deserialised.decrypt(&key).unwrap();
    println!("decrypted: {:?}", decrypted);

    assert_eq!(text, decrypted);
}

#[test]
fn decrypt_with_wrong_key_fails() {
    let data = b"attack at dawn".to_vec();
    let key = Secret::random();
    let other = Secret::random();
    assert_ne!(key, other);
    let encrypted = Encrypted::encrypt(&data, &key).unwrap();
    let err = encrypted.decrypt(&other);
    assert!(matches!(err, Err(EncryptionError::DecryptionFailed)));
    assert_eq!(encrypted.decrypt(&key).unwrap(), data);
}

#[test]
fn ciphertext_differs_from_plaintext() {
    let data = b"not a secret for long".to_vec();
    let key = Secret::random();
    let encrypted = Encrypted::encrypt(&data, &key).unwrap();
    assert_eq!(encrypted.ciphertext().len(), data.len() + 16);
    assert_ne!(&encrypted.ciphertext()[..data.len()], &data[..]);
}

#[test]
fn envelope_wire_form() {
    let data = b"xyz".to_vec();
    let key = Secret::random();
    let encrypted = Encrypted::encrypt(&data, &key).unwrap();
    let bytes = encrypted.to_bytes();
    // magic, 24-byte nonce, u32 length, ciphertext
    assert_eq!(&bytes[0..4], b"/??/");
    assert_eq!(bytes.len(), 4 + 24 + 4 + data.len() + 16);
    let len = u32::from_be_bytes([bytes[28], bytes[29], bytes[30], bytes[31]]);
    assert_eq!(len as usize, data.len() + 16);
    // round trip, with trailing bytes ignored as the length prefix delimits
    let mut longer = bytes.clone();
    longer.extend_from_slice(b"trailing");
    let again = Encrypted::from_bytes(&longer).unwrap();
    assert_eq!(again, encrypted);
}

#[test]
fn envelope_rejects_bad_magic() {
    let data = b"xyz".to_vec();
    let key = Secret::random();
    let mut bytes = Encrypted::encrypt(&data, &key).unwrap().to_bytes();
    bytes[0] = b'!';
    assert!(matches!(
        Encrypted::from_bytes(&bytes),
        Err(EncryptionError::DeserialisationFailed(_))
    ));
}

#[test]
fn encrypt_with_random_round_trips() {
    let data = b"round and round".to_vec();
    let (encrypted, secret) = Encrypted::encrypt_with_random(&data).unwrap();
    assert_eq!(encrypted.decrypt(&secret).unwrap(), data);
}

#[test]
fn encryption_is_salted_by_nonce() {
    // two encryptions of the same plaintext under the same key differ,
    // because each draws a fresh nonce
    let data = b"same plaintext".to_vec();
    let key = Secret::random();
    let a = Encrypted::encrypt(&data, &key).unwrap();
    let b = Encrypted::encrypt(&data, &key).unwrap();
    assert_ne!(a.nonce(), b.nonce());
}

#[test]
fn derived_secret_is_deterministic() {
    let input = b"some input".to_vec();
    let salt = b"at least eight bytes".to_vec();
    let a = derive_shared_secret(&input, &salt);
    let b = derive_shared_secret(&input, &salt);
    assert_eq!(a, b);
    assert_eq!(a.len(), 32);
    let other_salt = b"a different salt here".to_vec();
    assert_ne!(a, derive_shared_secret(&input, &other_salt));
    assert_ne!(a, input);
}

#[test]
fn hash_is_deterministic_and_sized() {
    let data = b"hash me".to_vec();
    let a = hash(&data);
    let b = hash(&data);
    assert_eq!(a, b);
    assert_eq!(a.len(), 32);
    assert_ne!(a, hash(&b"hash me not".to_vec()));
}

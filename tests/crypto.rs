use rustlab::crypto::{CryptoError, Encryptor};

#[test]
fn encrypt_then_decrypt_gives_data_back() {
    let e = Encryptor::new(&[42u8; 32]);
    let data = b"Top secret message, handle with care";
    let sealed = e.encrypt(data).unwrap();
    assert_eq!(sealed.len(), 12 + data.len() + 16);
    assert_eq!(e.decrypt(&sealed).unwrap(), data.to_vec());
}

#[test]
fn nonce_leads_the_sealed_bytes() {
    let e = Encryptor::new(&[1u8; 32]);
    let nonce = [9u8; 12];
    let a = e.encrypt_with_nonce(nonce, b"abc").unwrap();
    let b = e.encrypt_with_nonce(nonce, b"abc").unwrap();
    assert_eq!(&a[..12], &nonce);
    assert_eq!(a, b);
    assert_ne!(&a[12..15], b"abc");
    assert_eq!(e.decrypt(&a).unwrap(), b"abc".to_vec());
}

#[test]
fn decrypt_errors() {
    let e = Encryptor::new(&[1u8; 32]);
    assert_eq!(e.decrypt(&[0u8; 11]), Err(CryptoError::InvalidData));
    let mut sealed = e.encrypt(b"hello").unwrap();
    let last = sealed.len() - 1;
    sealed[last] ^= 1;
    assert_eq!(e.decrypt(&sealed), Err(CryptoError::Decryption));
    let other = Encryptor::new(&[2u8; 32]);
    let sealed = e.encrypt(b"hello").unwrap();
    assert_eq!(other.decrypt(&sealed), Err(CryptoError::Decryption));
}

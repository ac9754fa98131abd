//! Authenticated encryption of byte strings with AES-256-GCM. Each message
//! is sealed under a fresh random 12-byte nonce, which travels in front of
//! the sealed bytes.

use vstd::prelude::*;

verus! {

/// Encrypts and decrypts under one 256-bit key.
pub struct Encryptor {
    key: [u8; 32],
}

#[derive(Debug, Clone, Copy, PartialEq, Eq)]
pub enum CryptoError {
    /// The cipher refused to seal the message.
    Encryption,
    /// Too short to hold a nonce.
    InvalidData,
    /// The sealed bytes do not open under the key and nonce.
    Decryption,
}

/// The AES-256-GCM sealing (ciphertext and tag) of `plain` under `key` and
/// `nonce`, if the cipher accepts it.
pub uninterp spec fn aes256gcm_sealed(key: Seq<u8>, nonce: Seq<u8>, plain: Seq<u8>) -> Option<Seq<u8>>;

/// The plaintext of sealed bytes under `key` and `nonce`, if they
/// authenticate.
pub uninterp spec fn aes256gcm_opened(key: Seq<u8>, nonce: Seq<u8>, sealed: Seq<u8>) -> Option<Seq<u8>>;

/// Relies on `aead::Aead::encrypt` for `aes_gcm::Aes256Gcm`: the sealed
/// bytes, a function of key, nonce and plaintext alone; `None` where it
/// reports an error.
#[verifier::external_body]
fn seal(key: &[u8; 32], nonce: &[u8; 12], plain: &[u8]) -> (r: Option<Vec<u8>>)
    ensures
        match aes256gcm_sealed(key@, nonce@, plain@) {
            Some(c) => r is Some && r->Some_0@ == c,
            None => r is None,
        },
{
    let cipher = <aes_gcm::Aes256Gcm as aes_gcm::KeyInit>::new(key.into());
    aes_gcm::aead::Aead::encrypt(&cipher, aes_gcm::Nonce::from_slice(nonce), plain).ok()
}

/// Relies on `aead::Aead::decrypt` for `aes_gcm::Aes256Gcm`: the plaintext,
/// a function of key, nonce and sealed bytes alone; `None` where they do not
/// authenticate.
#[verifier::external_body]
fn open(key: &[u8; 32], nonce: &[u8], sealed: &[u8]) -> (r: Option<Vec<u8>>)
    requires
        nonce@.len() == 12,
    ensures
        match aes256gcm_opened(key@, nonce@, sealed@) {
            Some(p) => r is Some && r->Some_0@ == p,
            None => r is None,
        },
{
    let cipher = <aes_gcm::Aes256Gcm as aes_gcm::KeyInit>::new(key.into());
    aes_gcm::aead::Aead::decrypt(&cipher, aes_gcm::Nonce::from_slice(nonce), sealed).ok()
}

/// Relies on `rand::thread_rng` and `rand::Rng::fill`: 12 random bytes;
/// nothing is promised of them.
#[verifier::external_body]
fn random_nonce() -> [u8; 12] {
    let mut nonce = [0u8; 12];
    rand::Rng::fill(&mut rand::thread_rng(), &mut nonce);
    nonce
}

impl Encryptor {
    /// The key.
    pub closed spec fn key(&self) -> Seq<u8> {
        self.key@
    }

    /// An encryptor for `key`.
    pub fn new(key: &[u8; 32]) -> (r: Self)
        ensures
            r.key() == key@,
    {
        Encryptor { key: *key }
    }

    /// `nonce` followed by the sealing of `data` under it.
    pub fn encrypt_with_nonce(&self, nonce: [u8; 12], data: &[u8]) -> (r: Result<Vec<u8>, CryptoError>)
        ensures
            match aes256gcm_sealed(self.key(), nonce@, data@) {
                Some(c) => r is Ok && r->Ok_0@ == nonce@ + c,
                None => r == Err::<Vec<u8>, CryptoError>(CryptoError::Encryption),
            },
    {
        let ciphertext = match seal(&self.key, &nonce, data) {
            Some(c) => c,
            None => {
                return Err(CryptoError::Encryption);
            },
        };
        let mut result: Vec<u8> = Vec::new();
        let mut i: usize = 0;
        while i < 12
            invariant
                i <= 12,
                result@ == nonce@.take(i as int),
            decreases 12 - i,
        {
            result.push(nonce[i]);
            assert(nonce@.take(i + 1) =~= nonce@.take(i as int).push(nonce@[i as int]));
            i = i + 1;
        }
        let mut j: usize = 0;
        while j < ciphertext.len()
            invariant
                j <= ciphertext@.len(),
                result@ == nonce@ + ciphertext@.take(j as int),
            decreases ciphertext@.len() - j,
        {
            result.push(ciphertext[j]);
            assert(ciphertext@.take(j + 1) =~= ciphertext@.take(j as int).push(ciphertext@[j as int]));
            j = j + 1;
        }
        assert(ciphertext@.take(ciphertext@.len() as int) =~= ciphertext@);
        Ok(result)
    }

    /// Seals `data` under a fresh random nonce, which leads the result.
    pub fn encrypt(&self, data: &[u8]) -> (r: Result<Vec<u8>, CryptoError>)
        ensures
            exists|nonce: Seq<u8>|
                nonce.len() == 12 && match #[trigger] aes256gcm_sealed(self.key(), nonce, data@) {
                    Some(c) => r is Ok && r->Ok_0@ == nonce + c,
                    None => r == Err::<Vec<u8>, CryptoError>(CryptoError::Encryption),
                },
    {
        let nonce = random_nonce();
        self.encrypt_with_nonce(nonce, data)
    }

    /// Opens `data`: its first 12 bytes are the nonce, the rest is sealed.
    pub fn decrypt(&self, data: &[u8]) -> (r: Result<Vec<u8>, CryptoError>)
        ensures
            data@.len() < 12 ==> r == Err::<Vec<u8>, CryptoError>(CryptoError::InvalidData),
            data@.len() >= 12 ==> match aes256gcm_opened(
                self.key(),
                data@.subrange(0, 12),
                data@.subrange(12, data@.len() as int),
            ) {
                Some(p) => r is Ok && r->Ok_0@ == p,
                None => r == Err::<Vec<u8>, CryptoError>(CryptoError::Decryption),
            },
    {
        if data.len() < 12 {
            return Err(CryptoError::InvalidData);
        }
        let nonce = vstd::slice::slice_subrange(data, 0, 12);
        let ciphertext = vstd::slice::slice_subrange(data, 12, data.len());
        match open(&self.key, nonce, ciphertext) {
            Some(p) => Ok(p),
            None => Err(CryptoError::Decryption),
        }
    }
}

} // verus!

use vstd::prelude::*;
use aes_gcm::KeyInit;
use aes_gcm::aead::Aead;

verus! {

/// What AES-256-GCM decryption yields for a 32-byte key, a 12-byte
/// nonce and a ciphertext: the plaintext when the authentication tag
/// verifies, nothing otherwise. The result is a function of the three
/// arguments alone.
pub uninterp spec fn gcm_plaintext(key: Seq<u8>, nonce: Seq<u8>, ciphertext: Seq<u8>) -> Option<
    Seq<u8>,
>;

/// Relies on aes_gcm's Aes256Gcm through aead::Aead::decrypt: the
/// decryption of a ciphertext under a given 32-byte key and 12-byte
/// nonce is deterministic, returning the plaintext or failing on an
/// inauthentic tag.
#[verifier::external_body]
pub fn aes256_gcm_decrypt(key: &Vec<u8>, nonce: &Vec<u8>, ciphertext: &Vec<u8>) -> (r: Option<
    Vec<u8>,
>)
    requires
        key@.len() == 32,
        nonce@.len() == 12,
    ensures
        match r {
            Some(pt) => gcm_plaintext(key@, nonce@, ciphertext@) == Some(pt@),
            None => gcm_plaintext(key@, nonce@, ciphertext@) is None,
        },
{
    let k: &aes_gcm::Key<aes_gcm::Aes256Gcm> = match key.as_slice().try_into() {
        Ok(k) => k,
        Err(_) => {
            return None;
        },
    };
    let n: &aes_gcm::Nonce<aes_gcm::aead::consts::U12> = match nonce.as_slice().try_into() {
        Ok(n) => n,
        Err(_) => {
            return None;
        },
    };
    aes_gcm::Aes256Gcm::new(k).decrypt(n, ciphertext.as_slice()).ok()
}

} // verus!

//! Errors and status of the encryption key store.
use vstd::prelude::*;
use crate::text::join2;

verus! {

/// Failures of the key manager.
#[derive(Debug, Clone)]
pub enum KeyManagerError {
    KeyringUnavailable(String),
    EncryptionFailed(String),
    DecryptionFailed(String),
    KeyDecodeFailed(String),
}

impl KeyManagerError {
    pub open spec fn spec_message(&self) -> Seq<char> {
        match self {
            KeyManagerError::KeyringUnavailable(m) => "Keyring not available: "@ + m@,
            KeyManagerError::EncryptionFailed(m) => "Encryption failed: "@ + m@,
            KeyManagerError::DecryptionFailed(m) => "Decryption failed: "@ + m@,
            KeyManagerError::KeyDecodeFailed(m) => "Key decode failed: "@ + m@,
        }
    }

    /// The error's message.
    pub fn message(&self) -> (s: String)
        ensures
            s@ == self.spec_message(),
    {
        match self {
            KeyManagerError::KeyringUnavailable(m) => join2("Keyring not available: ", m.as_str()),
            KeyManagerError::EncryptionFailed(m) => join2("Encryption failed: ", m.as_str()),
            KeyManagerError::DecryptionFailed(m) => join2("Decryption failed: ", m.as_str()),
            KeyManagerError::KeyDecodeFailed(m) => join2("Key decode failed: ", m.as_str()),
        }
    }
}

/// Whether the key is kept in the system keychain, with a message for the
/// user.
#[derive(Debug, Clone)]
pub struct KeychainStatus {
    pub available: bool,
    pub message: String,
}

/// Length of the nonce that starts an encrypted blob.
pub const NONCE_LEN: usize = 12;

/// The status shown for a key store that does or does not persist.
pub fn keychain_status(persistent: bool) -> (s: KeychainStatus)
    ensures
        s.available == persistent,
        persistent ==> s.message@ == "🔐 Clé de chiffrement stockée dans le trousseau système (sécurisé)"@,
        !persistent ==> s.message@ == "⚠️ Trousseau non disponible - clé volatile (captures ne persisteront pas au redémarrage)"@,
{
    KeychainStatus {
        available: persistent,
        message: if persistent {
            String::from_str("🔐 Clé de chiffrement stockée dans le trousseau système (sécurisé)")
        } else {
            String::from_str("⚠️ Trousseau non disponible - clé volatile (captures ne persisteront pas au redémarrage)")
        },
    }
}

/// Splits an encrypted blob into its nonce and its ciphertext; a blob
/// shorter than the nonce is refused with `Encrypted data too short`.
pub fn split_encrypted(enc: &[u8]) -> (r: Result<(Vec<u8>, Vec<u8>), KeyManagerError>)
    ensures
        enc@.len() < NONCE_LEN ==> (r matches Err(KeyManagerError::DecryptionFailed(m)) && m@ == "Encrypted data too short"@),
        enc@.len() >= NONCE_LEN ==> (r matches Ok((n, c)) && n@ == enc@.take(NONCE_LEN as int) && c@ == enc@.skip(NONCE_LEN as int)),
{
    if enc.len() < NONCE_LEN {
        return Err(KeyManagerError::DecryptionFailed(String::from_str("Encrypted data too short")));
    }
    let nonce = copy_range(enc, 0, NONCE_LEN);
    let body = copy_range(enc, NONCE_LEN, enc.len());
    Ok((nonce, body))
}

fn copy_range(bytes: &[u8], lo: usize, hi: usize) -> (v: Vec<u8>)
    requires
        lo <= hi <= bytes@.len(),
    ensures
        v@ == bytes@.subrange(lo as int, hi as int),
{
    let mut v: Vec<u8> = Vec::new();
    let mut i: usize = lo;
    while i < hi
        invariant
            lo <= i <= hi <= bytes@.len(),
            v@ == bytes@.subrange(lo as int, i as int),
        decreases hi - i,
    {
        v.push(bytes[i]);
        assert(bytes@.subrange(lo as int, i + 1) =~= bytes@.subrange(lo as int, i as int).push(bytes@[i as int]));
        i = i + 1;
    }
    v
}

} // verus!

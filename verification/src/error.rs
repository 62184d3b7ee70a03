use vstd::prelude::*;

verus! {

/// Why an encryption or a decryption stopped. Every one of them ends the
/// operation: nothing is retried.
#[derive(Clone, Copy, Debug, PartialEq, Eq, Structural)]
pub enum CipherError {
    /// The container is too short to hold a salt.
    MalformedContainer,
    /// The password or the salt was refused, or the derivation itself failed.
    KeyDerivationFailed,
    /// The system's random source returned an error. No call returns this
    /// at present: the cipher library panics where the random source fails,
    /// and reports no such failure as a value.
    RandomSourceUnavailable,
    /// The cipher refused to seal the plaintext.
    EncryptionFailed,
    /// The ciphertext did not verify under the key: the password is wrong
    /// or the data was changed. The two are deliberately not told apart.
    AuthenticationFailed,
    /// The recovered bytes are not UTF-8.
    InvalidEncoding,
}

} // verus!

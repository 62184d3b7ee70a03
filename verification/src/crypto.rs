//! Salt generation, key derivation, and the sealing and opening of a text
//! under a derived key.

use vstd::prelude::*;
use vstd::slice::*;
use vstd::string::*;
use vstd::utf8::*;

use crate::error::CipherError;
use crate::primitives::{
    derive_key,
    derived_key,
    open,
    opened,
    seal,
    wipe,
    MAX_KDF_INPUT_LEN,
    MAX_PLAINTEXT_LEN,
    MAX_SEALED_LEN,
    SEAL_OVERHEAD,
};

verus! {

/// The number of passes of the key derivation. It is fixed.
pub const KDF_ITERATIONS: u32 = 3;

/// The memory of the key derivation, in KiB. It is fixed.
pub const KDF_MEMORY: u32 = 8;

/// The number of bytes in a derived key.
pub const KEY_LEN: u32 = 32;

/// A key of `KEY_LEN` bytes. It is viewed as its bytes.
///
/// The bytes live in one place on the heap and are overwritten with zeros
/// when the key is dropped. The type has no `Debug` and no `Clone`, so that
/// a key cannot end up in a message or a log, or in a second place, by
/// accident.
pub struct SecretKey {
    bytes: Vec<u8>,
}

impl View for SecretKey {
    type V = Seq<u8>;

    closed spec fn view(&self) -> Seq<u8> {
        self.bytes@
    }
}

impl SecretKey {
    #[verifier::type_invariant]
    spec fn has_key_len(&self) -> bool {
        self.bytes@.len() == KEY_LEN
    }

    /// The key with the given bytes, where there are `KEY_LEN` of them.
    pub fn from_slice(bytes: &[u8]) -> (res: Option<SecretKey>)
        ensures
            match res {
                Some(key) => bytes@.len() == KEY_LEN && key@ == bytes@,
                None => bytes@.len() != KEY_LEN,
            },
    {
        if bytes.len() != KEY_LEN as usize {
            return None;
        }
        Some(SecretKey { bytes: slice_to_vec(bytes) })
    }

    /// The key's bytes. They are as secret as the key.
    pub fn unprotected_as_bytes(&self) -> (bytes: &[u8])
        ensures
            bytes@ == self@,
            bytes@.len() == KEY_LEN,
    {
        proof {
            use_type_invariant(self);
        }
        self.bytes.as_slice()
    }
}

impl Drop for SecretKey {
    fn drop(&mut self)
        opens_invariants none
        no_unwind
    {
        proof {
            use_type_invariant(&*self);
        }
        wipe(&mut self.bytes);
    }
}

/// The key that belongs to a password and a salt, or `None` where the
/// derivation fails. It depends on nothing else.
pub open spec fn key_for(password: Seq<char>, salt: Seq<u8>) -> Option<Seq<u8>> {
    derived_key(encode_utf8(password), salt, KDF_ITERATIONS, KDF_MEMORY, KEY_LEN)
}

/// Whether a key can be derived from a password: its bytes are at least one
/// and at most `MAX_KDF_INPUT_LEN`.
pub open spec fn is_usable_password(password: Seq<char>) -> bool {
    0 < encode_utf8(password).len() <= MAX_KDF_INPUT_LEN
}

/// Whether a text can be sealed: its bytes are at least one and at most
/// `MAX_PLAINTEXT_LEN`.
pub open spec fn is_sealable(plaintext: Seq<char>) -> bool {
    0 < encode_utf8(plaintext).len() <= MAX_PLAINTEXT_LEN
}

/// What becomes of the outcome of opening a sealed message: a message that
/// did not verify is an authentication failure, and the bytes of one that
/// did are the text they encode, if they encode one.
pub open spec fn decoded(outcome: Option<Seq<u8>>) -> Result<Seq<char>, CipherError> {
    match outcome {
        None => Err(CipherError::AuthenticationFailed),
        Some(bytes) => if valid_utf8(bytes) {
            Ok(decode_utf8(bytes))
        } else {
            Err(CipherError::InvalidEncoding)
        },
    }
}

/// The text that a sealed message holds under a key, or the reason why it
/// gives none. A message longer than `MAX_SEALED_LEN` is longer than any
/// that sealing gives: it is not handed to the cipher, and counts as one
/// that did not verify.
pub open spec fn decrypted(key: Seq<u8>, sealed: Seq<u8>) -> Result<Seq<char>, CipherError> {
    if sealed.len() > MAX_SEALED_LEN {
        Err(CipherError::AuthenticationFailed)
    } else {
        decoded(opened(key, sealed))
    }
}

/// A result with its text taken as a sequence of characters.
pub open spec fn text_of(res: Result<String, CipherError>) -> Result<Seq<char>, CipherError> {
    match res {
        Ok(text) => Ok(text@),
        Err(e) => Err(e),
    }
}

/// An optional byte vector taken as an optional sequence of bytes.
pub open spec fn bytes_of(outcome: Option<Vec<u8>>) -> Option<Seq<u8>> {
    match outcome {
        Some(bytes) => Some(bytes@),
        None => None,
    }
}

/// Draws a fresh salt from the system's random source.
///
/// The call returns a salt whenever it returns: a random source that fails
/// makes `orion` panic, and there is no weaker source to fall back on.
pub fn get_salt_bytes() -> (res: Result<[u8; 32], CipherError>)
    ensures
        res is Ok,
{
    let mut salt_bytes = [0u8; 32];
    match orion::util::secure_rand_bytes(&mut salt_bytes) {
        Ok(_) => Ok(salt_bytes),
        Err(_) => Err(CipherError::RandomSourceUnavailable),
    }
}

/// Turns the outcome of a key derivation into the key or the error that the
/// caller gets: `None` stands for a derivation that failed. Bytes that are
/// not `KEY_LEN` in number are no key, and are wiped.
pub fn key_from_outcome(outcome: Option<Vec<u8>>) -> (res: Result<SecretKey, CipherError>)
    ensures
        match res {
            Ok(key) => outcome matches Some(bytes) && bytes@.len() == KEY_LEN && key@ == bytes@,
            Err(e) => e == CipherError::KeyDerivationFailed && !(outcome matches Some(bytes)
                && bytes@.len() == KEY_LEN),
        },
{
    match outcome {
        None => Err(CipherError::KeyDerivationFailed),
        Some(bytes) => {
            if bytes.len() == KEY_LEN as usize {
                Ok(SecretKey { bytes })
            } else {
                let mut bytes = bytes;
                wipe(&mut bytes);
                Err(CipherError::KeyDerivationFailed)
            }
        },
    }
}

/// Derives the key that belongs to a password and a salt.
///
/// The same password and salt always give the same key. A key is given for
/// every usable password, whatever the salt, and for no other: an empty
/// password is refused.
pub fn get_secret_key(salt_bytes: [u8; 32], password: String) -> (res: Result<
    SecretKey,
    CipherError,
>)
    ensures
        match res {
            Ok(key) => key_for(password@, salt_bytes@) == Some(key@) && key@.len() == KEY_LEN,
            Err(e) => e == CipherError::KeyDerivationFailed && key_for(password@, salt_bytes@)
                is None,
        },
        res is Ok <==> is_usable_password(password@),
        password@.len() == 0 ==> res is Err,
{
    let derived = derive_key(
        password.as_str().as_bytes(),
        &salt_bytes,
        KDF_ITERATIONS,
        KDF_MEMORY,
        KEY_LEN,
    );
    match derived {
        Ok(bytes) => key_from_outcome(Some(bytes)),
        Err(_) => key_from_outcome(None),
    }
}

/// Seals a text under a key.
///
/// A text is sealed exactly when it is sealable: an empty text is refused,
/// and so is one beyond `MAX_PLAINTEXT_LEN`. The sealed message differs from
/// call to call, because the cipher draws a fresh nonce
/// each time. Every sealed message that is returned opens, under the same
/// key, to the text that was given.
pub fn encrypt(plaintext: String, secret_key: SecretKey) -> (res: Result<Vec<u8>, CipherError>)
    ensures
        match res {
            Ok(sealed) => {
                &&& sealed@.len() == encode_utf8(plaintext@).len() + SEAL_OVERHEAD
                &&& opened(secret_key@, sealed@) == Some(encode_utf8(plaintext@))
                &&& decrypted(secret_key@, sealed@) == Ok::<Seq<char>, CipherError>(plaintext@)
            },
            Err(e) => e == CipherError::EncryptionFailed,
        },
        res is Ok <==> is_sealable(plaintext@),
        plaintext@.len() == 0 ==> res is Err,
{
    proof {
        encode_utf8_valid_utf8(plaintext@);
        encode_utf8_decode_utf8(plaintext@);
    }
    match seal(secret_key.unprotected_as_bytes(), plaintext.as_str().as_bytes()) {
        Ok(sealed) => Ok(sealed),
        Err(_) => Err(CipherError::EncryptionFailed),
    }
}

/// Turns the outcome of opening a sealed message into the text or the error
/// that the caller gets: `None` stands for a message that did not verify.
pub fn decode_plaintext(outcome: Option<Vec<u8>>) -> (res: Result<String, CipherError>)
    ensures
        text_of(res) == decoded(bytes_of(outcome)),
        res matches Ok(text) ==> bytes_of(outcome) == Some(encode_utf8(text@)),
{
    match outcome {
        None => Err(CipherError::AuthenticationFailed),
        Some(bytes) => {
            match String::from_utf8(bytes) {
                Ok(text) => {
                    proof {
                        encode_utf8_decode_utf8(text@);
                    }
                    Ok(text)
                },
                Err(_) => Err(CipherError::InvalidEncoding),
            }
        },
    }
}

/// Opens a sealed message under a key and decodes the text in it.
///
/// A wrong key and a changed message fail alike, with
/// `AuthenticationFailed`. So does a message of no more than
/// `SEAL_OVERHEAD` bytes, which has no room for a text: it is never opened
/// to the empty text. And so does a message longer than `MAX_SEALED_LEN`,
/// which no sealing gives: its length is tested first, and the cipher is
/// not called on it.
pub fn decrypt(ciphertext: Vec<u8>, secret_key: SecretKey) -> (res: Result<String, CipherError>)
    ensures
        text_of(res) == decrypted(secret_key@, ciphertext@),
        ciphertext@.len() <= SEAL_OVERHEAD || ciphertext@.len() > MAX_SEALED_LEN ==> res == Err::<
            String,
            CipherError,
        >(CipherError::AuthenticationFailed),
        res matches Ok(text) ==> is_sealable(text@) && encode_utf8(text@).len() + SEAL_OVERHEAD
            == ciphertext@.len(),
{
    if ciphertext.len() as u64 > MAX_SEALED_LEN {
        return Err(CipherError::AuthenticationFailed);
    }
    match open(secret_key.unprotected_as_bytes(), ciphertext.as_slice()) {
        Ok(bytes) => decode_plaintext(Some(bytes)),
        Err(_) => decode_plaintext(None),
    }
}

/// The key that belongs to a password and a salt is determined by the two:
/// two derivations from the same password and salt cannot differ.
pub proof fn lemma_derivation_deterministic(
    password: Seq<char>,
    salt: Seq<u8>,
    first: Seq<u8>,
    second: Seq<u8>,
)
    requires
        key_for(password, salt) == Some(first),
        key_for(password, salt) == Some(second),
    ensures
        first == second,
{
}

} // verus!

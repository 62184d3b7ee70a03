//! The container: a salt, and directly behind it a sealed message.
//!
//! ```text
//! offset 0..32   the salt
//! offset 32..    the sealed message, to the end
//! ```
//!
//! There is no header, no version and no length field. The first 32 bytes
//! are taken as the salt, whatever they hold.

use vstd::prelude::*;
use vstd::slice::*;
use vstd::utf8::*;

use crate::crypto::{
    decrypt,
    decrypted,
    encrypt,
    get_salt_bytes,
    get_secret_key,
    is_sealable,
    is_usable_password,
    key_for,
    text_of,
};
use crate::error::CipherError;
use crate::primitives::{opened, MAX_SEALED_LEN, SEAL_OVERHEAD};
use crate::utils::{to_array, SALT_LEN};

verus! {

/// The container made of a salt and a sealed message.
pub open spec fn container_of(salt: Seq<u8>, sealed: Seq<u8>) -> Seq<u8> {
    salt + sealed
}

/// The salt of a container: its first `SALT_LEN` bytes.
pub open spec fn salt_of(container: Seq<u8>) -> Seq<u8>
    recommends
        container.len() >= SALT_LEN,
{
    container.subrange(0, SALT_LEN as int)
}

/// The sealed message of a container: all that follows the salt.
pub open spec fn sealed_of(container: Seq<u8>) -> Seq<u8>
    recommends
        container.len() >= SALT_LEN,
{
    container.subrange(SALT_LEN as int, container.len() as int)
}

/// The text that a container holds under a password, or the reason why it
/// gives none. A container too short for a salt is malformed, whatever the
/// password; otherwise the key is derived from the password and the
/// container's salt, and the rest is opened under it.
pub open spec fn decrypted_container(container: Seq<u8>, password: Seq<char>) -> Result<
    Seq<char>,
    CipherError,
> {
    if container.len() < SALT_LEN {
        Err(CipherError::MalformedContainer)
    } else {
        match key_for(password, salt_of(container)) {
            None => Err(CipherError::KeyDerivationFailed),
            Some(key) => decrypted(key, sealed_of(container)),
        }
    }
}

/// Whether a container is an encryption of a text under a password: its
/// salt leads, with the password, to a key under which the rest opens to the
/// text's bytes, and the rest is no longer than a sealed message can be.
pub open spec fn is_encryption_of(
    container: Seq<u8>,
    plaintext: Seq<char>,
    password: Seq<char>,
) -> bool {
    &&& SALT_LEN <= container.len() <= SALT_LEN + MAX_SEALED_LEN
    &&& key_for(password, salt_of(container)) matches Some(key) && opened(
        key,
        sealed_of(container),
    ) == Some(encode_utf8(plaintext))
}

/// Lays out a container: the salt, then the sealed message, with nothing in
/// between.
pub fn join_container(salt_bytes: &[u8; 32], sealed: &[u8]) -> (container: Vec<u8>)
    ensures
        container@ == container_of(salt_bytes@, sealed@),
{
    let mut container: Vec<u8> = Vec::new();
    container.extend_from_slice(salt_bytes);
    container.extend_from_slice(sealed);
    container
}

/// Parts a container into its salt and its sealed message. Only a container
/// shorter than a salt is refused.
pub fn split_container(data: &[u8]) -> (res: Result<(Vec<u8>, Vec<u8>), CipherError>)
    ensures
        match res {
            Ok((salt, sealed)) => data@.len() >= SALT_LEN && salt@ == salt_of(data@) && sealed@
                == sealed_of(data@),
            Err(e) => data@.len() < SALT_LEN && e == CipherError::MalformedContainer,
        },
{
    if data.len() < SALT_LEN {
        return Err(CipherError::MalformedContainer);
    }
    let salt = slice_to_vec(slice_subrange(data, 0, SALT_LEN));
    let sealed = slice_to_vec(slice_subrange(data, SALT_LEN, data.len()));
    Ok((salt, sealed))
}

/// Encrypts a text under a password with the salt given.
///
/// A container is given exactly for a usable password and a sealable text.
/// The key derivation decides first, then the cipher: a password that is
/// not usable gives `KeyDerivationFailed`, whatever the text, and a text
/// that is not sealable gives `EncryptionFailed`. A container that is returned starts with the salt and
/// decrypts, under the same password, to the text.
pub fn encrypt_with_salt(plaintext: String, password: String, salt_bytes: [u8; 32]) -> (res:
    Result<Vec<u8>, CipherError>)
    ensures
        match res {
            Ok(container) => {
                &&& container@.len() == SALT_LEN + SEAL_OVERHEAD + encode_utf8(plaintext@).len()
                &&& salt_of(container@) == salt_bytes@
                &&& is_encryption_of(container@, plaintext@, password@)
                &&& decrypted_container(container@, password@) == Ok::<Seq<char>, CipherError>(
                    plaintext@,
                )
            },
            Err(e) => if is_usable_password(password@) {
                e == CipherError::EncryptionFailed
            } else {
                e == CipherError::KeyDerivationFailed
            },
        },
        res is Ok <==> is_usable_password(password@) && is_sealable(plaintext@),
        !is_usable_password(password@) ==> res == Err::<Vec<u8>, CipherError>(
            CipherError::KeyDerivationFailed,
        ),
        key_for(password@, salt_bytes@) is None ==> res is Err,
        password@.len() == 0 ==> res == Err::<Vec<u8>, CipherError>(
            CipherError::KeyDerivationFailed,
        ),
        plaintext@.len() == 0 ==> res is Err,
{
    let secret_key = get_secret_key(salt_bytes, password)?;
    let sealed = encrypt(plaintext, secret_key)?;
    let container = join_container(&salt_bytes, sealed.as_slice());
    proof {
        lemma_split_join(salt_bytes@, sealed@);
    }
    Ok(container)
}

/// Encrypts a text under a password into a container, with a fresh salt.
///
/// A container is given exactly for a usable password and a sealable text:
/// a password that is not usable gives `KeyDerivationFailed`, whatever the
/// text, and a text that is not sealable gives `EncryptionFailed`. Two calls on the same text
/// and password give different containers: the salt is drawn anew each
/// time. Every container that is returned decrypts, under the same
/// password, to the text.
pub fn encrypt_to_container(plaintext: String, password: String) -> (res: Result<
    Vec<u8>,
    CipherError,
>)
    ensures
        match res {
            Ok(container) => {
                &&& container@.len() == SALT_LEN + SEAL_OVERHEAD + encode_utf8(plaintext@).len()
                &&& is_encryption_of(container@, plaintext@, password@)
                &&& decrypted_container(container@, password@) == Ok::<Seq<char>, CipherError>(
                    plaintext@,
                )
            },
            Err(e) => if is_usable_password(password@) {
                e == CipherError::EncryptionFailed
            } else {
                e == CipherError::KeyDerivationFailed
            },
        },
        res is Ok <==> is_usable_password(password@) && is_sealable(plaintext@),
        !is_usable_password(password@) ==> res == Err::<Vec<u8>, CipherError>(
            CipherError::KeyDerivationFailed,
        ),
        password@.len() == 0 ==> res == Err::<Vec<u8>, CipherError>(
            CipherError::KeyDerivationFailed,
        ),
        plaintext@.len() == 0 ==> res is Err,
{
    let salt_bytes = get_salt_bytes()?;
    encrypt_with_salt(plaintext, password, salt_bytes)
}

/// Decrypts a container under a password.
///
/// The container's length is looked at before anything else: one that is
/// too short for a salt is refused before any key is derived. Behind the
/// salt, the password decides next: one that is not usable gives
/// `KeyDerivationFailed`. A container that holds a salt and no more than
/// `SEAL_OVERHEAD` bytes behind it has no room for a text and fails with
/// `AuthenticationFailed`, and so does one with more than `MAX_SEALED_LEN`
/// bytes behind the salt, which no encryption gives.
pub fn decrypt_from_container(container: Vec<u8>, password: String) -> (res: Result<
    String,
    CipherError,
>)
    ensures
        text_of(res) == decrypted_container(container@, password@),
        container@.len() < SALT_LEN ==> res == Err::<String, CipherError>(
            CipherError::MalformedContainer,
        ),
        container@.len() >= SALT_LEN && !is_usable_password(password@) ==> res == Err::<
            String,
            CipherError,
        >(CipherError::KeyDerivationFailed),
        SALT_LEN <= container@.len() <= SALT_LEN + SEAL_OVERHEAD && is_usable_password(password@)
            ==> res == Err::<String, CipherError>(CipherError::AuthenticationFailed),
        container@.len() > SALT_LEN + MAX_SEALED_LEN && is_usable_password(password@) ==> res
            == Err::<String, CipherError>(CipherError::AuthenticationFailed),
        res matches Ok(text) ==> is_sealable(text@) && container@.len() == SALT_LEN
            + SEAL_OVERHEAD + encode_utf8(text@).len(),
{
    let (salt, sealed) = split_container(container.as_slice())?;
    let salt_bytes = to_array(salt)?;
    let secret_key = get_secret_key(salt_bytes, password)?;
    decrypt(sealed, secret_key)
}

/// A container that was laid out from a salt and a sealed message parts
/// into the same two.
pub proof fn lemma_split_join(salt: Seq<u8>, sealed: Seq<u8>)
    requires
        salt.len() == SALT_LEN,
    ensures
        container_of(salt, sealed).len() == SALT_LEN + sealed.len(),
        salt_of(container_of(salt, sealed)) == salt,
        sealed_of(container_of(salt, sealed)) == sealed,
{
}

/// A container is its salt followed by its sealed message, and nothing
/// else.
pub proof fn lemma_join_split(container: Seq<u8>)
    requires
        container.len() >= SALT_LEN,
    ensures
        container_of(salt_of(container), sealed_of(container)) == container,
{
}

/// Decrypting an encryption of a text, under the password it was encrypted
/// with, gives the text back.
pub proof fn lemma_round_trip(container: Seq<u8>, plaintext: Seq<char>, password: Seq<char>)
    requires
        is_encryption_of(container, plaintext, password),
    ensures
        decrypted_container(container, password) == Ok::<Seq<char>, CipherError>(plaintext),
{
    encode_utf8_valid_utf8(plaintext);
    encode_utf8_decode_utf8(plaintext);
}

/// Decryption gives a text only for a container that is an encryption of
/// that very text under the password: it never makes up a text that the
/// cipher did not authenticate under the password's key.
pub proof fn lemma_decrypts_only_encryptions(
    container: Seq<u8>,
    plaintext: Seq<char>,
    password: Seq<char>,
)
    requires
        decrypted_container(container, password) == Ok::<Seq<char>, CipherError>(plaintext),
    ensures
        is_encryption_of(container, plaintext, password),
{
    let key = key_for(password, salt_of(container))->0;
    let bytes = opened(key, sealed_of(container))->0;
    decode_utf8_encode_utf8(bytes);
}

/// A container is reported as malformed exactly when it is shorter than a
/// salt, whatever the password: the length is the only thing that counts.
pub proof fn lemma_malformed_iff_short(container: Seq<u8>, password: Seq<char>)
    ensures
        decrypted_container(container, password) == Err::<Seq<char>, CipherError>(
            CipherError::MalformedContainer,
        ) <==> container.len() < SALT_LEN,
{
}

} // verus!

//! The cryptographic primitives, as far as this library relies on them.
//!
//! Nothing in this module is proved. Each item states, of one function of
//! `orion` or of `std`, what the rest of the library takes for granted.

use vstd::prelude::*;
use vstd::utf8::*;

use orion::errors::UnknownCryptoError;
use std::string::FromUtf8Error;

verus! {

/// The bytes that the sealed form of a plaintext has beyond the plaintext
/// itself: a 24-byte nonce in front and a 16-byte Poly1305 tag behind.
pub const SEAL_OVERHEAD: usize = 40;

/// The longest plaintext that `orion::aead::seal` takes: 2^32 - 2 blocks of
/// 64 bytes. The cipher counts its key-stream blocks in 32 bits, and the
/// first block goes to the key of the tag.
pub const MAX_PLAINTEXT_LEN: u64 = 0x3f_ffff_ff80;

/// The longest sealed message that this library hands to `orion::aead::open`:
/// the longest plaintext with its nonce and its tag. Of a longer one whose
/// tag verifies `orion` cannot produce the last key-stream block, and
/// panics.
pub const MAX_SEALED_LEN: u64 = 0x3f_ffff_ffa8;

/// The longest password and the longest salt that `orion::kdf::derive_key`
/// takes.
pub const MAX_KDF_INPUT_LEN: u64 = 0xffff_ffff;

/// The shortest salt that `orion::kdf::derive_key` takes.
pub const MIN_KDF_SALT_LEN: u64 = 8;

/// The fewest passes that `orion::kdf::derive_key` takes.
pub const MIN_KDF_ITERATIONS: u32 = 3;

/// The least memory, in KiB, that `orion::kdf::derive_key` takes.
pub const MIN_KDF_MEMORY: u32 = 8;

/// The shortest key that `orion::kdf::derive_key` gives.
pub const MIN_KDF_KEY_LEN: u32 = 4;

/// The number of bytes of a key of `orion::aead`.
pub const AEAD_KEY_LEN: u64 = 32;

/// The inputs on which `orion::kdf::derive_key` returns a key: a password
/// that is not empty, a salt of at least 8 bytes, neither of them longer
/// than `MAX_KDF_INPUT_LEN`, and a cost and a key length at or above the
/// least that it takes.
pub open spec fn derivation_accepts(
    password_len: nat,
    salt_len: nat,
    iterations: u32,
    memory: u32,
    length: u32,
) -> bool {
    &&& 0 < password_len <= MAX_KDF_INPUT_LEN
    &&& MIN_KDF_SALT_LEN <= salt_len <= MAX_KDF_INPUT_LEN
    &&& iterations >= MIN_KDF_ITERATIONS
    &&& memory >= MIN_KDF_MEMORY
    &&& length >= MIN_KDF_KEY_LEN
}

/// The inputs on which `orion::aead::seal` returns a sealed message: a key
/// of 32 bytes and a plaintext that is not empty and no longer than
/// `MAX_PLAINTEXT_LEN`.
pub open spec fn sealing_accepts(key_len: nat, plaintext_len: nat) -> bool {
    &&& key_len == AEAD_KEY_LEN
    &&& 0 < plaintext_len <= MAX_PLAINTEXT_LEN
}

/// `orion::errors::UnknownCryptoError`, the one error of `orion`. It says
/// nothing of its cause.
#[verifier::external_type_specification]
#[verifier::external_body]
pub struct ExUnknownCryptoError(UnknownCryptoError);

/// `std::string::FromUtf8Error`, the error of `String::from_utf8`.
#[verifier::external_type_specification]
#[verifier::external_body]
pub struct ExFromUtf8Error(FromUtf8Error);

/// What `orion::kdf::derive_key` (Argon2i, one lane) makes of a password and
/// a salt under the given cost: the key, or `None` where it returns an
/// error. The derivation is deterministic.
pub uninterp spec fn derived_key(
    password: Seq<u8>,
    salt: Seq<u8>,
    iterations: u32,
    memory: u32,
    length: u32,
) -> Option<Seq<u8>>;

/// What `orion::aead::open` (XChaCha20-Poly1305) recovers from a sealed
/// message under a key: the plaintext, or `None` where the message does not
/// verify. Opening is deterministic.
pub uninterp spec fn opened(key: Seq<u8>, sealed: Seq<u8>) -> Option<Seq<u8>>;

/// `orion::util::secure_rand_bytes` fills `dst` with bytes from the system's
/// random source. It keeps the buffer's length, and returns an error exactly
/// when the buffer is empty. Nothing is claimed of the bytes. Where the
/// random source fails, `orion` panics rather than return.
pub assume_specification[ orion::util::secure_rand_bytes ](dst: &mut [u8]) -> (res: Result<
    (),
    UnknownCryptoError,
>)
    ensures
        final(dst)@.len() == old(dst)@.len(),
        res is Ok <==> old(dst)@.len() > 0,
;

/// `String::from_utf8` accepts exactly the byte vectors that are valid
/// UTF-8, and the string it returns is made of the very bytes it was given.
pub assume_specification[ String::from_utf8 ](vec: Vec<u8>) -> (res: Result<String, FromUtf8Error>)
    ensures
        res is Ok <==> valid_utf8(vec@),
        res matches Ok(s) ==> encode_utf8(s@) == vec@,
;

/// Calls `zeroize::Zeroize::zeroize` on the bytes of a vector, taken as a
/// slice, which overwrites every byte with zero, by writes that the compiler
/// may not remove, and keeps the vector's length. It does not panic.
#[verifier::external_body]
pub(crate) fn wipe(bytes: &mut Vec<u8>)
    ensures
        final(bytes)@.len() == old(bytes)@.len(),
        forall|i: int| 0 <= i < final(bytes)@.len() ==> final(bytes)@[i] == 0u8,
    opens_invariants none
    no_unwind
{
    zeroize::Zeroize::zeroize(bytes.as_mut_slice())
}

/// A bound on the memory of a key derivation, in KiB, and on the length of
/// the key, in bytes. The derivation allocates both at once; within the
/// bound that is no more than 1 GiB.
pub const DERIVATION_LIMIT: u32 = 0x10_0000;

/// Calls `orion::kdf::derive_key` on a password and a salt given as bytes,
/// and hands back the key's bytes. The result is `derived_key` of the
/// arguments. A key is returned exactly on the inputs that
/// `derivation_accepts` describes: an empty password or salt is refused by
/// `orion::kdf::Password::from_slice` and `orion::kdf::Salt::from_slice`,
/// the rest by the checks at the head of the two `derive_key` functions of
/// `orion`, and nothing behind those checks returns an error. A key that is
/// returned has `length` bytes.
#[verifier::external_body]
pub(crate) fn derive_key(
    password: &[u8],
    salt: &[u8],
    iterations: u32,
    memory: u32,
    length: u32,
) -> (res: Result<Vec<u8>, UnknownCryptoError>)
    requires
        memory <= DERIVATION_LIMIT,
        length <= DERIVATION_LIMIT,
    ensures
        match res {
            Ok(key) => derived_key(password@, salt@, iterations, memory, length) == Some(key@)
                && key@.len() == length,
            Err(_) => derived_key(password@, salt@, iterations, memory, length) is None,
        },
        res is Ok <==> derivation_accepts(
            password@.len(),
            salt@.len(),
            iterations,
            memory,
            length,
        ),
{
    let password = orion::kdf::Password::from_slice(password)?;
    let salt = orion::kdf::Salt::from_slice(salt)?;
    let key = orion::kdf::derive_key(&password, &salt, iterations, memory, length)?;
    Ok(key.unprotected_as_bytes().to_vec())
}

/// Calls `orion::aead::seal` with a key given as bytes. The nonce is drawn
/// at random inside `orion`, so the sealed message is no function of the
/// arguments. What holds of every sealed message that is returned: it is
/// `SEAL_OVERHEAD` bytes longer than the plaintext, and `orion::aead::open`
/// recovers the plaintext from it under the same key. Whether one is
/// returned does not hang on the nonce: the call succeeds exactly on the
/// inputs that `sealing_accepts` describes. An empty plaintext, one beyond
/// the cipher's maximum, one whose last block the block counter cannot
/// reach, and a key that is not 32 bytes are each refused with an error.
/// Where the random source fails, `orion` panics rather than return.
#[verifier::external_body]
pub(crate) fn seal(key: &[u8], plaintext: &[u8]) -> (res: Result<Vec<u8>, UnknownCryptoError>)
    ensures
        res is Ok <==> sealing_accepts(key@.len(), plaintext@.len()),
        res matches Ok(sealed) ==> sealed@.len() == plaintext@.len() + SEAL_OVERHEAD && opened(
            key@,
            sealed@,
        ) == Some(plaintext@),
{
    let key = orion::aead::SecretKey::from_slice(key)?;
    orion::aead::seal(&key, plaintext)
}

/// Calls `orion::aead::open` with a key given as bytes. The result is
/// `opened` of the arguments. A plaintext that is returned is
/// `SEAL_OVERHEAD` bytes shorter than the sealed message, and a sealed
/// message of no more than `SEAL_OVERHEAD` bytes is refused.
///
/// The call is made only on messages of at most `MAX_SEALED_LEN` bytes.
/// `orion` checks the tag of a longer one, up to one block more, and then
/// panics on the last block where the tag verifies: unlike `seal`, it does
/// not ask first whether the block counter can reach that block.
#[verifier::external_body]
pub(crate) fn open(key: &[u8], sealed: &[u8]) -> (res: Result<Vec<u8>, UnknownCryptoError>)
    requires
        sealed@.len() <= MAX_SEALED_LEN,
    ensures
        match res {
            Ok(plaintext) => opened(key@, sealed@) == Some(plaintext@) && plaintext@.len()
                + SEAL_OVERHEAD == sealed@.len(),
            Err(_) => opened(key@, sealed@) is None,
        },
        sealed@.len() <= SEAL_OVERHEAD ==> res is Err,
{
    let key = orion::aead::SecretKey::from_slice(key)?;
    orion::aead::open(&key, sealed)
}

} // verus!

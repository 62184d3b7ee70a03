//! Password-based encryption of a single text into a self-describing
//! container, and back.
//!
//! A container is a 32-byte salt followed by an authenticated ciphertext.
//! The key is derived from the password and the salt with Argon2i, and the
//! text is sealed with XChaCha20-Poly1305.

pub mod container;
pub mod crypto;
pub mod error;
pub mod primitives;
pub mod utils;

use rustcm::crypto::{
    decode_plaintext, decrypt, encrypt, get_salt_bytes, get_secret_key, key_from_outcome,
    SecretKey, KDF_ITERATIONS, KDF_MEMORY, KEY_LEN,
};
use rustcm::error::CipherError;
use rustcm::primitives::SEAL_OVERHEAD;

fn key_bytes(password: &str, salt: [u8; 32]) -> Vec<u8> {
    let key = get_secret_key(salt, password.to_string()).unwrap();
    key.unprotected_as_bytes().to_vec()
}

fn key_of(bytes: &[u8]) -> SecretKey {
    SecretKey::from_slice(bytes).unwrap()
}

#[test]
fn the_cost_of_the_derivation_is_fixed() {
    assert_eq!(KDF_ITERATIONS, 3);
    assert_eq!(KDF_MEMORY, 8);
    assert_eq!(KEY_LEN, 32);
    assert_eq!(SEAL_OVERHEAD, 40);
}

#[test]
fn a_salt_is_always_given() {
    assert!(get_salt_bytes().is_ok());
}

#[test]
fn two_salts_differ() {
    let first = get_salt_bytes().unwrap();
    let second = get_salt_bytes().unwrap();
    assert_ne!(first, second);
}

#[test]
fn a_salt_is_not_left_at_zero() {
    assert_ne!(get_salt_bytes().unwrap(), [0u8; 32]);
}

#[test]
fn the_same_password_and_salt_give_the_same_key() {
    let salt = [7u8; 32];
    assert_eq!(key_bytes("correct horse", salt), key_bytes("correct horse", salt));
}

#[test]
fn a_derived_key_has_32_bytes() {
    assert_eq!(key_bytes("correct horse", [7u8; 32]).len(), 32);
    assert_eq!(key_bytes("p", [0u8; 32]).len(), 32);
}

#[test]
fn another_salt_gives_another_key() {
    let mut other = [7u8; 32];
    other[31] = 8;
    assert_ne!(key_bytes("correct horse", [7u8; 32]), key_bytes("correct horse", other));
}

#[test]
fn another_password_gives_another_key() {
    let salt = [7u8; 32];
    assert_ne!(key_bytes("correct horse", salt), key_bytes("wrong password", salt));
}

#[test]
fn a_key_is_neither_the_password_nor_the_salt() {
    let salt = [7u8; 32];
    let password = "0123456789abcdef0123456789abcdef";
    let key = key_bytes(password, salt);
    assert_ne!(key, password.as_bytes().to_vec());
    assert_ne!(key, salt.to_vec());
}

#[test]
fn the_key_of_correct_horse_under_a_salt_of_sevens() {
    let expected: [u8; 32] = [
        0, 219, 22, 13, 81, 109, 240, 54, 115, 33, 255, 69, 221, 22, 242, 11, 33, 45, 201, 141,
        250, 116, 68, 153, 185, 36, 118, 100, 161, 148, 104, 19,
    ];
    assert_eq!(key_bytes("correct horse", [7u8; 32]), expected.to_vec());
}

#[test]
fn the_key_of_a_password_beyond_ascii() {
    let mut salt = [0u8; 32];
    for i in 0..32 {
        salt[i] = i as u8;
    }
    let expected: [u8; 32] = [
        79, 209, 102, 250, 132, 8, 190, 19, 118, 216, 39, 132, 127, 119, 209, 102, 133, 165, 99,
        177, 9, 214, 180, 47, 17, 52, 93, 104, 88, 215, 25, 250,
    ];
    assert_eq!(key_bytes("pässwörd", salt), expected.to_vec());
}

#[test]
fn a_failed_derivation_gives_no_key() {
    assert_eq!(key_from_outcome(None).err(), Some(CipherError::KeyDerivationFailed));
}

#[test]
fn derived_bytes_of_another_length_give_no_key() {
    assert_eq!(key_from_outcome(Some(Vec::new())).err(), Some(CipherError::KeyDerivationFailed));
    assert_eq!(
        key_from_outcome(Some(vec![1u8; 31])).err(),
        Some(CipherError::KeyDerivationFailed)
    );
    assert_eq!(
        key_from_outcome(Some(vec![1u8; 33])).err(),
        Some(CipherError::KeyDerivationFailed)
    );
}

#[test]
fn derived_bytes_become_the_key() {
    let bytes: Vec<u8> = (50u8..82).collect();
    let key = key_from_outcome(Some(bytes.clone())).unwrap();
    assert_eq!(key.unprotected_as_bytes(), &bytes[..]);
}

#[test]
fn the_key_is_argon2i_at_the_fixed_cost() {
    let salt = [7u8; 32];
    let password = orion::kdf::Password::from_slice(b"correct horse").unwrap();
    let orion_salt = orion::kdf::Salt::from_slice(&salt).unwrap();
    let expected = orion::kdf::derive_key(&password, &orion_salt, 3, 8, 32).unwrap();
    assert_eq!(key_bytes("correct horse", salt), expected.unprotected_as_bytes().to_vec());
    let costlier = orion::kdf::derive_key(&password, &orion_salt, 4, 8, 32).unwrap();
    assert_ne!(key_bytes("correct horse", salt), costlier.unprotected_as_bytes().to_vec());
}

#[test]
fn the_password_goes_in_as_its_utf8_bytes() {
    let salt = [1u8; 32];
    let password = orion::kdf::Password::from_slice("pässwörd".as_bytes()).unwrap();
    let orion_salt = orion::kdf::Salt::from_slice(&salt).unwrap();
    let expected = orion::kdf::derive_key(&password, &orion_salt, 3, 8, 32).unwrap();
    assert_eq!(key_bytes("pässwörd", salt), expected.unprotected_as_bytes().to_vec());
}

#[test]
fn an_empty_password_is_refused() {
    let res = get_secret_key([7u8; 32], String::new());
    assert_eq!(res.err(), Some(CipherError::KeyDerivationFailed));
}

#[test]
fn a_key_is_made_from_32_bytes_only() {
    assert!(SecretKey::from_slice(&[]).is_none());
    assert!(SecretKey::from_slice(&[1u8; 31]).is_none());
    assert!(SecretKey::from_slice(&[1u8; 33]).is_none());
    let bytes: Vec<u8> = (0u8..32).collect();
    let key = SecretKey::from_slice(&bytes).unwrap();
    assert_eq!(key.unprotected_as_bytes(), &bytes[..]);
}

#[test]
fn a_sealed_text_is_40_bytes_longer() {
    let sealed = encrypt("hello world".to_string(), key_of(&[3u8; 32])).unwrap();
    assert_eq!(sealed.len(), 11 + 40);
    let sealed = encrypt("x".to_string(), key_of(&[3u8; 32])).unwrap();
    assert_eq!(sealed.len(), 41);
}

#[test]
fn the_length_counts_bytes_not_characters() {
    let text = "héllo wörld ✓";
    assert_eq!(text.len(), 17);
    let sealed = encrypt(text.to_string(), key_of(&[3u8; 32])).unwrap();
    assert_eq!(sealed.len(), 17 + 40);
}

#[test]
fn a_sealed_text_does_not_show_the_text() {
    let text = "attack at dawn, attack at dawn, attack at dawn";
    let sealed = encrypt(text.to_string(), key_of(&[3u8; 32])).unwrap();
    assert_ne!(&sealed[..text.len()], text.as_bytes());
    assert_ne!(&sealed[24..24 + text.len()], text.as_bytes());
}

#[test]
fn sealing_twice_gives_two_messages() {
    let first = encrypt("hello world".to_string(), key_of(&[3u8; 32])).unwrap();
    let second = encrypt("hello world".to_string(), key_of(&[3u8; 32])).unwrap();
    assert_ne!(first, second);
}

#[test]
fn an_empty_text_is_refused() {
    let res = encrypt(String::new(), key_of(&[3u8; 32]));
    assert_eq!(res, Err(CipherError::EncryptionFailed));
}

#[test]
fn what_was_sealed_opens_to_the_text() {
    let sealed = encrypt("hello world".to_string(), key_of(&[3u8; 32])).unwrap();
    let text = decrypt(sealed, key_of(&[3u8; 32]));
    assert_eq!(text, Ok("hello world".to_string()));
}

#[test]
fn text_beyond_ascii_comes_back_unchanged() {
    let text = "Grüße, 世界! \u{1F512}\n\ttab";
    let sealed = encrypt(text.to_string(), key_of(&[9u8; 32])).unwrap();
    assert_eq!(decrypt(sealed, key_of(&[9u8; 32])), Ok(text.to_string()));
}

#[test]
fn the_cipher_itself_opens_what_was_sealed() {
    let sealed = encrypt("hello world".to_string(), key_of(&[3u8; 32])).unwrap();
    let key = orion::aead::SecretKey::from_slice(&[3u8; 32]).unwrap();
    assert_eq!(orion::aead::open(&key, &sealed).unwrap(), b"hello world".to_vec());
}

#[test]
fn what_the_cipher_itself_sealed_is_opened() {
    let key = orion::aead::SecretKey::from_slice(&[3u8; 32]).unwrap();
    let sealed = orion::aead::seal(&key, b"hello world").unwrap();
    assert_eq!(decrypt(sealed, key_of(&[3u8; 32])), Ok("hello world".to_string()));
}

#[test]
fn another_key_does_not_open() {
    let sealed = encrypt("hello world".to_string(), key_of(&[3u8; 32])).unwrap();
    let mut other = [3u8; 32];
    other[0] = 2;
    assert_eq!(decrypt(sealed, key_of(&other)), Err(CipherError::AuthenticationFailed));
}

#[test]
fn a_changed_message_does_not_open() {
    let sealed = encrypt("hello world".to_string(), key_of(&[3u8; 32])).unwrap();
    for i in 0..sealed.len() {
        for bit in 0..8 {
            let mut changed = sealed.clone();
            changed[i] ^= 1u8 << bit;
            assert_eq!(
                decrypt(changed, key_of(&[3u8; 32])),
                Err(CipherError::AuthenticationFailed)
            );
        }
    }
}

#[test]
fn a_shortened_message_does_not_open() {
    let sealed = encrypt("hello world".to_string(), key_of(&[3u8; 32])).unwrap();
    for len in 0..sealed.len() {
        assert_eq!(
            decrypt(sealed[..len].to_vec(), key_of(&[3u8; 32])),
            Err(CipherError::AuthenticationFailed)
        );
    }
}

#[test]
fn a_message_of_40_bytes_or_fewer_does_not_open() {
    assert_eq!(decrypt(Vec::new(), key_of(&[3u8; 32])), Err(CipherError::AuthenticationFailed));
    assert_eq!(decrypt(vec![0u8; 40], key_of(&[3u8; 32])), Err(CipherError::AuthenticationFailed));
}

#[test]
fn nothing_sealed_does_not_open_under_a_derived_key() {
    let key = get_secret_key([0u8; 32], "correct horse".to_string()).unwrap();
    assert_eq!(decrypt(Vec::new(), key), Err(CipherError::AuthenticationFailed));
}

#[test]
fn no_message_opens_to_the_empty_text() {
    // Forty bytes have room for a nonce and a tag and for nothing between
    // them.
    for len in 0..=40 {
        assert_eq!(
            decrypt(vec![0x5au8; len], key_of(&[3u8; 32])),
            Err(CipherError::AuthenticationFailed)
        );
    }
}

#[test]
fn a_text_of_one_byte_is_sealed() {
    let sealed = encrypt("a".to_string(), key_of(&[3u8; 32])).unwrap();
    assert_eq!(decrypt(sealed, key_of(&[3u8; 32])), Ok("a".to_string()));
}

#[test]
fn a_password_of_one_byte_gives_a_key() {
    assert!(get_secret_key([0u8; 32], "a".to_string()).is_ok());
    assert!(get_secret_key([0xffu8; 32], "\0".to_string()).is_ok());
}

#[test]
fn a_long_password_gives_a_key() {
    let password = "correct horse battery staple ".repeat(1000);
    assert!(get_secret_key([9u8; 32], password).is_ok());
}

#[test]
fn sealed_bytes_that_are_no_text_are_invalid_encoding() {
    let key = orion::aead::SecretKey::from_slice(&[3u8; 32]).unwrap();
    let sealed = orion::aead::seal(&key, &[0xff, 0xfe, 0xfd]).unwrap();
    assert_eq!(decrypt(sealed, key_of(&[3u8; 32])), Err(CipherError::InvalidEncoding));
}

#[test]
fn a_message_that_did_not_open_is_an_authentication_failure() {
    assert_eq!(decode_plaintext(None), Err(CipherError::AuthenticationFailed));
}

#[test]
fn opened_bytes_become_the_text_they_encode() {
    assert_eq!(decode_plaintext(Some(b"hello world".to_vec())), Ok("hello world".to_string()));
    assert_eq!(
        decode_plaintext(Some(vec![0xe4, 0xb8, 0x96, 0xe7, 0x95, 0x8c])),
        Ok("世界".to_string())
    );
    assert_eq!(decode_plaintext(Some(Vec::new())), Ok(String::new()));
}

#[test]
fn opened_bytes_that_encode_no_text_are_refused() {
    assert_eq!(decode_plaintext(Some(vec![0xff])), Err(CipherError::InvalidEncoding));
    assert_eq!(decode_plaintext(Some(vec![b'a', 0xc3])), Err(CipherError::InvalidEncoding));
    assert_eq!(decode_plaintext(Some(vec![0xc0, 0x80])), Err(CipherError::InvalidEncoding));
    assert_eq!(decode_plaintext(Some(vec![0xed, 0xa0, 0x80])), Err(CipherError::InvalidEncoding));
    assert_eq!(
        decode_plaintext(Some(vec![0xf4, 0x90, 0x80, 0x80])),
        Err(CipherError::InvalidEncoding)
    );
    assert_eq!(
        decode_plaintext(Some(vec![0xf8, 0x88, 0x80, 0x80, 0x80])),
        Err(CipherError::InvalidEncoding)
    );
    assert_eq!(decode_plaintext(Some(vec![0x80])), Err(CipherError::InvalidEncoding));
}

#[test]
fn the_widest_and_the_last_character_are_text() {
    assert_eq!(
        decode_plaintext(Some(vec![0xf0, 0x9f, 0x94, 0x92])),
        Ok("\u{1F512}".to_string())
    );
    assert_eq!(
        decode_plaintext(Some(vec![0xf4, 0x8f, 0xbf, 0xbf])),
        Ok("\u{10FFFF}".to_string())
    );
}

use rustcm::error::CipherError;
use rustcm::utils::{to_array, SALT_LEN};

#[test]
fn a_salt_has_32_bytes() {
    assert_eq!(SALT_LEN, 32);
}

#[test]
fn a_vector_of_32_bytes_becomes_an_array_of_the_same_bytes() {
    let v: Vec<u8> = (100u8..132).collect();
    let mut expected = [0u8; 32];
    for i in 0..32 {
        expected[i] = 100 + i as u8;
    }
    assert_eq!(to_array(v), Ok(expected));
}

#[test]
fn a_vector_of_another_length_is_refused() {
    assert_eq!(to_array(Vec::new()), Err(CipherError::MalformedContainer));
    assert_eq!(to_array(vec![1u8; 31]), Err(CipherError::MalformedContainer));
    assert_eq!(to_array(vec![1u8; 33]), Err(CipherError::MalformedContainer));
    assert_eq!(to_array(vec![1u8; 64]), Err(CipherError::MalformedContainer));
}

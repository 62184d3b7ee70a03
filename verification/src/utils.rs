use vstd::prelude::*;

use crate::error::CipherError;

verus! {

/// The number of bytes in a salt.
pub const SALT_LEN: usize = 32;

/// Turns a vector of exactly `SALT_LEN` bytes into an array with the same
/// bytes. A vector of any other length is refused.
pub fn to_array(v: Vec<u8>) -> (res: Result<[u8; 32], CipherError>)
    ensures
        match res {
            Ok(bytes) => v@.len() == SALT_LEN && bytes@ == v@,
            Err(e) => v@.len() != SALT_LEN && e == CipherError::MalformedContainer,
        },
{
    if v.len() != SALT_LEN {
        return Err(CipherError::MalformedContainer);
    }
    let mut bytes = [0u8; 32];
    let mut i: usize = 0;
    while i < SALT_LEN
        invariant
            i <= SALT_LEN,
            v@.len() == SALT_LEN,
            forall|j: int| 0 <= j < i ==> bytes@[j] == v@[j],
        decreases SALT_LEN - i,
    {
        bytes[i] = v[i];
        i += 1;
    }
    Ok(bytes)
}

} // verus!

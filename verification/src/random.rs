//! `gen_random_bytes`, `random_bytes` and `gen_random_uuid`.
use crate::sodium::random_vec;
use vstd::prelude::*;

verus! {

/// The most bytes one call hands out.
pub const MAX_RANDOM_BYTES: i32 = 1024;

#[derive(Clone, Copy, Debug, PartialEq, Eq, Structural)]
pub enum RandomError {
    /// A length outside 1 to 1024.
    LengthOutOfRange,
}

/// `uuid::Uuid::new_v4`: sixteen random bytes with the version nibble set
/// to 4 and the variant bits to `10`.
#[verifier::external_body]
fn uuid_v4_bytes() -> (out: Vec<u8>)
    ensures
        out@.len() == 16,
        out@[6] >> 4u8 == 4,
        out@[8] & 0xc0u8 == 0x80,
{
    uuid::Uuid::new_v4().as_bytes().to_vec()
}

/// `gen_random_bytes(length)`: `length` bytes from the CSPRNG, for a length
/// from 1 to 1024.
pub fn gen_random_bytes(length: i32) -> (r: Result<Vec<u8>, RandomError>)
    ensures
        match r {
            Ok(v) => 1 <= length <= MAX_RANDOM_BYTES && v@.len() == length,
            Err(e) => !(1 <= length <= MAX_RANDOM_BYTES) && e == RandomError::LengthOutOfRange,
        },
{
    if !(1 <= length && length <= MAX_RANDOM_BYTES) {
        return Err(RandomError::LengthOutOfRange);
    }
    Ok(random_vec(length as usize))
}

/// `random_bytes(length)`: the same as `gen_random_bytes`.
pub fn random_bytes(length: i32) -> (r: Result<Vec<u8>, RandomError>)
    ensures
        match r {
            Ok(v) => 1 <= length <= MAX_RANDOM_BYTES && v@.len() == length,
            Err(e) => !(1 <= length <= MAX_RANDOM_BYTES) && e == RandomError::LengthOutOfRange,
        },
{
    gen_random_bytes(length)
}

/// `gen_random_uuid()`: the sixteen bytes of a random (version 4, RFC 4122
/// variant) UUID.
pub fn gen_random_uuid() -> (r: Vec<u8>)
    ensures
        r@.len() == 16,
        r@[6] >> 4u8 == 4,
        r@[8] & 0xc0u8 == 0x80,
{
    uuid_v4_bytes()
}

} // verus!

use pg_crypto::random::{gen_random_bytes, gen_random_uuid, random_bytes, RandomError, MAX_RANDOM_BYTES};

#[test]
fn random_bytes_lengths() {
    assert_eq!(gen_random_bytes(1).unwrap().len(), 1);
    assert_eq!(gen_random_bytes(32).unwrap().len(), 32);
    assert_eq!(random_bytes(MAX_RANDOM_BYTES).unwrap().len(), 1024);
}

#[test]
fn random_bytes_range_errors() {
    assert_eq!(gen_random_bytes(0), Err(RandomError::LengthOutOfRange));
    assert_eq!(gen_random_bytes(-1), Err(RandomError::LengthOutOfRange));
    assert_eq!(random_bytes(1025), Err(RandomError::LengthOutOfRange));
}

#[test]
fn random_bytes_differ() {
    assert_ne!(gen_random_bytes(32).unwrap(), gen_random_bytes(32).unwrap());
}

#[test]
fn random_uuid_version_and_variant() {
    let u = gen_random_uuid();
    assert_eq!(u.len(), 16);
    assert_eq!(u[6] >> 4, 4);
    assert_eq!(u[8] & 0xc0, 0x80);
    assert_ne!(u, gen_random_uuid());
}

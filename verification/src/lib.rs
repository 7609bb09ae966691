//! Cryptographic functions in the manner of PostgreSQL's pgcrypto, with
//! modern authenticated constructions beside them.
pub mod text;
pub mod block_modes;
pub mod raw;
pub mod digests;
pub mod hash;
pub mod pgp_options;
pub mod password_hashes;
pub mod password;
pub mod sodium;
pub mod modern;
pub mod random;
pub mod armor;
pub mod pgp_engine;
pub mod pgp;

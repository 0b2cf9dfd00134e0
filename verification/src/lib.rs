//! Address encoding and the tweakable hash of a stateless hash-based
//! signature scheme, over SHA-2.

pub mod address;
pub mod context;
pub mod params;
pub mod sha256;
pub mod sha512;
pub mod thash_sha2_robust;
pub mod utils;

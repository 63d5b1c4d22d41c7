//! A hashing abstraction over the Stark prime field: a hashing interface
//! (`HasherT`, `DefaultHasher`) and its binding to the Poseidon permutation
//! hash of an external cryptographic library.

pub mod field;
pub mod hashing;
pub mod poseidon;

pub use field::Felt;
pub use hashing::DefaultHasher;
pub use hashing::Felt252Wrapper;
pub use hashing::HashError;
pub use hashing::HasherT;
pub use poseidon::PoseidonHasher;

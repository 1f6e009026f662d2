//! Identity keys: the address of a referenced value as a comparable,
//! hashable, copyable number.

pub mod hex;
pub mod pointer_address;

pub use pointer_address::PointerAddress;

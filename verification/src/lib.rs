//! A Bloom filter: a compact probabilistic set-membership structure.
//!
//! Values are inserted by setting `k` bits of a fixed-length bit store,
//! each bit chosen by one of a small palette of hash strategies; a query
//! reports "possibly a member" only when all `k` bits are set, so a
//! negative answer is definitive while a positive one may be a false
//! positive.

pub mod bits;
pub mod filter;
pub mod hashing;

pub use filter::BloomFilter;
pub use filter::BloomFilterError;

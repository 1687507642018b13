//! An append-only ledger of book-checkout events, sealed by proof of work.
//!
//! Each block carries a checkout record, a timestamp, the hash of the
//! previous block, and a nonce found by mining; the chain validates linkage
//! and every block's content hash end to end.

pub mod block;
pub mod chain;
pub mod digits;
pub mod hashing;
pub mod record;

pub use block::Block;
pub use chain::Blockchain;

pub use digits::u64_to_dec;
pub use digits::u64_to_hex;
pub use record::Book;
pub use record::BookCheckout;
pub use record::derive_book_id;

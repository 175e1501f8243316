//! A content-addressed object store for images and their metadata.
//!
//! Payloads are saved under an identifier computed from their bytes, in one of
//! three partitions chosen by category, and read back by category and identifier.
mod category;
mod error;
mod id_gen;
mod storage;
mod store;

pub use category::Category;
pub use error::StorageError;
pub use id_gen::{
    hex_encode, hex_digit, hex_of, lemma_hash_id_stable, lemma_id_deterministic, sha256_of,
    HashIdGenerator, IdGenerator, IdGeneratorStub,
};
pub use storage::{DummyStorage, Storage};
pub use store::{lemma_categories_isolated, lemma_round_trip, lemma_save_idempotent, Store};

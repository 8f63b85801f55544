//! An encrypted, client-side configuration vault.
//!
//! A single master password protects a directory of named configurations;
//! each configuration is sealed under its own randomly generated passphrase.
pub mod assoc;
pub mod string_map;
pub mod crypto;
pub mod error;
pub mod storage;
pub mod secure_storage;
pub mod directory;
pub mod vault;
pub mod guarantees;
pub mod runtime;
pub mod object_store;

pub use error::{SlotError, VaultError};
pub use object_store::{
    CommonPrefix, Content, FileObject, ListObjectsResult, LocalFs, ObjectStore, ObjectStoreHandler,
    ObjectStoreTrait, S3Bucket,
};
pub use runtime::RunTime;
pub use secure_storage::SecureStorage;
pub use storage::{MemoryStore, ObjectKey};
pub use string_map::StringMap;
pub use vault::StringVault;

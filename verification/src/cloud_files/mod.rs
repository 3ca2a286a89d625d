//! The mount: placeholders for remote files, their contents on demand, and the
//! space that they take on the local disk.

pub mod error;
pub mod laws;
pub mod placeholder;
pub mod root;
pub mod storage;

pub use self::root::{
    is_registered_sync_root_path, registration_status, unregister, RegistrationStatus,
};
pub use self::storage::{
    release_local_file, release_local_paths, release_local_storage, scan_local_storage,
    scan_local_storage_entries, LocalStorageEntry, LocalStorageStats,
};

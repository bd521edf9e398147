//! Region-partitioned AES-128-CBC disc images: header region maps, key
//! validation, and the per-sector cipher.

pub mod cipher;
pub mod discovery;
pub mod error;
pub mod key;
pub mod region;

//! The catalog's request flows: searching, exploring, covers, downloads and
//! metadata lookups.
pub mod cover;
pub mod download;
pub mod retry;
pub mod explore;
pub mod metadata;
pub mod search;

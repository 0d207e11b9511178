//! OPDS (Atom) catalog documents.
pub mod feeds;
pub mod links;
pub mod xml;

//! Account-state extraction from unpacked ledger snapshots.
//!
//! A snapshot is a directory holding a manifest and a set of append-only
//! segment files. This library decodes segment records with strict bounds
//! checking, decodes the accounts-database part of the manifest, builds the
//! identity-to-location index and validates point-lookup requests. Reading
//! files, mapping them into memory and serving requests is left to the caller.

pub mod layout;
pub mod append_vec;
pub mod records;
pub mod names;
pub mod manifest;
pub mod index;
pub mod unpacked;
pub mod rpc;

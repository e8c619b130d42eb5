//! Peer-configuration data model and validation pipeline for a BGP daemon.
//!
//! Raw decoded configuration records are resolved one by one (endpoint
//! resolution, AS-number normalization), accumulated into an ordered
//! registry, and the whole registry is then checked for duplicate peer
//! names.  A malformed record is skipped; a duplicate name fails the load.

pub mod address;
pub mod as_number;
pub mod config_file;
pub mod errors;
pub mod ip_literal;
pub mod peer;
pub mod registry;

//! The failure taxonomy of a configuration load.
//!
//! `EmptyPeerName` and `AddressParseError` are per-record findings: the
//! offending record is dropped and the load goes on.  `DuplicateName`
//! fails the whole load.  `ConfigFileNotFound` is raised at the file
//! boundary, before any record reaches the parser.

use vstd::prelude::*;

verus! {

/// What went wrong while loading a configuration.
#[derive(Clone, Debug)]
pub enum ConfigError {
    /// A record carried an empty peer name.
    EmptyPeerName,
    /// An address field matched neither IPv4 nor IPv6 literal syntax.
    AddressParseError { literal: String },
    /// Two peers in one load carried the same name.
    DuplicateName { name: String },
    /// The configuration file named on the command line is missing.
    ConfigFileNotFound { path: String },
}

impl ConfigError {
    /// A human-readable description of the failure.
    pub fn message(&self) -> (r: String)
        ensures
            self matches ConfigError::EmptyPeerName ==> r@ == "Empty peer name found"@,
            (self matches ConfigError::AddressParseError { literal } ==> r@
                == "Cannot parse IP address "@ + literal@),
            (self matches ConfigError::DuplicateName { name } ==> r@
                == "Duplicate peer definition "@ + name@),
            (self matches ConfigError::ConfigFileNotFound { path } ==> r@ == "Config file "@
                + path@ + " does not exist"@),
    {
        match self {
            ConfigError::EmptyPeerName => String::from_str("Empty peer name found"),
            ConfigError::AddressParseError { literal } => String::from_str(
                "Cannot parse IP address ",
            ).concat(literal.as_str()),
            ConfigError::DuplicateName { name } => String::from_str(
                "Duplicate peer definition ",
            ).concat(name.as_str()),
            ConfigError::ConfigFileNotFound { path } => String::from_str("Config file ").concat(
                path.as_str(),
            ).concat(" does not exist"),
        }
    }
}

} // verus!

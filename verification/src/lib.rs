//! Policy engine for generating an OpenPGP key bundle: a certification-only
//! master key, three single-purpose subkeys (sign, encrypt, authenticate),
//! passphrase protection, and a detached revocation certificate, together
//! with a structural verifier that parses colon-delimited structural dumps
//! of the produced artifacts.

pub mod caps;
pub mod decimal;
pub mod engine;
pub mod identity;
pub mod policy;
pub mod records;

pub use caps::CapabilitySet;

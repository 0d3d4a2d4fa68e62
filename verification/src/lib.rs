//! Resolution and ordering of immutable system generations.
//!
//! A [`profile::Profile`] identifies a generation's storage location and
//! carries the version that is encoded in the final segment of its path.
//! A [`generation::Generation`] combines that version with a loaded boot
//! specification and may be specialised into named variants that share the
//! version but boot a different configuration.

pub mod bootspec;
pub mod decimal;
pub mod generation;
pub mod profile;

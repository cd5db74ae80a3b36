//! Configuration resolution and identity-directory core for a PaaS
//! control plane.
//!
//! The library resolves layered runtime settings (a namespace and the
//! location the settings came from) into one immutable [`settings::Settings`]
//! value, and normalizes heterogeneous secret records from an external
//! store into a username-keyed [`auth::AuthUsers`] directory snapshot.
//! All file, environment and network access stays with the caller, which
//! hands the probed values in; everything in this crate is pure and
//! verified.

pub mod auth;
pub mod cli;
pub mod document;
pub mod errors;
pub mod location;
pub mod namespace;
pub mod secrets;
pub mod settings;
pub mod text;

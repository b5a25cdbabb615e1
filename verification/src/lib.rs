//! Core logic of a native-process supervisor for a local Python backend:
//! path resolution, environment provisioning plans, dependency-manifest
//! parsing, port reclamation plans, and the backend process lifecycle.

pub mod errors;
pub mod guard;
pub mod install;
pub mod supervisor;
pub mod manifest;
pub mod models;
pub mod paths;
pub mod provision;
pub mod text;
pub mod voices;

use vstd::prelude::*;

verus! {

/// The well-known local TCP port the supervised backend listens on.
pub const BACKEND_PORT: u16 = 8000;

} // verus!

//! The error taxonomy of the setup and lifecycle operations.

use vstd::prelude::*;

verus! {

/// Failures of the setup phase. Teardown never reports errors: shutdown runs
/// from exit hooks where no caller can act on one.
#[derive(Debug, Clone, PartialEq, Eq)]
pub enum SetupError {
    /// No bootstrap interpreter is available, so no environment can be
    /// created; fatal.
    BootstrapMissing,
    /// The environment-creation subprocess exited non-zero.
    EnvironmentCreationFailed { stderr: String },
    /// The manifest declares no dependencies: malformed or missing input.
    ManifestEmpty,
    /// More than one specifier for the isolated-install dependency family.
    DuplicateSpecialDependency,
    /// The installer subprocess exited non-zero.
    DependencyInstallFailed { stderr: String },
    /// The isolated interpreter is absent; setup must run first.
    EnvironmentNotReady,
}

} // verus!

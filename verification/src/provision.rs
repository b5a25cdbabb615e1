//! The environment provisioner and setup reporting: the idempotent plan for
//! creating the isolated environment, the setup-status snapshot, the
//! first-launch decision, and the OCR-engine status and install decision.

use vstd::prelude::*;
use vstd::string::StringExecFns;

use crate::errors::SetupError;
use crate::paths::HostOs;

verus! {

/// What `ensure_environment` does after probing the target path.
#[derive(Clone, Copy, PartialEq, Eq, Structural, Debug)]
pub enum EnvPlan {
    /// A working interpreter already sits at the target: change nothing.
    AlreadyReady,
    /// Create the environment, first removing whatever stale entry sits at
    /// the target path.
    Create { remove_stale_dir: bool, remove_stale_file: bool },
}

/// What the provisioner plans, as a function of the probes: whether the
/// environment's interpreter exists, whether anything (directory, file or
/// symlink) sits at the environment path, and whether that entry is a
/// directory.
pub open spec fn spec_environment_plan(
    venv_python_exists: bool,
    stale_present: bool,
    stale_is_dir: bool,
) -> EnvPlan {
    if venv_python_exists {
        EnvPlan::AlreadyReady
    } else {
        EnvPlan::Create {
            remove_stale_dir: stale_present && stale_is_dir,
            remove_stale_file: stale_present && !stale_is_dir,
        }
    }
}

/// Plans the environment creation.
pub fn environment_plan(venv_python_exists: bool, stale_present: bool, stale_is_dir: bool) -> (r:
    EnvPlan)
    ensures
        r == spec_environment_plan(venv_python_exists, stale_present, stale_is_dir),
{
    if venv_python_exists {
        EnvPlan::AlreadyReady
    } else {
        EnvPlan::Create {
            remove_stale_dir: stale_present && stale_is_dir,
            remove_stale_file: stale_present && !stale_is_dir,
        }
    }
}

/// Law: provisioning is idempotent. With a working interpreter already in
/// place the plan is `AlreadyReady` — no removal and no creation, hence
/// zero filesystem mutation — whatever else sits on disk.
pub proof fn lemma_environment_plan_idempotent(stale_present: bool, stale_is_dir: bool)
    ensures
        spec_environment_plan(true, stale_present, stale_is_dir) == EnvPlan::AlreadyReady,
{
}

/// Decides whether a bootstrap interpreter is usable for environment
/// creation: the build supports one architecture, and the interpreter must
/// exist on disk. Both failures are fatal `BootstrapMissing`.
pub fn bootstrap_decision(arch_is_aarch64: bool, bootstrap_python_exists: bool) -> (r: Result<
    (),
    SetupError,
>)
    ensures
        r is Ok <==> (arch_is_aarch64 && bootstrap_python_exists),
        r is Err ==> r->Err_0 is BootstrapMissing,
{
    if !arch_is_aarch64 {
        Err(SetupError::BootstrapMissing)
    } else if !bootstrap_python_exists {
        Err(SetupError::BootstrapMissing)
    } else {
        Ok(())
    }
}

/// The arguments of the environment-creation invocation of the bootstrap
/// interpreter: its environment module with the clear flag, onto the
/// target path.
pub fn venv_create_args(venv: &String) -> (r: Vec<String>)
    ensures
        r.deep_view() == seq!["-m"@, "venv"@, "--clear"@, venv@],
{
    let mut v: Vec<String> = Vec::new();
    v.push(String::from_str("-m"));
    v.push(String::from_str("venv"));
    v.push(String::from_str("--clear"));
    v.push(venv.clone());
    proof {
        assert(v.deep_view() =~= seq!["-m"@, "venv"@, "--clear"@, venv@]);
    }
    v
}

/// A snapshot of the setup state, recomputed on demand from probes.
#[derive(Debug, Clone)]
pub struct SetupStatus {
    pub python_installed: bool,
    pub python_version: Option<String>,
    pub python_path: Option<String>,
    pub venv_exists: bool,
    pub venv_path: Option<String>,
    pub deps_installed: bool,
}

/// Assembles the setup-status snapshot from the probes: the environment's
/// interpreter is preferred, the bootstrap interpreter is the fallback, and
/// dependencies only count as installed inside an existing environment.
pub fn compose_setup_status(
    venv_exists: bool,
    bootstrap_exists: bool,
    venv_python: &String,
    bootstrap_python: &String,
    venv: &String,
    version: Option<String>,
    deps_installed: bool,
) -> (r: SetupStatus)
    ensures
        r.venv_exists == venv_exists,
        r.python_installed == (venv_exists || bootstrap_exists),
        r.python_path.deep_view() == (if venv_exists {
            Some(venv_python@)
        } else if bootstrap_exists {
            Some(bootstrap_python@)
        } else {
            None::<Seq<char>>
        }),
        r.venv_path.deep_view() == (if venv_exists {
            Some(venv@)
        } else {
            None::<Seq<char>>
        }),
        r.python_version == (if venv_exists || bootstrap_exists {
            version
        } else {
            None::<String>
        }),
        r.deps_installed == (venv_exists && deps_installed),
{
    let python_installed = venv_exists || bootstrap_exists;
    let python_path: Option<String> = if venv_exists {
        Some(venv_python.clone())
    } else if bootstrap_exists {
        Some(bootstrap_python.clone())
    } else {
        None
    };
    let venv_path: Option<String> = if venv_exists {
        Some(venv.clone())
    } else {
        None
    };
    SetupStatus {
        python_installed,
        python_version: if python_installed {
            version
        } else {
            None
        },
        python_path,
        venv_exists,
        venv_path,
        deps_installed: venv_exists && deps_installed,
    }
}

/// First launch: setup UI must be shown unless the completion marker was
/// written and the environment's interpreter still exists.
pub fn is_first_launch(marker_exists: bool, venv_python_exists: bool) -> (r: bool)
    ensures
        r == (!marker_exists || !venv_python_exists),
{
    !marker_exists || !venv_python_exists
}

/// The OCR-engine state reported to the caller.
#[derive(Debug, Clone)]
pub struct TesseractStatus {
    pub installed: bool,
    pub path: Option<String>,
    pub manual_download_url: String,
    /// Whether an automatic install is available on this platform.
    pub can_auto_install: bool,
}

/// Assembles the OCR-engine status from the located binary, if any, and
/// the platform's manual-install reference.
pub fn tesseract_status(os: HostOs, path: Option<String>) -> (r: TesseractStatus)
    ensures
        r.installed == (path is Some),
        r.path == path,
        r.can_auto_install == (os is MacOs),
        os is Windows ==> r.manual_download_url@ == "https://github.com/UB-Mannheim/tesseract/wiki"@,
        os is MacOs ==> r.manual_download_url@
            == "https://tesseract-ocr.github.io/tessdoc/Installation.html#macos"@,
        (os is Linux || os is Other) ==> r.manual_download_url@
            == "https://tesseract-ocr.github.io/tessdoc/Installation.html"@,
{
    let installed = path.is_some();
    let manual_download_url = match os {
        HostOs::Windows => String::from_str("https://github.com/UB-Mannheim/tesseract/wiki"),
        HostOs::MacOs => String::from_str(
            "https://tesseract-ocr.github.io/tessdoc/Installation.html#macos",
        ),
        _ => String::from_str("https://tesseract-ocr.github.io/tessdoc/Installation.html"),
    };
    TesseractStatus {
        installed,
        path,
        manual_download_url,
        can_auto_install: matches!(os, HostOs::MacOs),
    }
}

/// What an automatic OCR-engine install does on this platform.
#[derive(Clone, Copy, PartialEq, Eq, Structural, Debug)]
pub enum TesseractInstallStep {
    /// Run the package manager's install of the OCR engine.
    RunBrewInstall,
    /// The package manager was not found; the user must install manually.
    BrewMissing,
    /// No automatic install exists on this platform.
    NotSupported,
}

/// Decides the automatic OCR-engine install: only available on macOS, and
/// only when the package manager was found on the search path.
pub fn tesseract_install_decision(os: HostOs, brew_found: bool) -> (r: TesseractInstallStep)
    ensures
        r is RunBrewInstall <==> (os is MacOs && brew_found),
        r is BrewMissing <==> (os is MacOs && !brew_found),
        r is NotSupported <==> !(os is MacOs),
{
    match os {
        HostOs::MacOs => {
            if brew_found {
                TesseractInstallStep::RunBrewInstall
            } else {
                TesseractInstallStep::BrewMissing
            }
        },
        _ => TesseractInstallStep::NotSupported,
    }
}

/// The package-manager arguments of the automatic OCR-engine install.
pub fn brew_install_args() -> (r: Vec<String>)
    ensures
        r.deep_view() == seq!["install"@, "tesseract"@],
{
    let mut v: Vec<String> = Vec::new();
    v.push(String::from_str("install"));
    v.push(String::from_str("tesseract"));
    proof {
        assert(v.deep_view() =~= seq!["install"@, "tesseract"@]);
    }
    v
}

} // verus!

//! The backend supervisor: the single process slot, the start decision, the
//! teardown plan, and the exact command the backend is spawned with.
//!
//! The caller performs the probes, the spawn and the kills; every decision
//! is taken here. The slot is the only place a live handle can exist, so at
//! most one supervised process is ever held.

use vstd::prelude::*;
use vstd::string::StringExecFns;

verus! {

/// Identifies the one supervised backend process while it is held.
#[derive(Clone, Copy, PartialEq, Eq, Structural, Debug)]
pub struct ProcessHandle {
    /// The operating-system process identifier.
    pub pid: u32,
}

/// What `start` decides from the two probes that precede a spawn.
#[derive(Clone, Copy, PartialEq, Eq, Structural, Debug)]
pub enum StartDecision {
    /// Something already answers on the backend port: report success and
    /// spawn nothing. The backend may have been started by a prior run.
    AlreadyRunning,
    /// The isolated interpreter is absent; setup must run first.
    EnvironmentNotReady,
    /// Free the port, then spawn the backend and hold its handle.
    Proceed,
}

/// What `start` decides, as a function of the probes alone. The held handle
/// plays no part: an externally started backend must be detected by the
/// connectivity probe, not by inspecting state a prior run never saw.
pub open spec fn spec_start_decision(backend_responding: bool, venv_python_exists: bool) -> StartDecision {
    if backend_responding {
        StartDecision::AlreadyRunning
    } else if !venv_python_exists {
        StartDecision::EnvironmentNotReady
    } else {
        StartDecision::Proceed
    }
}

/// The teardown steps, all attempted unconditionally in this order, every
/// error swallowed: teardown runs from exit hooks with nobody to report to.
#[derive(Clone, Copy, PartialEq, Eq, Structural, Debug)]
pub struct StopPlan {
    /// Send the wire-protocol shutdown request, then wait briefly.
    pub graceful_shutdown: bool,
    /// Kill this held process, if one is held.
    pub kill_handle: Option<ProcessHandle>,
    /// Forcibly reclaim the port as a final sweep, in case the handle is
    /// stale or missing; only on platforms that support it.
    pub force_reclaim: bool,
}

/// What `stop` plans, as a function of the held handle and the platform.
pub open spec fn spec_stop_plan(handle: Option<ProcessHandle>, can_force_kill: bool) -> StopPlan {
    StopPlan { graceful_shutdown: true, kill_handle: handle, force_reclaim: can_force_kill }
}

/// How long `stop` waits after its graceful shutdown request, in
/// milliseconds.
pub const STOP_GRACE_MS: u64 = 200;

/// Owns the lifecycle of the single backend process. At most one handle is
/// ever held; it is created on a successful spawn and destroyed on
/// confirmed termination.
pub struct Supervisor {
    handle: Option<ProcessHandle>,
}

impl Supervisor {
    /// The handle currently held, if any.
    pub closed spec fn held(&self) -> Option<ProcessHandle> {
        self.handle
    }

    /// A supervisor that has started nothing.
    pub fn new() -> (s: Supervisor)
        ensures
            s.held() is None,
    {
        Supervisor { handle: None }
    }

    /// Decides what `start` does, from the connectivity probe on the
    /// backend port and the presence of the isolated interpreter.
    pub fn start_decision(&self, backend_responding: bool, venv_python_exists: bool) -> (r:
        StartDecision)
        ensures
            r == spec_start_decision(backend_responding, venv_python_exists),
    {
        if backend_responding {
            StartDecision::AlreadyRunning
        } else if !venv_python_exists {
            StartDecision::EnvironmentNotReady
        } else {
            StartDecision::Proceed
        }
    }

    /// Records the freshly spawned backend as the one held process.
    pub fn attach(&mut self, pid: u32)
        requires
            old(self).held() is None,
        ensures
            final(self).held() == Some(ProcessHandle { pid }),
    {
        self.handle = Some(ProcessHandle { pid });
    }

    /// Releases the held handle, leaving the slot empty. Safe to call at
    /// any time, any number of times.
    pub fn take_handle(&mut self) -> (r: Option<ProcessHandle>)
        ensures
            final(self).held() is None,
            r == old(self).held(),
    {
        let r = self.handle;
        self.handle = None;
        r
    }

    /// Plans the teardown. Every step is attempted; a missing handle makes
    /// the kill step a no-op and nothing more.
    pub fn stop_plan(&self, can_force_kill: bool) -> (r: StopPlan)
        ensures
            r == spec_stop_plan(self.held(), can_force_kill),
    {
        StopPlan {
            graceful_shutdown: true,
            kill_handle: self.handle,
            force_reclaim: can_force_kill,
        }
    }
}

/// Law: stopping when nothing was ever started is safe and idempotent. The
/// plan for an empty slot kills nothing, and after any `take_handle` the
/// slot is empty again, so a repeated stop plans exactly the same fixed,
/// bounded steps.
pub proof fn lemma_stop_without_start(can_force_kill: bool)
    ensures
        spec_stop_plan(None::<ProcessHandle>, can_force_kill).kill_handle is None,
        spec_stop_plan(None::<ProcessHandle>, can_force_kill) == (StopPlan {
            graceful_shutdown: true,
            kill_handle: None,
            force_reclaim: can_force_kill,
        }),
{
}

/// Law: whenever the backend already answers on its port — as it does right
/// after a successful start — the start decision is `AlreadyRunning`, never
/// `Proceed`: a second `start` spawns no second process, whatever the
/// environment state.
pub proof fn lemma_second_start_spawns_nothing(venv_python_exists: bool)
    ensures
        spec_start_decision(true, venv_python_exists) == StartDecision::AlreadyRunning,
        !(spec_start_decision(true, venv_python_exists) is Proceed),
{
}

/// One environment variable handed to the spawned backend.
pub struct EnvVar {
    pub key: String,
    pub value: String,
}

/// The exact command the backend is spawned with: program, arguments,
/// working directory, environment.
pub struct CommandSpec {
    /// The isolated interpreter.
    pub program: String,
    pub args: Vec<String>,
    /// The directory holding the backend program.
    pub current_dir: String,
    pub env: Vec<EnvVar>,
}

/// The fixed argument list: the backend is served by the interpreter's
/// HTTP-server module on the well-known port, reachable from localhost.
pub open spec fn spec_backend_args() -> Seq<Seq<char>> {
    seq!["-m"@, "uvicorn"@, "server:app"@, "--host"@, "0.0.0.0"@, "--port"@, "8000"@]
}

/// The environment handed to the backend: the data-directory paths derived
/// from the data root, the ML-runtime tuning flags, and the OCR binary when
/// one was located.
pub open spec fn spec_backend_env(root: Seq<char>, tesseract: Option<Seq<char>>) -> Seq<
    (Seq<char>, Seq<char>),
> {
    let base = seq![
        ("KEERO_DB_PATH"@, root + "/keero.db"@),
        ("KEERO_VOICES_DIR"@, root + "/voices"@),
        ("KEERO_IMAGES_DIR"@, root + "/images"@),
        ("KEERO_DOCS_DIR"@, root + "/Docs"@),
        ("TOKENIZERS_PARALLELISM"@, "false"@),
        ("HF_HUB_DISABLE_XET"@, "1"@),
        ("HF_HUB_ENABLE_HF_TRANSFER"@, "1"@),
        ("PYTHONWARNINGS"@, "ignore::UserWarning:multiprocessing.resource_tracker"@),
    ];
    match tesseract {
        Some(t) => base.push(("TESSERACT_CMD"@, t)),
        None => base,
    }
}

/// The environment entries of `env`, as key/value views.
pub open spec fn env_views(env: Seq<EnvVar>) -> Seq<(Seq<char>, Seq<char>)> {
    env.map_values(|e: EnvVar| (e.key@, e.value@))
}

/// Builds the exact spawn command for the backend from the resolved
/// interpreter, the backend program directory, the data root, and the
/// optional OCR binary.
pub fn backend_command(
    python: &String,
    backend_dir: &String,
    data_root: &String,
    tesseract: &Option<String>,
) -> (r: CommandSpec)
    ensures
        r.program@ == python@,
        r.current_dir@ == backend_dir@,
        r.args.deep_view() == spec_backend_args(),
        env_views(r.env@) == spec_backend_env(data_root@, tesseract.deep_view()),
{
    let mut args: Vec<String> = Vec::new();
    args.push(String::from_str("-m"));
    args.push(String::from_str("uvicorn"));
    args.push(String::from_str("server:app"));
    args.push(String::from_str("--host"));
    args.push(String::from_str("0.0.0.0"));
    args.push(String::from_str("--port"));
    args.push(String::from_str("8000"));
    proof {
        assert(args.deep_view() =~= spec_backend_args());
    }
    let mut env: Vec<EnvVar> = Vec::new();
    env.push(
        EnvVar {
            key: String::from_str("KEERO_DB_PATH"),
            value: data_root.clone().concat("/keero.db"),
        },
    );
    env.push(
        EnvVar {
            key: String::from_str("KEERO_VOICES_DIR"),
            value: data_root.clone().concat("/voices"),
        },
    );
    env.push(
        EnvVar {
            key: String::from_str("KEERO_IMAGES_DIR"),
            value: data_root.clone().concat("/images"),
        },
    );
    env.push(
        EnvVar {
            key: String::from_str("KEERO_DOCS_DIR"),
            value: data_root.clone().concat("/Docs"),
        },
    );
    env.push(
        EnvVar {
            key: String::from_str("TOKENIZERS_PARALLELISM"),
            value: String::from_str("false"),
        },
    );
    env.push(
        EnvVar { key: String::from_str("HF_HUB_DISABLE_XET"), value: String::from_str("1") },
    );
    env.push(
        EnvVar { key: String::from_str("HF_HUB_ENABLE_HF_TRANSFER"), value: String::from_str("1") },
    );
    env.push(
        EnvVar {
            key: String::from_str("PYTHONWARNINGS"),
            value: String::from_str("ignore::UserWarning:multiprocessing.resource_tracker"),
        },
    );
    match tesseract {
        Some(t) => {
            env.push(EnvVar { key: String::from_str("TESSERACT_CMD"), value: t.clone() });
        },
        None => {},
    }
    proof {
        assert(env_views(env@) =~= spec_backend_env(data_root@, tesseract.deep_view()));
    }
    CommandSpec {
        program: python.clone(),
        args,
        current_dir: backend_dir.clone(),
        env,
    }
}

} // verus!

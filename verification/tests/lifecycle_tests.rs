use keero_core::guard::{
    poll_step, port_free_plan, shutdown_request, PollOutcome, MAX_POLL_ATTEMPTS,
};
use keero_core::supervisor::{backend_command, StartDecision, Supervisor};
use keero_core::BACKEND_PORT;

#[test]
fn free_port_plans_nothing() {
    let plan = port_free_plan(BACKEND_PORT, false, true);
    assert!(!plan.graceful_shutdown);
    assert!(!plan.force_kill);
    assert_eq!(plan.poll_attempts, 0);
    let plan = port_free_plan(1234, false, false);
    assert!(!plan.graceful_shutdown);
    assert!(!plan.force_kill);
    assert_eq!(plan.poll_attempts, 0);
}

#[test]
fn busy_backend_port_plans_graceful_then_forced_reclaim() {
    let plan = port_free_plan(BACKEND_PORT, true, true);
    assert!(plan.graceful_shutdown);
    assert!(plan.force_kill);
    assert_eq!(plan.poll_attempts, MAX_POLL_ATTEMPTS);
}

#[test]
fn busy_foreign_port_skips_graceful_shutdown() {
    let plan = port_free_plan(1234, true, true);
    assert!(!plan.graceful_shutdown);
    assert!(plan.force_kill);
    assert_eq!(plan.poll_attempts, MAX_POLL_ATTEMPTS);
}

#[test]
fn forced_reclaim_needs_platform_support() {
    let plan = port_free_plan(BACKEND_PORT, true, false);
    assert!(plan.graceful_shutdown);
    assert!(!plan.force_kill);
}

#[test]
fn polling_stops_when_free_and_gives_up_when_exhausted() {
    assert_eq!(poll_step(10, false), PollOutcome::Free);
    assert_eq!(poll_step(0, false), PollOutcome::Free);
    assert_eq!(poll_step(10, true), PollOutcome::Retry);
    assert_eq!(poll_step(0, true), PollOutcome::GiveUp);
}

#[test]
fn shutdown_request_is_the_fixed_wire_message() {
    assert_eq!(
        shutdown_request(),
        "POST /shutdown HTTP/1.1\r\nHost: 127.0.0.1\r\nContent-Length: 0\r\n\r\n"
    );
}

#[test]
fn stop_with_nothing_started_kills_nothing() {
    let mut sup = Supervisor::new();
    let plan = sup.stop_plan(true);
    assert!(plan.graceful_shutdown);
    assert!(plan.kill_handle.is_none());
    assert!(plan.force_reclaim);
    assert!(sup.take_handle().is_none());
    // A second stop degrades to the same no-op steps.
    let plan = sup.stop_plan(true);
    assert!(plan.kill_handle.is_none());
    assert!(sup.take_handle().is_none());
}

#[test]
fn stop_after_attach_kills_the_held_process_once() {
    let mut sup = Supervisor::new();
    sup.attach(4242);
    let plan = sup.stop_plan(false);
    assert_eq!(plan.kill_handle.map(|h| h.pid), Some(4242));
    assert!(!plan.force_reclaim);
    assert_eq!(sup.take_handle().map(|h| h.pid), Some(4242));
    assert!(sup.take_handle().is_none());
    let plan = sup.stop_plan(false);
    assert!(plan.kill_handle.is_none());
}

#[test]
fn second_start_observes_the_live_connection() {
    let sup = Supervisor::new();
    // First start: nothing answers yet, environment ready.
    assert_eq!(sup.start_decision(false, true), StartDecision::Proceed);
    // Second start: the backend now answers; no second spawn.
    assert_eq!(sup.start_decision(true, true), StartDecision::AlreadyRunning);
    assert_eq!(sup.start_decision(true, false), StartDecision::AlreadyRunning);
}

#[test]
fn start_requires_the_environment() {
    let sup = Supervisor::new();
    assert_eq!(sup.start_decision(false, false), StartDecision::EnvironmentNotReady);
}

#[test]
fn backend_command_is_exact() {
    let cmd = backend_command(
        &"/data/python_env/bin/python".to_string(),
        &"/app/python-backend".to_string(),
        &"/data".to_string(),
        &None,
    );
    assert_eq!(cmd.program, "/data/python_env/bin/python");
    assert_eq!(cmd.current_dir, "/app/python-backend");
    assert_eq!(
        cmd.args,
        vec!["-m", "uvicorn", "server:app", "--host", "0.0.0.0", "--port", "8000"]
    );
    let pairs: Vec<(String, String)> =
        cmd.env.into_iter().map(|e| (e.key, e.value)).collect();
    assert_eq!(
        pairs,
        vec![
            ("KEERO_DB_PATH".to_string(), "/data/keero.db".to_string()),
            ("KEERO_VOICES_DIR".to_string(), "/data/voices".to_string()),
            ("KEERO_IMAGES_DIR".to_string(), "/data/images".to_string()),
            ("KEERO_DOCS_DIR".to_string(), "/data/Docs".to_string()),
            ("TOKENIZERS_PARALLELISM".to_string(), "false".to_string()),
            ("HF_HUB_DISABLE_XET".to_string(), "1".to_string()),
            ("HF_HUB_ENABLE_HF_TRANSFER".to_string(), "1".to_string()),
            (
                "PYTHONWARNINGS".to_string(),
                "ignore::UserWarning:multiprocessing.resource_tracker".to_string()
            ),
        ]
    );
}

#[test]
fn backend_command_adds_ocr_binary_when_located() {
    let cmd = backend_command(
        &"py".to_string(),
        &"dir".to_string(),
        &"/data".to_string(),
        &Some("/usr/bin/tesseract".to_string()),
    );
    let last = cmd.env.last().unwrap();
    assert_eq!(last.key, "TESSERACT_CMD");
    assert_eq!(last.value, "/usr/bin/tesseract");
    assert_eq!(cmd.env.len(), 9);
}

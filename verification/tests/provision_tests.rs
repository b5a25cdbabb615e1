use keero_core::errors::SetupError;
use keero_core::paths::{
    bootstrap_python_candidates, bootstrap_python_fallback, bootstrap_root_candidates,
    choose_first_existing, docs_dir, images_dir, keero_db_path, select_candidate_or,
    setup_marker_path, tesseract_candidates, tesseract_dir, venv_path, venv_pip_candidates,
    venv_pip_fallback, venv_python_candidates, venv_python_fallback, voices_dir, HostOs,
};
use keero_core::provision::{
    bootstrap_decision, brew_install_args, compose_setup_status, environment_plan,
    is_first_launch, tesseract_install_decision, tesseract_status, venv_create_args, EnvPlan,
    TesseractInstallStep,
};

#[test]
fn data_paths_are_pure_joins() {
    let root = "/data".to_string();
    assert_eq!(keero_db_path(&root), "/data/keero.db");
    assert_eq!(voices_dir(&root), "/data/voices");
    assert_eq!(images_dir(&root), "/data/images");
    assert_eq!(docs_dir(&root), "/data/Docs");
    assert_eq!(venv_path(&root), "/data/python_env");
    assert_eq!(setup_marker_path(&root), "/data/.setup_complete");
    assert_eq!(tesseract_dir(&root), "/data/tesseract");
}

#[test]
fn first_existing_candidate_wins() {
    let cands = vec!["a".to_string(), "b".to_string(), "c".to_string()];
    assert_eq!(choose_first_existing(&cands, &vec![false, true, true]), Some(1));
    assert_eq!(choose_first_existing(&cands, &vec![false, false, false]), None);
    assert_eq!(
        select_candidate_or(&cands, &vec![false, true, false], "fb".to_string()),
        "b"
    );
    assert_eq!(
        select_candidate_or(&cands, &vec![false, false, false], "fb".to_string()),
        "fb"
    );
}

#[test]
fn interpreter_candidate_lists_are_ordered() {
    let venv = "/data/python_env".to_string();
    assert_eq!(
        venv_python_candidates(&venv, HostOs::MacOs),
        vec![
            "/data/python_env/bin/python",
            "/data/python_env/bin/python3",
            "/data/python_env/bin/python3.12",
            "/data/python_env/bin/python3.11",
        ]
    );
    assert_eq!(
        venv_python_candidates(&venv, HostOs::Windows),
        vec!["/data/python_env/Scripts/python.exe"]
    );
    assert_eq!(venv_python_fallback(&venv), "/data/python_env/bin/python3");
    assert_eq!(venv_pip_candidates(&venv, HostOs::Linux), vec!["/data/python_env/bin/pip"]);
    assert_eq!(
        venv_pip_candidates(&venv, HostOs::Windows),
        vec!["/data/python_env/Scripts/pip.exe"]
    );
    assert_eq!(venv_pip_fallback(&venv), "/data/python_env/bin/pip3");
}

#[test]
fn bootstrap_candidates_probe_dev_tree_first() {
    let r = bootstrap_root_candidates(&"/repo".to_string(), &"/res".to_string());
    assert_eq!(
        r,
        vec![
            "/repo/resources/python_runtime",
            "/res/python_runtime",
            "/res/_up_/_up_/resources/python_runtime",
        ]
    );
    let p = bootstrap_python_candidates(&"/rt".to_string());
    assert_eq!(p, vec!["/rt/python/bin/python", "/rt/python/bin/python3"]);
    assert_eq!(bootstrap_python_fallback(&"/rt".to_string()), "/rt/python/bin/python3.11");
}

#[test]
fn provisioning_is_idempotent_with_a_valid_environment() {
    assert_eq!(environment_plan(true, false, false), EnvPlan::AlreadyReady);
    assert_eq!(environment_plan(true, true, true), EnvPlan::AlreadyReady);
}

#[test]
fn provisioning_removes_stale_entries_before_creating() {
    assert_eq!(
        environment_plan(false, true, true),
        EnvPlan::Create { remove_stale_dir: true, remove_stale_file: false }
    );
    assert_eq!(
        environment_plan(false, true, false),
        EnvPlan::Create { remove_stale_dir: false, remove_stale_file: true }
    );
    assert_eq!(
        environment_plan(false, false, false),
        EnvPlan::Create { remove_stale_dir: false, remove_stale_file: false }
    );
}

#[test]
fn bootstrap_decision_is_fatal_without_an_interpreter() {
    assert_eq!(bootstrap_decision(true, true), Ok(()));
    assert_eq!(bootstrap_decision(true, false), Err(SetupError::BootstrapMissing));
    assert_eq!(bootstrap_decision(false, true), Err(SetupError::BootstrapMissing));
}

#[test]
fn environment_creation_arguments_are_exact() {
    assert_eq!(
        venv_create_args(&"/data/python_env".to_string()),
        vec!["-m", "venv", "--clear", "/data/python_env"]
    );
}

#[test]
fn setup_status_prefers_the_environment_interpreter() {
    let s = compose_setup_status(
        true,
        true,
        &"/venv/bin/python".to_string(),
        &"/boot/python".to_string(),
        &"/venv".to_string(),
        Some("Python 3.12.0".to_string()),
        true,
    );
    assert!(s.python_installed);
    assert_eq!(s.python_path.as_deref(), Some("/venv/bin/python"));
    assert_eq!(s.venv_path.as_deref(), Some("/venv"));
    assert_eq!(s.python_version.as_deref(), Some("Python 3.12.0"));
    assert!(s.venv_exists);
    assert!(s.deps_installed);
}

#[test]
fn setup_status_falls_back_to_the_bootstrap_interpreter() {
    let s = compose_setup_status(
        false,
        true,
        &"/venv/bin/python".to_string(),
        &"/boot/python".to_string(),
        &"/venv".to_string(),
        Some("Python 3.11.9".to_string()),
        true,
    );
    assert!(s.python_installed);
    assert_eq!(s.python_path.as_deref(), Some("/boot/python"));
    assert_eq!(s.venv_path, None);
    assert!(!s.venv_exists);
    assert!(!s.deps_installed);
}

#[test]
fn setup_status_reports_nothing_installed() {
    let s = compose_setup_status(
        false,
        false,
        &"a".to_string(),
        &"b".to_string(),
        &"c".to_string(),
        Some("v".to_string()),
        true,
    );
    assert!(!s.python_installed);
    assert_eq!(s.python_path, None);
    assert_eq!(s.python_version, None);
    assert!(!s.deps_installed);
}

#[test]
fn first_launch_until_marker_and_interpreter_exist() {
    assert!(is_first_launch(false, false));
    assert!(is_first_launch(false, true));
    assert!(is_first_launch(true, false));
    assert!(!is_first_launch(true, true));
}

#[test]
fn ocr_status_reports_platform_strategy() {
    let s = tesseract_status(HostOs::MacOs, Some("/usr/local/bin/tesseract".to_string()));
    assert!(s.installed);
    assert!(s.can_auto_install);
    assert_eq!(
        s.manual_download_url,
        "https://tesseract-ocr.github.io/tessdoc/Installation.html#macos"
    );
    let s = tesseract_status(HostOs::Windows, None);
    assert!(!s.installed);
    assert!(!s.can_auto_install);
    assert_eq!(s.manual_download_url, "https://github.com/UB-Mannheim/tesseract/wiki");
    let s = tesseract_status(HostOs::Linux, None);
    assert_eq!(
        s.manual_download_url,
        "https://tesseract-ocr.github.io/tessdoc/Installation.html"
    );
}

#[test]
fn ocr_candidates_follow_the_platform_table() {
    let base = "/data/tesseract".to_string();
    assert_eq!(
        tesseract_candidates(&base, HostOs::MacOs, &None),
        vec![
            "/data/tesseract/mac/bin/tesseract",
            "/usr/local/bin/tesseract",
            "/opt/homebrew/bin/tesseract",
        ]
    );
    assert_eq!(
        tesseract_candidates(&base, HostOs::Linux, &None),
        vec!["/data/tesseract/linux/bin/tesseract", "/usr/bin/tesseract"]
    );
    assert_eq!(
        tesseract_candidates(&base, HostOs::Windows, &Some("D:\\PF".to_string())),
        vec![
            "/data/tesseract/win/tesseract.exe",
            "D:\\PF\\Tesseract-OCR\\tesseract.exe",
        ]
    );
    assert_eq!(
        tesseract_candidates(&base, HostOs::Windows, &None),
        vec![
            "/data/tesseract/win/tesseract.exe",
            "C:\\Program Files\\Tesseract-OCR\\tesseract.exe",
        ]
    );
    assert_eq!(tesseract_candidates(&base, HostOs::Other, &None), Vec::<String>::new());
}

#[test]
fn ocr_install_only_runs_the_mac_package_manager() {
    assert_eq!(
        tesseract_install_decision(HostOs::MacOs, true),
        TesseractInstallStep::RunBrewInstall
    );
    assert_eq!(
        tesseract_install_decision(HostOs::MacOs, false),
        TesseractInstallStep::BrewMissing
    );
    assert_eq!(
        tesseract_install_decision(HostOs::Linux, true),
        TesseractInstallStep::NotSupported
    );
    assert_eq!(brew_install_args(), vec!["install", "tesseract"]);
}

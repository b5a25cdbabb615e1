use keero_core::errors::SetupError;
use keero_core::install::{bulk_install_args, install_commands, pip_upgrade_args, plan_install,
    special_install_args};

fn deps(list: &[&str]) -> Vec<String> {
    list.iter().map(|s| s.to_string()).collect()
}

#[test]
fn empty_manifest_is_rejected() {
    assert_eq!(plan_install(&vec![]), Err(SetupError::ManifestEmpty));
    assert_eq!(install_commands(&vec![]), Err(SetupError::ManifestEmpty));
}

#[test]
fn special_family_is_isolated_before_the_bulk() {
    let cmds = install_commands(&deps(&["a==1.0", "mlx-audio @ url", "b"])).unwrap();
    assert_eq!(cmds.len(), 2);
    assert_eq!(
        cmds[0],
        vec!["install", "--upgrade", "--force-reinstall", "--no-deps", "mlx-audio @ url"]
    );
    assert_eq!(cmds[1], vec!["install", "--upgrade", "--force-reinstall", "a==1.0", "b"]);
}

#[test]
fn duplicate_special_family_fails_before_any_install() {
    let r = install_commands(&deps(&["mlx-audio @ url", "a", "mlx-audio==1"]));
    assert_eq!(r, Err(SetupError::DuplicateSpecialDependency));
    let p = plan_install(&deps(&["mlx-audio", "mlx-audio"]));
    assert_eq!(p, Err(SetupError::DuplicateSpecialDependency));
}

#[test]
fn no_special_family_installs_in_one_batch() {
    let cmds = install_commands(&deps(&["a", "b"])).unwrap();
    assert_eq!(cmds.len(), 1);
    assert_eq!(cmds[0], vec!["install", "--upgrade", "--force-reinstall", "a", "b"]);
}

#[test]
fn plan_splits_special_and_rest() {
    let plan = plan_install(&deps(&["a==1.0", "mlx-audio @ url", "b"])).unwrap();
    assert_eq!(plan.special, Some("mlx-audio @ url".to_string()));
    assert_eq!(plan.rest, deps(&["a==1.0", "b"]));
}

#[test]
fn argument_builders_are_exact() {
    assert_eq!(pip_upgrade_args(), vec!["install", "--upgrade", "pip"]);
    assert_eq!(
        special_install_args(&"x".to_string()),
        vec!["install", "--upgrade", "--force-reinstall", "--no-deps", "x"]
    );
    assert_eq!(
        bulk_install_args(&deps(&["p", "q"])),
        vec!["install", "--upgrade", "--force-reinstall", "p", "q"]
    );
}

use minion::command::CommandResult;
use minion::command::Policy;
use minion::command::Verdict;
use minion::command::step_verdict;
use minion::init::InitCommand;
use minion::init::resolve_input;
use minion::config::Config;

#[test]
fn test_exit_zero_is_success_whatever_the_output() {
    let noisy = CommandResult::new("error: scary text on stderr".to_string(), 0);
    assert!(noisy.is_success());
    assert_eq!(step_verdict(&Policy::Critical, &noisy), Verdict::Proceed);
    assert_eq!(step_verdict(&Policy::BestEffort, &noisy), Verdict::Proceed);
}

#[test]
fn test_nonzero_exit_fails_critical_steps_whatever_the_output() {
    let quiet = CommandResult::new("ok".to_string(), 3);
    assert!(!quiet.is_success());
    assert_eq!(step_verdict(&Policy::Critical, &quiet), Verdict::Abort);
    let sentinel = CommandResult::new(String::new(), -1);
    assert!(!sentinel.is_success());
    assert_eq!(step_verdict(&Policy::Critical, &sentinel), Verdict::Abort);
}

#[test]
fn test_nonzero_exit_is_ignored_by_best_effort_steps() {
    let r = CommandResult::new("network already exists".to_string(), 1);
    assert_eq!(step_verdict(&Policy::BestEffort, &r), Verdict::Proceed);
}

#[test]
fn test_resolve_input_prefers_nonblank_reply() {
    let stored = "old.example.com".to_string();
    assert_eq!(
        resolve_input("new.example.com\n", Some(&stored)),
        Some("new.example.com".to_string())
    );
    assert_eq!(resolve_input("  \n", Some(&stored)), Some(stored.clone()));
    assert_eq!(resolve_input("\n", None), None);
    assert_eq!(resolve_input("value", None), Some("value".to_string()));
}

#[test]
fn test_init_apply_args_stores_the_bundle() {
    let mut config = Config::new(".minion");
    InitCommand::apply_args(
        &mut config,
        "vps.example.com",
        "web",
        "app.example.com",
        "8000",
    );
    assert_eq!(config.get("VPS_HOST"), Some(&"vps.example.com".to_string()));
    assert_eq!(config.get("APP_NAME"), Some(&"web".to_string()));
    assert_eq!(config.get("APP_URL"), Some(&"app.example.com".to_string()));
    assert_eq!(config.get("APP_PORT"), Some(&"8000".to_string()));
    assert_eq!(
        config.serialize(),
        "APP_NAME=web\nAPP_PORT=8000\nAPP_URL=app.example.com\nVPS_HOST=vps.example.com"
    );
}

#[test]
fn test_deploy_apply_args_stores_volumes_too() {
    let mut config = Config::new(".minion");
    minion::deploy::DeployCommand::apply_args(
        &mut config,
        "vps.example.com",
        "web",
        "app.example.com",
        "8000",
        "data:/var/data",
    );
    assert_eq!(config.get("APP_VOLUMES"), Some(&"data:/var/data".to_string()));
}

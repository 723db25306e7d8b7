use minion::command::CommandResult;
use minion::setup::SetupAction;
use minion::setup::SetupCommand;
use minion::setup::SetupContext;
use minion::setup::SetupEvent;
use minion::setup::SetupState;

fn ctx() -> SetupContext {
    SetupContext {
        email: "ops@example.com".to_string(),
        traefik_template: "certificatesResolvers:\n  acme:\n    email: {{email}}\n".to_string(),
        traefik_compose: "services:\n  traefik:\n    image: traefik\n".to_string(),
    }
}

fn ran(output: &str, exit_code: i32) -> SetupEvent {
    SetupEvent::Ran {
        result: CommandResult::new(output.to_string(), exit_code),
    }
}

fn launched(exit_code: i32) -> SetupEvent {
    SetupEvent::Launched {
        result: CommandResult::new(String::new(), exit_code),
    }
}

/// Drives the machine from `state` with the given events, asserting that no
/// session reset is requested along the way; returns the final state.
fn drive_without_reset(
    ctx: &SetupContext,
    mut state: SetupState,
    events: &[SetupEvent],
) -> SetupState {
    for e in events {
        assert!(!matches!(
            SetupCommand::action(ctx, state),
            SetupAction::Reopen { .. }
        ));
        state = SetupCommand::next(state, e);
    }
    state
}

#[test]
fn test_already_installed_path_skips_install_and_reset() {
    let ctx = ctx();
    let state = SetupCommand::initial_state();
    assert_eq!(state, SetupState::CheckLocal);

    // local probe, tolerated root failure, user session, probe finds the
    // runtime, verification — and straight on to the compose check
    let state = drive_without_reset(
        &ctx,
        state,
        &[
            launched(0),
            SetupEvent::AuthFailed,
            SetupEvent::Connected,
            ran("/usr/bin/docker", 0),
            ran("Docker version 27.0", 0),
        ],
    );
    assert_eq!(state, SetupState::CheckCompose);

    // the rest of provisioning also never asks for a reset
    let state = drive_without_reset(
        &ctx,
        state,
        &[
            ran("Docker Compose version v2", 0),
            ran("minion sudo docker", 0),
            ran("", 0),
            ran("", 0),
            ran("", 0),
            ran("", 0),
            ran("already exists", 1), // network creation is best-effort
            ran("", 0),
            ran("", 0),
            ran("-rw-r--r-- traefik.yml", 0),
            ran("Started", 0),
            ran("Up 3 seconds", 0),
        ],
    );
    assert_eq!(state, SetupState::Done);
    assert!(matches!(
        SetupCommand::action(&ctx, state),
        SetupAction::Finish
    ));
}

#[test]
fn test_fresh_install_path_resets_session_once() {
    let ctx = ctx();
    let mut state = SetupState::ProbeDocker;

    // the probe fails: the four installation commands run
    state = SetupCommand::next(state, &ran("", 1));
    assert_eq!(state, SetupState::InstallDocker { i: 0 });
    state = SetupCommand::next(state, &ran("", 0));
    state = SetupCommand::next(state, &ran("installed", 0));
    state = SetupCommand::next(state, &ran("", 0));
    state = SetupCommand::next(state, &ran("", 0));
    assert_eq!(state, SetupState::VerifyDocker { installed: true });

    // verification succeeds, and only now is the session reset requested
    state = SetupCommand::next(state, &ran("Docker version 27.0", 0));
    assert_eq!(state, SetupState::Reconnect);
    match SetupCommand::action(&ctx, state) {
        SetupAction::Reopen { username } => assert_eq!(username, "minion"),
        _ => panic!("the reset state must ask to reopen the session"),
    }
    state = SetupCommand::next(state, &SetupEvent::Connected);
    assert_eq!(state, SetupState::CheckCompose);
}

#[test]
fn test_install_cleanup_steps_are_best_effort() {
    // the download and the install script abort on failure
    let s = SetupCommand::next(SetupState::InstallDocker { i: 0 }, &ran("", 7));
    assert_eq!(s, SetupState::Failed);
    let s = SetupCommand::next(SetupState::InstallDocker { i: 1 }, &ran("", 7));
    assert_eq!(s, SetupState::Failed);
    // the cleanup and the group grant do not
    let s = SetupCommand::next(SetupState::InstallDocker { i: 2 }, &ran("", 7));
    assert_eq!(s, SetupState::InstallDocker { i: 3 });
    let s = SetupCommand::next(SetupState::InstallDocker { i: 3 }, &ran("", 7));
    assert_eq!(s, SetupState::VerifyDocker { installed: true });
}

#[test]
fn test_groups_check_needs_docker_group() {
    let s = SetupCommand::next(SetupState::CheckGroups, &ran("minion sudo", 0));
    assert_eq!(s, SetupState::Failed);
    let s = SetupCommand::next(SetupState::CheckGroups, &ran("minion sudo docker", 0));
    assert_eq!(s, SetupState::TraefikStep { i: 0 });
}

#[test]
fn test_running_check_needs_up_status() {
    let s = SetupCommand::next(SetupState::CheckRunning, &ran("Exited (1)", 0));
    assert_eq!(s, SetupState::Failed);
    let s = SetupCommand::next(SetupState::CheckRunning, &ran("Up 10 seconds", 1));
    assert_eq!(s, SetupState::Failed);
    let s = SetupCommand::next(SetupState::CheckRunning, &ran("Up 10 seconds", 0));
    assert_eq!(s, SetupState::Done);
}

#[test]
fn test_local_probe_failure_aborts_before_any_connection() {
    let s = SetupCommand::next(SetupState::CheckLocal, &SetupEvent::LaunchFailed);
    assert_eq!(s, SetupState::Failed);
    // a completed probe goes on even with a non-zero exit
    let s = SetupCommand::next(SetupState::CheckLocal, &launched(1));
    assert_eq!(s, SetupState::ConnectRoot);
}

#[test]
fn test_root_connection_is_optional() {
    // both failure kinds are tolerated: the host may already be configured
    let s = SetupCommand::next(SetupState::ConnectRoot, &SetupEvent::AuthFailed);
    assert_eq!(s, SetupState::ConnectUser);
    let s = SetupCommand::next(SetupState::ConnectRoot, &SetupEvent::NetworkFailed);
    assert_eq!(s, SetupState::ConnectUser);
    let s = SetupCommand::next(SetupState::ConnectRoot, &SetupEvent::Connected);
    assert_eq!(s, SetupState::UserSetup { i: 0 });
    // the restricted-user session is not optional
    let s = SetupCommand::next(SetupState::ConnectUser, &SetupEvent::AuthFailed);
    assert_eq!(s, SetupState::Failed);
    let s = SetupCommand::next(SetupState::ConnectUser, &SetupEvent::NetworkFailed);
    assert_eq!(s, SetupState::Failed);
}

#[test]
fn test_user_setup_runs_all_commands_then_reconnects_as_user() {
    let ctx = ctx();
    let mut state = SetupState::UserSetup { i: 0 };
    let mut commands = Vec::new();
    for _ in 0..11 {
        match SetupCommand::action(&ctx, state) {
            SetupAction::RunRemote { command } => commands.push(command),
            _ => panic!("user setup states run remote commands"),
        }
        state = SetupCommand::next(state, &ran("", 0));
    }
    assert_eq!(state, SetupState::ConnectUser);
    assert_eq!(
        commands[0],
        "id -u minion &>/dev/null || useradd -m -s /bin/bash minion"
    );
    assert_eq!(commands[10], "systemctl restart ssh");
    // a failing critical command aborts
    let s = SetupCommand::next(SetupState::UserSetup { i: 4 }, &ran("denied", 1));
    assert_eq!(s, SetupState::Failed);
}

#[test]
fn test_traefik_config_write_carries_rendered_email() {
    let ctx = ctx();
    match SetupCommand::action(&ctx, SetupState::TraefikStep { i: 5 }) {
        SetupAction::RunRemote { command } => {
            assert_eq!(
                command,
                "sudo bash -c 'cat > /opt/traefik/config/traefik.yml << EOL\ncertificatesResolvers:\n  acme:\n    email: ops@example.com\n\nEOL'"
            );
        }
        _ => panic!("the configuration write is a remote command"),
    }
}

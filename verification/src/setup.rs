//! The provisioning pipeline: bringing a bare host to the point where it
//! runs the reverse proxy and accepts deployments.
//!
//! Provisioning alternates remote work with decisions, so it is modelled as
//! an explicit state machine. A driver outside this crate performs each
//! [`SetupAction`], feeds the outcome back as a [`SetupEvent`], and the
//! transition function decides the next state. The one deliberate session
//! reset — needed because a group grant takes effect only on a fresh login —
//! is an explicit action, issued exactly when the container runtime was
//! installed in this run and never on the already-installed path.
use vstd::prelude::*;

use crate::command::CommandResult;
use crate::template::render;
use crate::template::spec_render;
use crate::text::concat3;
use crate::text::contains_seq;
use crate::text::contains_sub;

verus! {

/// The operator-supplied inputs that provisioning needs: the certificate
/// contact email and the two reverse-proxy document templates.
pub struct SetupContext {
    /// Bound to the `{{email}}` placeholder of the proxy configuration.
    pub email: String,
    /// The proxy's static configuration template.
    pub traefik_template: String,
    /// The proxy's compose document, written as-is.
    pub traefik_compose: String,
}

/// Where the provisioning pipeline stands.
#[derive(Clone, Copy, PartialEq, Eq, Structural, Debug)]
pub enum SetupState {
    /// Probe the operator's machine for the container runtime.
    CheckLocal,
    /// Try the privileged account; failure is tolerated.
    ConnectRoot,
    /// Running the restricted-user creation commands, one at a time.
    UserSetup { i: usize },
    /// Open the session the rest of the pipeline uses.
    ConnectUser,
    /// Ask whether the container runtime is already on the host.
    ProbeDocker,
    /// Running the runtime installation commands, one at a time.
    InstallDocker { i: usize },
    /// Confirm the runtime answers; remember whether it was just installed.
    VerifyDocker { installed: bool },
    /// Drop the session and log in afresh so the group grant takes effect.
    Reconnect,
    /// Confirm the compose sub-command is usable.
    CheckCompose,
    /// Confirm the session's group membership includes the runtime group.
    CheckGroups,
    /// Running the proxy preparation commands, one at a time.
    TraefikStep { i: usize },
    /// Confirm both rendered documents landed on the host.
    VerifyFiles,
    /// Start the proxy stack.
    StartTraefik,
    /// Confirm the proxy container is reported running.
    CheckRunning,
    /// Provisioning finished.
    Done,
    /// Provisioning aborted; the driver surfaces the failing step.
    Failed,
}

/// What the driver reports back after performing one action.
pub enum SetupEvent {
    /// The local probe process ran to completion.
    Launched { result: CommandResult },
    /// The local probe process could not be started at all.
    LaunchFailed,
    /// The requested session is open and authenticated.
    Connected,
    /// The host could not be reached at the transport level.
    NetworkFailed,
    /// The host answered but rejected the credentials or identity.
    AuthFailed,
    /// The remote command completed with this outcome.
    Ran { result: CommandResult },
}

/// What the driver must do next.
pub enum SetupAction {
    /// Run a local process to completion.
    RunLocal { program: String, args: Vec<String> },
    /// Open a session as this user, replacing any current one.
    Connect { username: String },
    /// Deliberately drop the current session and authenticate afresh as
    /// this user: the explicit session-invalidation point.
    Reopen { username: String },
    /// Run this shell command on the current session.
    RunRemote { command: String },
    /// Provisioning is complete.
    Finish,
    /// Provisioning failed; stop.
    Abort,
}

/// The mathematical image of a [`SetupAction`].
pub enum SpecSetupAction {
    RunLocal { program: Seq<char>, args: Seq<Seq<char>> },
    Connect { username: Seq<char> },
    Reopen { username: Seq<char> },
    RunRemote { command: Seq<char> },
    Finish,
    Abort,
}

impl View for SetupAction {
    type V = SpecSetupAction;

    open spec fn view(&self) -> SpecSetupAction {
        match self {
            SetupAction::RunLocal { program, args } => SpecSetupAction::RunLocal {
                program: program@,
                args: args.deep_view(),
            },
            SetupAction::Connect { username } => SpecSetupAction::Connect { username: username@ },
            SetupAction::Reopen { username } => SpecSetupAction::Reopen { username: username@ },
            SetupAction::RunRemote { command } => SpecSetupAction::RunRemote { command: command@ },
            SetupAction::Finish => SpecSetupAction::Finish,
            SetupAction::Abort => SpecSetupAction::Abort,
        }
    }
}

/// The number of restricted-user setup commands.
pub const USER_STEPS: usize = 11;

/// The number of runtime installation commands.
pub const INSTALL_STEPS: usize = 4;

/// The number of proxy preparation commands.
pub const TRAEFIK_STEPS: usize = 7;

/// Step indices stay within their command lists.
pub open spec fn wf_state(s: SetupState) -> bool {
    match s {
        SetupState::UserSetup { i } => i < USER_STEPS,
        SetupState::InstallDocker { i } => i < INSTALL_STEPS,
        SetupState::TraefikStep { i } => i < TRAEFIK_STEPS,
        _ => true,
    }
}

/// The privileged-session commands that create the restricted operating
/// user, provision its credentials, lock down remote login, and restart the
/// remote shell service. Strictly ordered; every one is critical.
pub open spec fn spec_user_cmd(i: int) -> Seq<char> {
    if i == 0 {
        "id -u minion &>/dev/null || useradd -m -s /bin/bash minion"@
    } else if i == 1 {
        "mkdir -p /home/minion/.ssh"@
    } else if i == 2 {
        "cp ~/.ssh/authorized_keys /home/minion/.ssh/"@
    } else if i == 3 {
        "chown -R minion:minion /home/minion/.ssh"@
    } else if i == 4 {
        "chmod 700 /home/minion/.ssh"@
    } else if i == 5 {
        "chmod 600 /home/minion/.ssh/authorized_keys"@
    } else if i == 6 {
        "echo 'minion ALL=(ALL) NOPASSWD:ALL' > /etc/sudoers.d/minion"@
    } else if i == 7 {
        "chmod 440 /etc/sudoers.d/minion"@
    } else if i == 8 {
        "sed -i 's/^#\\?PermitRootLogin\\s*yes/PermitRootLogin no/' /etc/ssh/sshd_config"@
    } else if i == 9 {
        "sed -i 's/^#\\?PasswordAuthentication\\s*yes/PasswordAuthentication no/' /etc/ssh/sshd_config"@
    } else {
        "systemctl restart ssh"@
    }
}

/// The runtime installation commands: download the vendor script, run it,
/// clean up (best-effort), and grant the runtime group (best-effort).
pub open spec fn spec_install_cmd(i: int) -> Seq<char> {
    if i == 0 {
        "curl -fsSL https://get.docker.com -o /tmp/get-docker.sh"@
    } else if i == 1 {
        "sudo DEBIAN_FRONTEND=noninteractive sh /tmp/get-docker.sh 2>&1"@
    } else if i == 2 {
        "rm /tmp/get-docker.sh"@
    } else {
        "sudo usermod -aG docker $USER"@
    }
}

/// Whether installation command `i` aborts provisioning on failure.
pub open spec fn spec_install_critical(i: int) -> bool {
    i == 0 || i == 1
}

/// The bindings the proxy configuration template is rendered under.
pub open spec fn spec_email_bindings(email: Seq<char>) -> Seq<(Seq<char>, Seq<char>)> {
    seq![("email"@, email)]
}

/// The proxy preparation commands: directories, the ACME state file with
/// mode 0600, the external network (best-effort), and the two document
/// writes via here-document redirection.
pub open spec fn spec_traefik_cmd(ctx: SetupContext, i: int) -> Seq<char> {
    if i == 0 {
        "sudo mkdir -p /opt/traefik/config/dynamic"@
    } else if i == 1 {
        "sudo mkdir -p /opt/traefik/data"@
    } else if i == 2 {
        "sudo touch /opt/traefik/data/acme.json"@
    } else if i == 3 {
        "sudo chmod 600 /opt/traefik/data/acme.json"@
    } else if i == 4 {
        "docker network create traefik_proxy"@
    } else if i == 5 {
        "sudo bash -c 'cat > /opt/traefik/config/traefik.yml << EOL\n"@ + spec_render(
            ctx.traefik_template@,
            spec_email_bindings(ctx.email@),
        ) + "\nEOL'"@
    } else {
        "sudo bash -c 'cat > /opt/traefik/docker-compose.yml << EOL\n"@ + ctx.traefik_compose@
            + "\nEOL'"@
    }
}

/// Whether proxy preparation command `i` aborts provisioning on failure;
/// only the network creation is best-effort ("create or ignore if exists").
pub open spec fn spec_traefik_critical(i: int) -> bool {
    i != 4
}

/// The action each state asks of the driver.
pub open spec fn spec_setup_action(ctx: SetupContext, s: SetupState) -> SpecSetupAction {
    match s {
        SetupState::CheckLocal => SpecSetupAction::RunLocal {
            program: "docker"@,
            args: seq!["--version"@],
        },
        SetupState::ConnectRoot => SpecSetupAction::Connect { username: "root"@ },
        SetupState::UserSetup { i } => SpecSetupAction::RunRemote { command: spec_user_cmd(i as int) },
        SetupState::ConnectUser => SpecSetupAction::Connect { username: "minion"@ },
        SetupState::ProbeDocker => SpecSetupAction::RunRemote { command: "command -v docker"@ },
        SetupState::InstallDocker { i } => SpecSetupAction::RunRemote {
            command: spec_install_cmd(i as int),
        },
        SetupState::VerifyDocker { installed } => SpecSetupAction::RunRemote {
            command: "docker --version"@,
        },
        SetupState::Reconnect => SpecSetupAction::Reopen { username: "minion"@ },
        SetupState::CheckCompose => SpecSetupAction::RunRemote {
            command: "docker compose version"@,
        },
        SetupState::CheckGroups => SpecSetupAction::RunRemote { command: "groups"@ },
        SetupState::TraefikStep { i } => SpecSetupAction::RunRemote {
            command: spec_traefik_cmd(ctx, i as int),
        },
        SetupState::VerifyFiles => SpecSetupAction::RunRemote {
            command: "ls -l /opt/traefik/config/traefik.yml /opt/traefik/docker-compose.yml"@,
        },
        SetupState::StartTraefik => SpecSetupAction::RunRemote {
            command: "cd /opt/traefik && docker compose up -d 2>&1"@,
        },
        SetupState::CheckRunning => SpecSetupAction::RunRemote {
            command: "docker ps --filter 'name=traefik' --format '{{.Status}}'"@,
        },
        SetupState::Done => SpecSetupAction::Finish,
        SetupState::Failed => SpecSetupAction::Abort,
    }
}

/// The transition each event causes in each state.
pub open spec fn spec_setup_next(s: SetupState, e: SetupEvent) -> SetupState {
    match s {
        SetupState::CheckLocal => match e {
            SetupEvent::Launched { result } => SetupState::ConnectRoot,
            _ => SetupState::Failed,
        },
        SetupState::ConnectRoot => match e {
            SetupEvent::Connected => SetupState::UserSetup { i: 0 },
            SetupEvent::NetworkFailed => SetupState::ConnectUser,
            SetupEvent::AuthFailed => SetupState::ConnectUser,
            _ => SetupState::Failed,
        },
        SetupState::UserSetup { i } => match e {
            SetupEvent::Ran { result } => if result.exit_code != 0 {
                SetupState::Failed
            } else if i + 1 < USER_STEPS {
                SetupState::UserSetup { i: (i + 1) as usize }
            } else {
                SetupState::ConnectUser
            },
            _ => SetupState::Failed,
        },
        SetupState::ConnectUser => match e {
            SetupEvent::Connected => SetupState::ProbeDocker,
            _ => SetupState::Failed,
        },
        SetupState::ProbeDocker => match e {
            SetupEvent::Ran { result } => if result.exit_code == 0 {
                SetupState::VerifyDocker { installed: false }
            } else {
                SetupState::InstallDocker { i: 0 }
            },
            _ => SetupState::Failed,
        },
        SetupState::InstallDocker { i } => match e {
            SetupEvent::Ran { result } => if spec_install_critical(i as int) && result.exit_code
                != 0 {
                SetupState::Failed
            } else if i + 1 < INSTALL_STEPS {
                SetupState::InstallDocker { i: (i + 1) as usize }
            } else {
                SetupState::VerifyDocker { installed: true }
            },
            _ => SetupState::Failed,
        },
        SetupState::VerifyDocker { installed } => match e {
            SetupEvent::Ran { result } => if result.exit_code != 0 {
                SetupState::Failed
            } else if installed {
                SetupState::Reconnect
            } else {
                SetupState::CheckCompose
            },
            _ => SetupState::Failed,
        },
        SetupState::Reconnect => match e {
            SetupEvent::Connected => SetupState::CheckCompose,
            _ => SetupState::Failed,
        },
        SetupState::CheckCompose => match e {
            SetupEvent::Ran { result } => if result.exit_code != 0 {
                SetupState::Failed
            } else {
                SetupState::CheckGroups
            },
            _ => SetupState::Failed,
        },
        SetupState::CheckGroups => match e {
            SetupEvent::Ran { result } => if contains_seq(result.output@, "docker"@) {
                SetupState::TraefikStep { i: 0 }
            } else {
                SetupState::Failed
            },
            _ => SetupState::Failed,
        },
        SetupState::TraefikStep { i } => match e {
            SetupEvent::Ran { result } => if spec_traefik_critical(i as int) && result.exit_code
                != 0 {
                SetupState::Failed
            } else if i + 1 < TRAEFIK_STEPS {
                SetupState::TraefikStep { i: (i + 1) as usize }
            } else {
                SetupState::VerifyFiles
            },
            _ => SetupState::Failed,
        },
        SetupState::VerifyFiles => match e {
            SetupEvent::Ran { result } => if result.exit_code != 0 {
                SetupState::Failed
            } else {
                SetupState::StartTraefik
            },
            _ => SetupState::Failed,
        },
        SetupState::StartTraefik => match e {
            SetupEvent::Ran { result } => if result.exit_code != 0 {
                SetupState::Failed
            } else {
                SetupState::CheckRunning
            },
            _ => SetupState::Failed,
        },
        SetupState::CheckRunning => match e {
            SetupEvent::Ran { result } => if result.exit_code == 0 && contains_seq(
                result.output@,
                "Up"@,
            ) {
                SetupState::Done
            } else {
                SetupState::Failed
            },
            _ => SetupState::Failed,
        },
        SetupState::Done => SetupState::Done,
        SetupState::Failed => SetupState::Failed,
    }
}

/// An exit code of 0 is success for every provisioning command: a remote
/// outcome with exit code 0 never fails the pipeline, whatever its output
/// says — leaving aside the two probes that read the output by design, the
/// group-membership check and the running check.
pub proof fn lemma_success_never_aborts(s: SetupState, r: CommandResult)
    requires
        r.exit_code == 0,
        s is UserSetup || s is ProbeDocker || s is InstallDocker || s is VerifyDocker
            || s is CheckCompose || s is TraefikStep || s is VerifyFiles || s is StartTraefik,
    ensures
        spec_setup_next(s, SetupEvent::Ran { result: r }) != SetupState::Failed,
{
}

/// Two outcomes with the same exit code move every provisioning state the
/// same way; only the two documented output probes, the group-membership
/// check and the running check, read the output text at all.
pub proof fn lemma_transition_ignores_output(s: SetupState, r1: CommandResult, r2: CommandResult)
    requires
        r1.exit_code == r2.exit_code,
        !(s is CheckGroups),
        !(s is CheckRunning),
    ensures
        spec_setup_next(s, SetupEvent::Ran { result: r1 }) == spec_setup_next(
            s,
            SetupEvent::Ran { result: r2 },
        ),
{
}

/// The session reset is issued in exactly one situation: the runtime
/// answered its verification right after a fresh installation. In
/// particular, when the probe found the runtime already installed, no
/// reset ever follows.
pub proof fn lemma_reset_only_after_fresh_install(s: SetupState, e: SetupEvent)
    requires
        wf_state(s),
    ensures
        spec_setup_next(s, e) is Reconnect ==> s == (SetupState::VerifyDocker {
            installed: true,
        }),
        spec_setup_next(s, e) == (SetupState::VerifyDocker { installed: true }) ==> s
            == (SetupState::InstallDocker { i: (INSTALL_STEPS - 1) as usize }),
{
}

/// The already-installed path: a successful probe skips the installation
/// commands entirely, and the verification that follows goes straight on to
/// the compose check with no session reset.
pub proof fn lemma_probe_success_skips_install(r1: CommandResult, r2: CommandResult)
    requires
        r1.exit_code == 0,
        r2.exit_code == 0,
    ensures
        spec_setup_next(SetupState::ProbeDocker, SetupEvent::Ran { result: r1 })
            == (SetupState::VerifyDocker { installed: false }),
        spec_setup_next(
            SetupState::VerifyDocker { installed: false },
            SetupEvent::Ran { result: r2 },
        ) == SetupState::CheckCompose,
{
}

fn user_command(i: usize) -> (r: String)
    requires
        i < USER_STEPS,
    ensures
        r@ == spec_user_cmd(i as int),
{
    if i == 0 {
        String::from_str("id -u minion &>/dev/null || useradd -m -s /bin/bash minion")
    } else if i == 1 {
        String::from_str("mkdir -p /home/minion/.ssh")
    } else if i == 2 {
        String::from_str("cp ~/.ssh/authorized_keys /home/minion/.ssh/")
    } else if i == 3 {
        String::from_str("chown -R minion:minion /home/minion/.ssh")
    } else if i == 4 {
        String::from_str("chmod 700 /home/minion/.ssh")
    } else if i == 5 {
        String::from_str("chmod 600 /home/minion/.ssh/authorized_keys")
    } else if i == 6 {
        String::from_str("echo 'minion ALL=(ALL) NOPASSWD:ALL' > /etc/sudoers.d/minion")
    } else if i == 7 {
        String::from_str("chmod 440 /etc/sudoers.d/minion")
    } else if i == 8 {
        String::from_str("sed -i 's/^#\\?PermitRootLogin\\s*yes/PermitRootLogin no/' /etc/ssh/sshd_config")
    } else if i == 9 {
        String::from_str("sed -i 's/^#\\?PasswordAuthentication\\s*yes/PasswordAuthentication no/' /etc/ssh/sshd_config")
    } else {
        String::from_str("systemctl restart ssh")
    }
}

fn install_command(i: usize) -> (r: String)
    requires
        i < INSTALL_STEPS,
    ensures
        r@ == spec_install_cmd(i as int),
{
    if i == 0 {
        String::from_str("curl -fsSL https://get.docker.com -o /tmp/get-docker.sh")
    } else if i == 1 {
        String::from_str("sudo DEBIAN_FRONTEND=noninteractive sh /tmp/get-docker.sh 2>&1")
    } else if i == 2 {
        String::from_str("rm /tmp/get-docker.sh")
    } else {
        String::from_str("sudo usermod -aG docker $USER")
    }
}

fn traefik_command(ctx: &SetupContext, i: usize) -> (r: String)
    requires
        i < TRAEFIK_STEPS,
    ensures
        r@ == spec_traefik_cmd(*ctx, i as int),
{
    if i == 0 {
        String::from_str("sudo mkdir -p /opt/traefik/config/dynamic")
    } else if i == 1 {
        String::from_str("sudo mkdir -p /opt/traefik/data")
    } else if i == 2 {
        String::from_str("sudo touch /opt/traefik/data/acme.json")
    } else if i == 3 {
        String::from_str("sudo chmod 600 /opt/traefik/data/acme.json")
    } else if i == 4 {
        String::from_str("docker network create traefik_proxy")
    } else if i == 5 {
        let mut bindings: Vec<(String, String)> = Vec::new();
        bindings.push((String::from_str("email"), ctx.email.clone()));
        proof {
            assert(bindings.deep_view() =~= spec_email_bindings(ctx.email@));
        }
        let rendered = render(ctx.traefik_template.as_str(), &bindings);
        concat3(
            "sudo bash -c 'cat > /opt/traefik/config/traefik.yml << EOL\n",
            rendered.as_str(),
            "\nEOL'",
        )
    } else {
        concat3(
            "sudo bash -c 'cat > /opt/traefik/docker-compose.yml << EOL\n",
            ctx.traefik_compose.as_str(),
            "\nEOL'",
        )
    }
}

/// Prepares a host: restricted user, container runtime, reverse proxy.
pub struct SetupCommand;

impl SetupCommand {
    /// A fresh setup command.
    pub fn new() -> (r: SetupCommand) {
        SetupCommand
    }

    /// Where every provisioning run starts.
    pub fn initial_state() -> (r: SetupState)
        ensures
            r == SetupState::CheckLocal,
            wf_state(r),
    {
        SetupState::CheckLocal
    }

    /// The action the driver must perform in state `s`.
    pub fn action(ctx: &SetupContext, s: SetupState) -> (r: SetupAction)
        requires
            wf_state(s),
        ensures
            r@ == spec_setup_action(*ctx, s),
    {
        match s {
            SetupState::CheckLocal => {
                let mut args: Vec<String> = Vec::new();
                args.push(String::from_str("--version"));
                proof {
                    assert(args.deep_view() =~= seq!["--version"@]);
                }
                SetupAction::RunLocal { program: String::from_str("docker"), args }
            },
            SetupState::ConnectRoot => SetupAction::Connect { username: String::from_str("root") },
            SetupState::UserSetup { i } => SetupAction::RunRemote { command: user_command(i) },
            SetupState::ConnectUser => SetupAction::Connect {
                username: String::from_str("minion"),
            },
            SetupState::ProbeDocker => SetupAction::RunRemote {
                command: String::from_str("command -v docker"),
            },
            SetupState::InstallDocker { i } => SetupAction::RunRemote {
                command: install_command(i),
            },
            SetupState::VerifyDocker { installed } => SetupAction::RunRemote {
                command: String::from_str("docker --version"),
            },
            SetupState::Reconnect => SetupAction::Reopen { username: String::from_str("minion") },
            SetupState::CheckCompose => SetupAction::RunRemote {
                command: String::from_str("docker compose version"),
            },
            SetupState::CheckGroups => SetupAction::RunRemote {
                command: String::from_str("groups"),
            },
            SetupState::TraefikStep { i } => SetupAction::RunRemote {
                command: traefik_command(ctx, i),
            },
            SetupState::VerifyFiles => SetupAction::RunRemote {
                command: String::from_str(
                    "ls -l /opt/traefik/config/traefik.yml /opt/traefik/docker-compose.yml",
                ),
            },
            SetupState::StartTraefik => SetupAction::RunRemote {
                command: String::from_str("cd /opt/traefik && docker compose up -d 2>&1"),
            },
            SetupState::CheckRunning => SetupAction::RunRemote {
                command: String::from_str(
                    "docker ps --filter 'name=traefik' --format '{{.Status}}'",
                ),
            },
            SetupState::Done => SetupAction::Finish,
            SetupState::Failed => SetupAction::Abort,
        }
    }

    /// The state the pipeline moves to when `e` arrives in state `s`.
    pub fn next(s: SetupState, e: &SetupEvent) -> (r: SetupState)
        requires
            wf_state(s),
        ensures
            r == spec_setup_next(s, *e),
            wf_state(r),
    {
        match s {
            SetupState::CheckLocal => match e {
                SetupEvent::Launched { result } => SetupState::ConnectRoot,
                _ => SetupState::Failed,
            },
            SetupState::ConnectRoot => match e {
                SetupEvent::Connected => SetupState::UserSetup { i: 0 },
                SetupEvent::NetworkFailed => SetupState::ConnectUser,
                SetupEvent::AuthFailed => SetupState::ConnectUser,
                _ => SetupState::Failed,
            },
            SetupState::UserSetup { i } => match e {
                SetupEvent::Ran { result } => {
                    if result.exit_code != 0 {
                        SetupState::Failed
                    } else if i + 1 < USER_STEPS {
                        SetupState::UserSetup { i: i + 1 }
                    } else {
                        SetupState::ConnectUser
                    }
                },
                _ => SetupState::Failed,
            },
            SetupState::ConnectUser => match e {
                SetupEvent::Connected => SetupState::ProbeDocker,
                _ => SetupState::Failed,
            },
            SetupState::ProbeDocker => match e {
                SetupEvent::Ran { result } => {
                    if result.exit_code == 0 {
                        SetupState::VerifyDocker { installed: false }
                    } else {
                        SetupState::InstallDocker { i: 0 }
                    }
                },
                _ => SetupState::Failed,
            },
            SetupState::InstallDocker { i } => match e {
                SetupEvent::Ran { result } => {
                    if i <= 1 && result.exit_code != 0 {
                        SetupState::Failed
                    } else if i + 1 < INSTALL_STEPS {
                        SetupState::InstallDocker { i: i + 1 }
                    } else {
                        SetupState::VerifyDocker { installed: true }
                    }
                },
                _ => SetupState::Failed,
            },
            SetupState::VerifyDocker { installed } => match e {
                SetupEvent::Ran { result } => {
                    if result.exit_code != 0 {
                        SetupState::Failed
                    } else if installed {
                        SetupState::Reconnect
                    } else {
                        SetupState::CheckCompose
                    }
                },
                _ => SetupState::Failed,
            },
            SetupState::Reconnect => match e {
                SetupEvent::Connected => SetupState::CheckCompose,
                _ => SetupState::Failed,
            },
            SetupState::CheckCompose => match e {
                SetupEvent::Ran { result } => {
                    if result.exit_code != 0 {
                        SetupState::Failed
                    } else {
                        SetupState::CheckGroups
                    }
                },
                _ => SetupState::Failed,
            },
            SetupState::CheckGroups => match e {
                SetupEvent::Ran { result } => {
                    if contains_sub(result.output.as_str(), "docker") {
                        SetupState::TraefikStep { i: 0 }
                    } else {
                        SetupState::Failed
                    }
                },
                _ => SetupState::Failed,
            },
            SetupState::TraefikStep { i } => match e {
                SetupEvent::Ran { result } => {
                    if i != 4 && result.exit_code != 0 {
                        SetupState::Failed
                    } else if i + 1 < TRAEFIK_STEPS {
                        SetupState::TraefikStep { i: i + 1 }
                    } else {
                        SetupState::VerifyFiles
                    }
                },
                _ => SetupState::Failed,
            },
            SetupState::VerifyFiles => match e {
                SetupEvent::Ran { result } => {
                    if result.exit_code != 0 {
                        SetupState::Failed
                    } else {
                        SetupState::StartTraefik
                    }
                },
                _ => SetupState::Failed,
            },
            SetupState::StartTraefik => match e {
                SetupEvent::Ran { result } => {
                    if result.exit_code != 0 {
                        SetupState::Failed
                    } else {
                        SetupState::CheckRunning
                    }
                },
                _ => SetupState::Failed,
            },
            SetupState::CheckRunning => match e {
                SetupEvent::Ran { result } => {
                    if result.is_success() && contains_sub(result.output.as_str(), "Up") {
                        SetupState::Done
                    } else {
                        SetupState::Failed
                    }
                },
                _ => SetupState::Failed,
            },
            SetupState::Done => SetupState::Done,
            SetupState::Failed => SetupState::Failed,
        }
    }
}

} // verus!

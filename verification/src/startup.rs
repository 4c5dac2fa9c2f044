//! Starting up: from the command line to a server, in the foreground or as a daemon.

use vstd::prelude::*;

use crate::cli::{
    get_connect_timeout, get_glob_sort, get_idle_timeout, get_socket_path, get_target_globs,
    sort_option, timeout_option, Cli, CliError,
};
use crate::find::GlobSort;
use crate::path::{copy_optional_path, copy_path, optional_path};
use crate::server::{law_settings_kept, server_after, ServerModel, TimedEvent};
use crate::span::{optional_span, Span, NANOS_PER_MILLI, NANOS_PER_SEC};
use crate::text::{
    contains, contains_text, copy_result, copy_texts, decimal_u64, result_text,
};

verus! {

/// The mask of the permissions that the listening socket is created without: all
/// but reading and writing by its owner, so that the target socket is not exposed
/// to other users through it.
pub const SOCKET_UMASK: u32 = 0o177;

/// Maximum number of seconds to wait for the daemon to start.
pub const MAX_CHILD_WAIT_SECS: u64 = 10;

/// Whatever permissions are asked for, neither the group nor others get any on the
/// listening socket, and its owner may not execute it.
pub proof fn law_socket_is_private(mode: u32)
    ensures
        mode & !SOCKET_UMASK & 0o077 == 0,
        mode & !SOCKET_UMASK & 0o777 == mode & 0o600,
{
    assert(mode & !0o177u32 & 0o077 == 0) by (bit_vector);
    assert(mode & !0o177u32 & 0o777 == mode & 0o600) by (bit_vector);
}

/// Runtime configuration of the server.
#[derive(Debug)]
pub struct SwitcherConfig {
    /// Glob patterns for primary target Unix socket discovery.
    pub target_globs: Vec<String>,
    /// Glob patterns for fallback target Unix socket discovery.
    pub fallback_globs: Vec<String>,
    /// Optional PID file to remove on shutdown.
    pub pid_file: Option<Vec<u8>>,
    /// Whether the listener came from systemd socket activation.
    pub systemd_activated: bool,
    /// Optional idle shutdown timeout.
    pub idle_timeout: Option<Span>,
    /// Optional per-target connection timeout.
    pub connect_timeout: Option<Span>,
    /// Sort order for glob matches.
    pub glob_sort: GlobSort,
}

/// What is wrong with the options that `cli` gives, if anything; what comes first
/// is reported.
pub open spec fn first_problem(cli: Cli) -> Option<CliError> {
    if cli.target_globs@.len() == 0 {
        Some(CliError::NoTargetGlob)
    } else if idle_option(cli) is Err {
        Some(CliError::BadIdleTimeout)
    } else if connect_option(cli) is Err {
        Some(CliError::BadConnectTimeout)
    } else {
        match sort_option(cli.target_glob_sort) {
            Ok(_) => None,
            Err(e) => Some(e),
        }
    }
}

/// The idle timeout that `cli` gives.
pub open spec fn idle_option(cli: Cli) -> Result<Option<nat>, CliError> {
    timeout_option(cli.idle_timeout, NANOS_PER_SEC, CliError::BadIdleTimeout)
}

/// The bound on each connection attempt that `cli` gives.
pub open spec fn connect_option(cli: Cli) -> Result<Option<nat>, CliError> {
    timeout_option(cli.connect_timeout, NANOS_PER_MILLI, CliError::BadConnectTimeout)
}

/// Whether `config` is what `cli` asks for.
pub open spec fn configured(cli: Cli, activated: bool, config: SwitcherConfig) -> bool {
    &&& config.target_globs@ == cli.target_globs@
    &&& config.fallback_globs@ == cli.fallback_globs@
    &&& optional_path(config.pid_file) == optional_path(cli.pid_file)
    &&& config.systemd_activated == activated
    &&& idle_option(cli) == Ok::<Option<nat>, CliError>(optional_span(config.idle_timeout))
    &&& connect_option(cli) == Ok::<Option<nat>, CliError>(optional_span(config.connect_timeout))
    &&& sort_option(cli.target_glob_sort) == Ok::<GlobSort, CliError>(config.glob_sort)
}

/// How far starting up has come.
pub enum Phase {
    /// The version is being printed.
    ShowingVersion,
    /// A listening socket that systemd provides is being looked for.
    TakingListener,
    /// A socket file that a previous instance left behind is being removed.
    RemovingStale,
    /// The listening socket is being created.
    Binding,
    /// The log file is being opened.
    OpeningLog { activated: bool },
    /// The process is being split into a parent and a daemon.
    Daemonizing,
    /// Logging is being set up: by the parent, or by the process that will serve.
    StartingLogger { parent: bool, activated: bool },
    /// The parent waits for the daemon to write its PID file.
    AwaitingPid,
    /// The shutdown signals are being blocked.
    BlockingSignals { activated: bool },
    /// The runtime is being started.
    StartingRuntime { activated: bool },
    /// The PID file of a process in the foreground is being created.
    WritingPid { activated: bool },
    /// Connections are served.
    Serving { activated: bool },
    /// The PID file is removed, since serving failed.
    RemovingPid { activated: bool, result: Result<(), Seq<char>> },
    /// The listening socket is removed, since nothing will be served.
    CleaningUp { result: Result<(), Seq<char>> },
    /// The process ends.
    Ended { result: Result<(), Seq<char>> },
}

enum Progress {
    ShowingVersion,
    TakingListener,
    RemovingStale,
    Binding,
    OpeningLog { activated: bool },
    Daemonizing,
    StartingLogger { parent: bool, activated: bool },
    AwaitingPid,
    BlockingSignals { activated: bool },
    StartingRuntime { activated: bool },
    WritingPid { activated: bool },
    Serving { activated: bool },
    RemovingPid { activated: bool, result: Result<(), String> },
    CleaningUp { result: Result<(), String> },
    Ended { result: Result<(), String> },
}

/// A process that starts up, as a value.
pub struct StartupModel {
    pub cli: Cli,
    pub phase: Phase,
}

/// A process that starts up.
pub struct Startup {
    cli: Cli,
    progress: Progress,
}

/// What came of the last action.
#[derive(Debug)]
pub enum StartupEvent {
    /// The version was printed.
    VersionShown,
    /// Looking for a listening socket failed, for this reason.
    ListenerFailed(String),
    /// Systemd provides a listening socket.
    ListenerInherited,
    /// Systemd provides no listening socket.
    ListenerAbsent,
    /// The leftover socket file was removed.
    StaleRemoved,
    /// There was no leftover socket file.
    StaleAbsent,
    /// The leftover socket file could not be removed.
    StaleFailed { path: String, cause: String },
    /// The listening socket was created.
    Bound,
    /// The listening socket could not be created.
    BindFailed { path: String, cause: String },
    /// The log file was opened.
    LogOpened,
    /// The log file could not be opened.
    LogFailed { path: String, cause: String },
    /// This process is the parent of a daemon.
    ParentReady,
    /// This process could not become the parent of a daemon.
    ParentFailed(String),
    /// This process is the daemon.
    ChildReady,
    /// This process could not become the daemon.
    ChildFailed(String),
    /// Logging was set up.
    LoggerStarted,
    /// The daemon wrote its PID file.
    PidWritten,
    /// The daemon did not write its PID file, for this reason.
    PidMissing(String),
    /// The shutdown signals were blocked.
    SignalsBlocked,
    /// The runtime was started.
    RuntimeStarted,
    /// The runtime could not be started.
    RuntimeFailed(String),
    /// The PID file of this process was created.
    PidCreated,
    /// The PID file of this process could not be created.
    PidFailed { path: String, cause: String },
    /// The server came to its end, or failed.
    Served(Result<(), String>),
    /// The PID file was removed.
    PidRemoved,
    /// The listening socket was removed.
    SocketRemoved,
}

/// What to do next.
#[derive(Debug)]
pub enum StartupAction {
    /// Print the version.
    PrintVersion,
    /// Look for a listening socket that systemd provides.
    TakeListener,
    /// Remove the file at this path, if there is one.
    RemoveStale(Vec<u8>),
    /// Create a listening socket at this path.
    Bind(Vec<u8>),
    /// Open the log file at this path.
    OpenLog(Vec<u8>),
    /// Become a daemon, with a PID file at this path if there is one. Its standard
    /// error is the log file that was opened where `stderr_to_log` says so.
    Daemonize { pid_file: Option<Vec<u8>>, stderr_to_log: bool },
    /// Set up logging: to the log file that was opened, or to the standard error.
    StartLogger { to_file: bool },
    /// Wait for the PID file at this path, no longer than `limit`.
    AwaitPid { path: Vec<u8>, limit: Span },
    /// Block the shutdown signals.
    BlockSignals,
    /// Start the runtime.
    StartRuntime,
    /// Create a PID file of this process at this path.
    WritePid(Vec<u8>),
    /// Serve connections.
    Serve(SwitcherConfig),
    /// Remove the PID file at this path.
    RemovePid(Vec<u8>),
    /// Remove the listening socket at this path.
    RemoveSocket(Vec<u8>),
    /// End the process: quietly, or reporting an error.
    Exit(Result<(), String>),
}

/// How it reads that something failed: what was tried, on which path, and why.
pub open spec fn path_failure(
    what: Seq<char>,
    path: Seq<char>,
    cause: Seq<char>,
) -> Result<(), Seq<char>> {
    Err(what + path + ": "@ + cause)
}

/// What becoming a daemon fails with in a process that finds another one running.
pub open spec fn already_running(cause: Seq<char>) -> bool {
    contains_text(cause, "unable to lock pid file"@)
}

/// What comes once there is a listening socket: the log file is opened, if there is
/// to be one. A daemon cannot take over a socket that systemd provides.
pub open spec fn launch_phase(cli: Cli, activated: bool) -> Phase {
    if cli.daemon && activated {
        Phase::Ended { result: Err(CliError::DaemonWithActivation.text()) }
    } else if cli.log_file is Some {
        Phase::OpeningLog { activated }
    } else {
        logged_phase(cli, activated)
    }
}

/// What comes once the log file is open, if there is to be one: the process serves,
/// or becomes a daemon first where that was asked for.
pub open spec fn logged_phase(cli: Cli, activated: bool) -> Phase {
    if cli.daemon {
        Phase::Daemonizing
    } else {
        Phase::StartingLogger { parent: false, activated }
    }
}

/// What comes once the runtime is started: a process in the foreground creates its
/// PID file, if there is to be one. A daemon has one already.
pub open spec fn running_phase(cli: Cli, activated: bool) -> Phase {
    if !cli.daemon && cli.pid_file is Some {
        Phase::WritingPid { activated }
    } else {
        Phase::Serving { activated }
    }
}

/// What comes where the PID file cannot be created: the listening socket is removed,
/// unless systemd owns it.
pub open spec fn unserved_phase(activated: bool, result: Result<(), Seq<char>>) -> Phase {
    if activated {
        Phase::Ended { result }
    } else {
        Phase::CleaningUp { result }
    }
}

/// What comes where serving fails: the PID file is removed, if there is one.
pub open spec fn failed_phase(cli: Cli, activated: bool, result: Result<(), Seq<char>>) -> Phase {
    if cli.pid_file is Some {
        Phase::RemovingPid { activated, result }
    } else {
        Phase::Ended { result }
    }
}

/// What comes once it is known whether systemd provides the listening socket. If it
/// does, no socket path may be given; otherwise there must be one.
pub open spec fn listener_phase(cli: Cli, activated: bool) -> Phase {
    match (activated, cli.socket_path) {
        (true, Some(_)) => Phase::Ended { result: Err(CliError::SocketPathWithActivation.text()) },
        (true, None) => launch_phase(cli, true),
        (false, Some(_)) => Phase::RemovingStale,
        (false, None) => Phase::Ended { result: Err(CliError::NoSocketPath.text()) },
    }
}

/// Whether the process has a listening socket that it created, in this phase.
pub open spec fn has_own_socket(phase: Phase) -> bool {
    match phase {
        Phase::Daemonizing | Phase::AwaitingPid => true,
        Phase::CleaningUp { .. } => true,
        Phase::OpeningLog { activated } => !activated,
        Phase::StartingLogger { activated, .. } => !activated,
        Phase::BlockingSignals { activated } => !activated,
        Phase::StartingRuntime { activated } => !activated,
        Phase::WritingPid { activated } => !activated,
        Phase::Serving { activated } => !activated,
        Phase::RemovingPid { activated, .. } => !activated,
        _ => false,
    }
}

impl StartupModel {
    /// A process that was just started.
    pub open spec fn begun(cli: Cli) -> StartupModel {
        let phase = if cli.show_version {
            Phase::ShowingVersion
        } else {
            match first_problem(cli) {
                Some(e) => Phase::Ended { result: Err(e.text()) },
                None => Phase::TakingListener,
            }
        };
        StartupModel { cli, phase }
    }

    /// The same process in another phase.
    pub open spec fn at(self, phase: Phase) -> StartupModel {
        StartupModel { phase, ..self }
    }

    /// The process at its end.
    pub open spec fn ended(self, result: Result<(), Seq<char>>) -> StartupModel {
        self.at(Phase::Ended { result })
    }

    /// Whether `event` can come of what is being done.
    pub open spec fn expects(self, event: StartupEvent) -> bool {
        match self.phase {
            Phase::ShowingVersion => event is VersionShown,
            Phase::TakingListener => event is ListenerFailed || event is ListenerInherited
                || event is ListenerAbsent,
            Phase::RemovingStale => event is StaleRemoved || event is StaleAbsent
                || event is StaleFailed,
            Phase::Binding => event is Bound || event is BindFailed,
            Phase::OpeningLog { .. } => event is LogOpened || event is LogFailed,
            Phase::Daemonizing => event is ParentReady || event is ParentFailed
                || event is ChildReady || event is ChildFailed,
            Phase::StartingLogger { .. } => event is LoggerStarted,
            Phase::AwaitingPid => event is PidWritten || event is PidMissing,
            Phase::BlockingSignals { .. } => event is SignalsBlocked,
            Phase::StartingRuntime { .. } => event is RuntimeStarted || event is RuntimeFailed,
            Phase::WritingPid { .. } => event is PidCreated || event is PidFailed,
            Phase::Serving { .. } => event is Served,
            Phase::RemovingPid { .. } => event is PidRemoved,
            Phase::CleaningUp { .. } => event is SocketRemoved,
            Phase::Ended { .. } => false,
        }
    }

    /// The process after `event`.
    pub open spec fn after(self, event: StartupEvent) -> StartupModel {
        match (self.phase, event) {
            (Phase::ShowingVersion, _) => self.ended(Ok(())),
            (Phase::TakingListener, StartupEvent::ListenerFailed(cause)) => self.ended(Err(cause@)),
            (Phase::TakingListener, _) => self.at(
                listener_phase(self.cli, event is ListenerInherited),
            ),
            (Phase::RemovingStale, StartupEvent::StaleFailed { path, cause }) => self.ended(
                path_failure("Failed to remove stale socket "@, path@, cause@),
            ),
            (Phase::RemovingStale, _) => self.at(Phase::Binding),
            (Phase::Binding, StartupEvent::BindFailed { path, cause }) => self.ended(
                path_failure("Cannot listen on "@, path@, cause@),
            ),
            (Phase::Binding, _) => self.at(launch_phase(self.cli, false)),
            (Phase::OpeningLog { .. }, StartupEvent::LogFailed { path, cause }) => self.ended(
                path_failure("Failed to open/create log file "@, path@, cause@),
            ),
            (Phase::OpeningLog { activated }, _) => self.at(logged_phase(self.cli, activated)),
            (Phase::Daemonizing, StartupEvent::ParentFailed(cause)) => self.ended(
                Err("Failed to become daemon: "@ + cause@),
            ),
            (Phase::Daemonizing, StartupEvent::ChildFailed(cause)) => self.at(
                Phase::CleaningUp {
                    result: if already_running(cause@) {
                        Ok(())
                    } else {
                        Err("Failed to become daemon: "@ + cause@)
                    },
                },
            ),
            (Phase::Daemonizing, _) => self.at(
                Phase::StartingLogger { parent: event is ParentReady, activated: false },
            ),
            (Phase::StartingLogger { parent: true, .. }, _) => if self.cli.pid_file is Some {
                self.at(Phase::AwaitingPid)
            } else {
                self.ended(Ok(()))
            },
            (Phase::StartingLogger { parent: false, activated }, _) => self.at(
                Phase::BlockingSignals { activated },
            ),
            (Phase::AwaitingPid, StartupEvent::PidMissing(cause)) => self.ended(
                Err("Daemon failed to start on time: "@ + cause@),
            ),
            (Phase::AwaitingPid, _) => self.ended(Ok(())),
            (Phase::BlockingSignals { activated }, _) => self.at(
                Phase::StartingRuntime { activated },
            ),
            (Phase::StartingRuntime { .. }, StartupEvent::RuntimeFailed(cause)) => self.ended(
                Err("Failed to start runtime: "@ + cause@),
            ),
            (Phase::StartingRuntime { activated }, _) => self.at(
                running_phase(self.cli, activated),
            ),
            (Phase::WritingPid { activated }, StartupEvent::PidFailed { path, cause }) => self.at(
                unserved_phase(
                    activated,
                    path_failure("Failed to create PID file "@, path@, cause@),
                ),
            ),
            (Phase::WritingPid { activated }, _) => self.at(Phase::Serving { activated }),
            (Phase::Serving { activated }, StartupEvent::Served(Err(e))) => self.at(
                failed_phase(self.cli, activated, Err(e@)),
            ),
            (Phase::Serving { .. }, _) => self.ended(Ok(())),
            (Phase::RemovingPid { result, .. }, _) => self.ended(result),
            (Phase::CleaningUp { result }, _) => self.ended(result),
            _ => self,
        }
    }

    /// Whether what was given on the command line fits how far the process has come:
    /// its options are in order, it becomes a daemon only where that was asked for,
    /// and there is a path wherever one is to be used.
    pub open spec fn sound(self) -> bool {
        &&& !(self.phase is ShowingVersion || self.phase is Ended) ==> first_problem(self.cli)
            is None
        &&& self.phase is RemovingStale || self.phase is Binding || has_own_socket(self.phase)
            ==> self.cli.socket_path is Some
        &&& self.phase is Daemonizing || self.phase is AwaitingPid ==> self.cli.daemon
        &&& self.phase matches Phase::StartingLogger { parent, activated } ==> parent
            ==> self.cli.daemon && !activated
        &&& self.phase is WritingPid ==> !self.cli.daemon
        &&& self.phase matches Phase::OpeningLog { activated } ==> self.cli.log_file is Some && !(
        self.cli.daemon && activated)
        &&& self.phase is AwaitingPid || self.phase is WritingPid || self.phase is RemovingPid
            ==> self.cli.pid_file is Some
    }

    /// Whether `action` is what to do in this phase.
    pub open spec fn calls_for(self, action: StartupAction) -> bool {
        match self.phase {
            Phase::ShowingVersion => action is PrintVersion,
            Phase::TakingListener => action is TakeListener,
            Phase::RemovingStale => action matches StartupAction::RemoveStale(path) && Some(path@)
                == optional_path(self.cli.socket_path),
            Phase::Binding => action matches StartupAction::Bind(path) && Some(path@)
                == optional_path(self.cli.socket_path),
            Phase::OpeningLog { .. } => action matches StartupAction::OpenLog(path) && Some(path@)
                == optional_path(self.cli.log_file),
            Phase::Daemonizing => action matches StartupAction::Daemonize {
                pid_file,
                stderr_to_log,
            } && optional_path(pid_file) == optional_path(self.cli.pid_file) && stderr_to_log == (
            self.cli.log_file is Some),
            Phase::StartingLogger { .. } => action matches StartupAction::StartLogger { to_file }
                && to_file == (!self.cli.daemon && self.cli.log_file is Some),
            Phase::AwaitingPid => action matches StartupAction::AwaitPid { path, limit } && Some(
                path@,
            ) == optional_path(self.cli.pid_file) && limit@ == MAX_CHILD_WAIT_SECS * NANOS_PER_SEC,
            Phase::BlockingSignals { .. } => action is BlockSignals,
            Phase::StartingRuntime { .. } => action is StartRuntime,
            Phase::WritingPid { .. } => action matches StartupAction::WritePid(path) && Some(path@)
                == optional_path(self.cli.pid_file),
            Phase::Serving { activated } => action matches StartupAction::Serve(config)
                && configured(self.cli, activated, config),
            Phase::RemovingPid { .. } => action matches StartupAction::RemovePid(path) && Some(
                path@,
            ) == optional_path(self.cli.pid_file),
            Phase::CleaningUp { .. } => action matches StartupAction::RemoveSocket(path) && Some(
                path@,
            ) == optional_path(self.cli.socket_path),
            Phase::Ended { result } => action matches StartupAction::Exit(r) && result_text(r)
                == result,
        }
    }
}

impl View for Progress {
    type V = Phase;

    closed spec fn view(&self) -> Phase {
        match *self {
            Progress::ShowingVersion => Phase::ShowingVersion,
            Progress::TakingListener => Phase::TakingListener,
            Progress::RemovingStale => Phase::RemovingStale,
            Progress::Binding => Phase::Binding,
            Progress::OpeningLog { activated } => Phase::OpeningLog { activated },
            Progress::Daemonizing => Phase::Daemonizing,
            Progress::StartingLogger { parent, activated } => Phase::StartingLogger {
                parent,
                activated,
            },
            Progress::AwaitingPid => Phase::AwaitingPid,
            Progress::BlockingSignals { activated } => Phase::BlockingSignals { activated },
            Progress::StartingRuntime { activated } => Phase::StartingRuntime { activated },
            Progress::WritingPid { activated } => Phase::WritingPid { activated },
            Progress::Serving { activated } => Phase::Serving { activated },
            Progress::RemovingPid { activated, result } => Phase::RemovingPid {
                activated,
                result: result_text(result),
            },
            Progress::CleaningUp { result } => Phase::CleaningUp { result: result_text(result) },
            Progress::Ended { result } => Phase::Ended { result: result_text(result) },
        }
    }
}

impl View for Startup {
    type V = StartupModel;

    closed spec fn view(&self) -> StartupModel {
        StartupModel { cli: self.cli, phase: self.progress@ }
    }
}

/// The error of something that failed on a path.
fn failed_on(what: &str, path: &String, cause: &String) -> (result: Result<(), String>)
    ensures
        result_text(result) == path_failure(what@, path@, cause@),
{
    Err(what.to_owned().concat(path.as_str()).concat(": ").concat(cause.as_str()))
}

/// The error of something that failed.
fn failed(what: &str, cause: &String) -> (result: Result<(), String>)
    ensures
        result_text(result) == Err::<(), Seq<char>>(what@ + cause@),
{
    Err(what.to_owned().concat(cause.as_str()))
}

/// Checks the options that `cli` gives.
fn check_options(cli: &Cli) -> (result: Result<(), CliError>)
    ensures
        match result {
            Ok(_) => first_problem(*cli) is None,
            Err(e) => first_problem(*cli) == Some(e),
        },
{
    if let Err(e) = get_target_globs(cli) {
        return Err(e);
    }
    if let Err(e) = get_idle_timeout(cli) {
        return Err(e);
    }
    if let Err(e) = get_connect_timeout(cli) {
        return Err(e);
    }
    if let Err(e) = get_glob_sort(cli) {
        return Err(e);
    }
    Ok(())
}

impl Startup {
    #[verifier::type_invariant]
    spec fn well_formed(self) -> bool {
        self@.sound()
    }

    /// A process that was just started with this command line.
    pub fn begin(cli: Cli) -> (startup: Self)
        ensures
            startup@ == StartupModel::begun(cli),
    {
        if cli.show_version {
            return Startup { cli, progress: Progress::ShowingVersion };
        }
        match check_options(&cli) {
            Ok(_) => Startup { cli, progress: Progress::TakingListener },
            Err(e) => Startup { cli, progress: Progress::Ended { result: Err(e.message()) } },
        }
    }

    /// What to do next.
    pub fn action(&self) -> (action: StartupAction)
        ensures
            self@.calls_for(action),
    {
        proof {
            use_type_invariant(self);
        }
        match &self.progress {
            Progress::ShowingVersion => StartupAction::PrintVersion,
            Progress::TakingListener => StartupAction::TakeListener,
            Progress::RemovingStale => StartupAction::RemoveStale(self.socket_path()),
            Progress::Binding => StartupAction::Bind(self.socket_path()),
            Progress::OpeningLog { .. } => StartupAction::OpenLog(
                copy_path(self.cli.log_file.as_ref().unwrap()),
            ),
            Progress::Daemonizing => StartupAction::Daemonize {
                pid_file: copy_optional_path(&self.cli.pid_file),
                stderr_to_log: self.cli.log_file.is_some(),
            },
            Progress::StartingLogger { .. } => StartupAction::StartLogger {
                to_file: !self.cli.daemon && self.cli.log_file.is_some(),
            },
            Progress::AwaitingPid => StartupAction::AwaitPid {
                path: self.pid_path(),
                limit: Span::from_secs(MAX_CHILD_WAIT_SECS),
            },
            Progress::BlockingSignals { .. } => StartupAction::BlockSignals,
            Progress::StartingRuntime { .. } => StartupAction::StartRuntime,
            Progress::WritingPid { .. } => StartupAction::WritePid(self.pid_path()),
            Progress::Serving { activated } => StartupAction::Serve(self.config(*activated)),
            Progress::RemovingPid { .. } => StartupAction::RemovePid(self.pid_path()),
            Progress::CleaningUp { .. } => StartupAction::RemoveSocket(self.socket_path()),
            Progress::Ended { result } => StartupAction::Exit(copy_result(result)),
        }
    }

    /// The path of the socket to listen on.
    fn socket_path(&self) -> (path: Vec<u8>)
        requires
            self@.cli.socket_path is Some,
        ensures
            Some(path@) == optional_path(self@.cli.socket_path),
    {
        copy_path(self.cli.socket_path.as_ref().unwrap())
    }

    /// The path of the PID file.
    fn pid_path(&self) -> (path: Vec<u8>)
        requires
            self@.cli.pid_file is Some,
        ensures
            Some(path@) == optional_path(self@.cli.pid_file),
    {
        copy_path(self.cli.pid_file.as_ref().unwrap())
    }

    /// The configuration of the server.
    fn config(&self, systemd_activated: bool) -> (config: SwitcherConfig)
        requires
            first_problem(self@.cli) is None,
        ensures
            configured(self@.cli, systemd_activated, config),
    {
        SwitcherConfig {
            target_globs: copy_texts(self.cli.target_globs.as_slice()),
            fallback_globs: copy_texts(self.cli.fallback_globs.as_slice()),
            pid_file: copy_optional_path(&self.cli.pid_file),
            systemd_activated,
            idle_timeout: get_idle_timeout(&self.cli).unwrap(),
            connect_timeout: get_connect_timeout(&self.cli).unwrap(),
            glob_sort: get_glob_sort(&self.cli).unwrap(),
        }
    }

    /// Tells whether `event` can come of the action at hand.
    pub fn expects(&self, event: &StartupEvent) -> (yes: bool)
        ensures
            yes == self@.expects(*event),
    {
        match (&self.progress, event) {
            (Progress::ShowingVersion, StartupEvent::VersionShown) => true,
            (Progress::TakingListener, StartupEvent::ListenerFailed(_)) => true,
            (Progress::TakingListener, StartupEvent::ListenerInherited) => true,
            (Progress::TakingListener, StartupEvent::ListenerAbsent) => true,
            (Progress::RemovingStale, StartupEvent::StaleRemoved) => true,
            (Progress::RemovingStale, StartupEvent::StaleAbsent) => true,
            (Progress::RemovingStale, StartupEvent::StaleFailed { .. }) => true,
            (Progress::Binding, StartupEvent::Bound) => true,
            (Progress::Binding, StartupEvent::BindFailed { .. }) => true,
            (Progress::OpeningLog { .. }, StartupEvent::LogOpened) => true,
            (Progress::OpeningLog { .. }, StartupEvent::LogFailed { .. }) => true,
            (Progress::Daemonizing, StartupEvent::ParentReady) => true,
            (Progress::Daemonizing, StartupEvent::ParentFailed(_)) => true,
            (Progress::Daemonizing, StartupEvent::ChildReady) => true,
            (Progress::Daemonizing, StartupEvent::ChildFailed(_)) => true,
            (Progress::StartingLogger { .. }, StartupEvent::LoggerStarted) => true,
            (Progress::AwaitingPid, StartupEvent::PidWritten) => true,
            (Progress::AwaitingPid, StartupEvent::PidMissing(_)) => true,
            (Progress::BlockingSignals { .. }, StartupEvent::SignalsBlocked) => true,
            (Progress::StartingRuntime { .. }, StartupEvent::RuntimeStarted) => true,
            (Progress::StartingRuntime { .. }, StartupEvent::RuntimeFailed(_)) => true,
            (Progress::WritingPid { .. }, StartupEvent::PidCreated) => true,
            (Progress::WritingPid { .. }, StartupEvent::PidFailed { .. }) => true,
            (Progress::Serving { .. }, StartupEvent::Served(_)) => true,
            (Progress::RemovingPid { .. }, StartupEvent::PidRemoved) => true,
            (Progress::CleaningUp { .. }, StartupEvent::SocketRemoved) => true,
            _ => false,
        }
    }

    /// What to do once there is a listening socket.
    fn launch(cli: &Cli, activated: bool) -> (progress: Progress)
        ensures
            progress@ == launch_phase(*cli, activated),
    {
        if cli.daemon && activated {
            Progress::Ended { result: Err(CliError::DaemonWithActivation.message()) }
        } else if cli.log_file.is_some() {
            Progress::OpeningLog { activated }
        } else {
            Self::launch_logged(cli, activated)
        }
    }

    /// What to do once the log file is open, if there is to be one.
    fn launch_logged(cli: &Cli, activated: bool) -> (progress: Progress)
        ensures
            progress@ == logged_phase(*cli, activated),
    {
        if cli.daemon {
            Progress::Daemonizing
        } else {
            Progress::StartingLogger { parent: false, activated }
        }
    }

    /// What to do once the runtime is started.
    fn launch_running(cli: &Cli, activated: bool) -> (progress: Progress)
        ensures
            progress@ == running_phase(*cli, activated),
    {
        if !cli.daemon && cli.pid_file.is_some() {
            Progress::WritingPid { activated }
        } else {
            Progress::Serving { activated }
        }
    }

    /// What to do where the PID file cannot be created.
    fn cannot_serve(activated: bool, result: Result<(), String>) -> (progress: Progress)
        ensures
            progress@ == unserved_phase(activated, result_text(result)),
    {
        if activated {
            Progress::Ended { result }
        } else {
            Progress::CleaningUp { result }
        }
    }

    /// What to do where serving fails.
    fn serving_failed(cli: &Cli, activated: bool, result: Result<(), String>) -> (progress:
        Progress)
        ensures
            progress@ == failed_phase(*cli, activated, result_text(result)),
    {
        if cli.pid_file.is_some() {
            Progress::RemovingPid { activated, result }
        } else {
            Progress::Ended { result }
        }
    }

    /// What to do once looking for a listening socket that systemd provides found
    /// one, or found none.
    fn choose_listener(cli: &Cli, activated: bool) -> (progress: Progress)
        ensures
            progress@ == listener_phase(*cli, activated),
    {
        match get_socket_path(cli) {
            Ok(_) => if activated {
                Progress::Ended { result: Err(CliError::SocketPathWithActivation.message()) }
            } else {
                Progress::RemovingStale
            },
            Err(e) => if activated {
                Self::launch(cli, true)
            } else {
                Progress::Ended { result: Err(e.message()) }
            },
        }
    }

    /// Takes note of what came of the action at hand.
    pub fn step(self, event: StartupEvent) -> (next: Startup)
        requires
            self@.expects(event),
        ensures
            next@ == self@.after(event),
    {
        proof {
            use_type_invariant(&self);
        }
        let Startup { cli, progress } = self;
        let next: Progress = match (progress, event) {
            (Progress::TakingListener, StartupEvent::ListenerFailed(cause)) => Progress::Ended {
                result: Err(cause),
            },
            (Progress::TakingListener, StartupEvent::ListenerInherited) => Self::choose_listener(
                &cli,
                true,
            ),
            (Progress::TakingListener, _) => Self::choose_listener(&cli, false),
            (Progress::RemovingStale, StartupEvent::StaleFailed { path, cause }) =>
                Progress::Ended {
                    result: failed_on("Failed to remove stale socket ", &path, &cause),
                },
            (Progress::RemovingStale, _) => Progress::Binding,
            (Progress::Binding, StartupEvent::BindFailed { path, cause }) => Progress::Ended {
                result: failed_on("Cannot listen on ", &path, &cause),
            },
            (Progress::Binding, _) => Self::launch(&cli, false),
            (Progress::OpeningLog { .. }, StartupEvent::LogFailed { path, cause }) =>
                Progress::Ended {
                    result: failed_on("Failed to open/create log file ", &path, &cause),
                },
            (Progress::OpeningLog { activated }, _) => Self::launch_logged(&cli, activated),
            (Progress::Daemonizing, StartupEvent::ParentReady) => Progress::StartingLogger {
                parent: true,
                activated: false,
            },
            (Progress::Daemonizing, StartupEvent::ParentFailed(cause)) => Progress::Ended {
                result: failed("Failed to become daemon: ", &cause),
            },
            (Progress::Daemonizing, StartupEvent::ChildFailed(cause)) => Progress::CleaningUp {
                result: if contains(cause.as_str(), "unable to lock pid file") {
                    Ok(())
                } else {
                    failed("Failed to become daemon: ", &cause)
                },
            },
            (Progress::Daemonizing, _) => Progress::StartingLogger {
                parent: false,
                activated: false,
            },
            (Progress::StartingLogger { parent, activated }, _) => if !parent {
                Progress::BlockingSignals { activated }
            } else if cli.pid_file.is_some() {
                Progress::AwaitingPid
            } else {
                Progress::Ended { result: Ok(()) }
            },
            (Progress::AwaitingPid, StartupEvent::PidMissing(cause)) => Progress::Ended {
                result: failed("Daemon failed to start on time: ", &cause),
            },
            (Progress::BlockingSignals { activated }, _) => Progress::StartingRuntime { activated },
            (Progress::StartingRuntime { .. }, StartupEvent::RuntimeFailed(cause)) =>
                Progress::Ended { result: failed("Failed to start runtime: ", &cause) },
            (Progress::StartingRuntime { activated }, _) => Self::launch_running(&cli, activated),
            (Progress::WritingPid { activated }, StartupEvent::PidFailed { path, cause }) =>
                Self::cannot_serve(
                    activated,
                    failed_on("Failed to create PID file ", &path, &cause),
                ),
            (Progress::WritingPid { activated }, _) => Progress::Serving { activated },
            (Progress::Serving { activated }, StartupEvent::Served(Err(e))) =>
                Self::serving_failed(&cli, activated, Err(e)),
            (Progress::RemovingPid { result, .. }, _) => Progress::Ended { result },
            (Progress::CleaningUp { result }, _) => Progress::Ended { result },
            _ => Progress::Ended { result: Ok(()) },
        };
        Startup { cli, progress: next }
    }
}

/// The process after `events`, one after the other.
pub open spec fn startup_after(startup: StartupModel, events: Seq<StartupEvent>) -> StartupModel
    decreases events.len(),
{
    if events.len() == 0 {
        startup
    } else {
        startup_after(startup, events.drop_last()).after(events.last())
    }
}

/// Whether each of `events` can come of what is being done when it comes.
pub open spec fn possible(startup: StartupModel, events: Seq<StartupEvent>) -> bool
    decreases events.len(),
{
    events.len() > 0 ==> possible(startup, events.drop_last()) && startup_after(
        startup,
        events.drop_last(),
    ).expects(events.last())
}

/// At every point of starting up, the command line fits what is being done, and it
/// does not change.
pub proof fn law_startup_stays_sound(cli: Cli, events: Seq<StartupEvent>)
    requires
        possible(StartupModel::begun(cli), events),
    ensures
        startup_after(StartupModel::begun(cli), events).sound(),
        startup_after(StartupModel::begun(cli), events).cli == cli,
    decreases events.len(),
{
    if events.len() > 0 {
        law_startup_stays_sound(cli, events.drop_last());
    }
}

/// Where the version is asked for, it is printed and nothing else is done, whatever
/// the other options are.
pub proof fn law_version_only(cli: Cli)
    requires
        cli.show_version,
    ensures
        StartupModel::begun(cli).phase is ShowingVersion,
        StartupModel::begun(cli).after(StartupEvent::VersionShown).phase == (Phase::Ended {
            result: Ok(()),
        }),
{
}

/// Where an option is wrong, that is reported and nothing else is done.
pub proof fn law_bad_options_are_refused(cli: Cli)
    requires
        !cli.show_version,
    ensures
        match first_problem(cli) {
            Some(e) => StartupModel::begun(cli).phase == (Phase::Ended { result: Err(e.text()) }),
            None => StartupModel::begun(cli).phase is TakingListener,
        },
{
}

/// A socket that systemd provides is left alone: no socket file is removed or
/// created, and the process does not become a daemon. If it serves, it knows that
/// systemd owns the socket.
pub proof fn law_systemd_socket_is_left_alone(cli: Cli, events: Seq<StartupEvent>)
    requires
        possible(StartupModel::begun(cli), events),
        events.len() > 0,
        events[0] is ListenerInherited,
    ensures
        match startup_after(StartupModel::begun(cli), events).phase {
            Phase::OpeningLog { activated } => activated,
            Phase::StartingLogger { parent, activated } => !parent && activated,
            Phase::BlockingSignals { activated } => activated,
            Phase::StartingRuntime { activated } => activated,
            Phase::WritingPid { activated } => activated,
            Phase::Serving { activated } => activated,
            Phase::RemovingPid { activated, .. } => activated,
            Phase::Ended { .. } => true,
            _ => false,
        },
    decreases events.len(),
{
    let earlier = events.drop_last();
    if earlier.len() > 0 {
        law_systemd_socket_is_left_alone(cli, earlier);
    } else {
        assert(startup_after(StartupModel::begun(cli), earlier) == StartupModel::begun(cli));
    }
}

/// Without a socket from systemd, the process looks for one, clears the way, and
/// creates its own, in this order, before anything else.
pub proof fn law_own_socket_is_created_first(cli: Cli, events: Seq<StartupEvent>)
    requires
        possible(StartupModel::begun(cli), events),
        has_own_socket(startup_after(StartupModel::begun(cli), events).phase),
    ensures
        events.len() >= 3,
        events[0] is ListenerAbsent,
        events[1] is StaleRemoved || events[1] is StaleAbsent,
        events[2] is Bound,
    decreases events.len(),
{
    let begun = StartupModel::begun(cli);
    let earlier = events.drop_last();
    if has_own_socket(startup_after(begun, earlier).phase) {
        law_own_socket_is_created_first(cli, earlier);
    } else {
        lemma_looking_for_socket(cli, earlier);
    }
}

/// How the process came to look for a listening socket, or to create one.
proof fn lemma_looking_for_socket(cli: Cli, events: Seq<StartupEvent>)
    requires
        possible(StartupModel::begun(cli), events),
    ensures
        match startup_after(StartupModel::begun(cli), events).phase {
            Phase::TakingListener => events.len() == 0,
            Phase::RemovingStale => events.len() == 1 && events[0] is ListenerAbsent,
            Phase::Binding => events.len() == 2 && events[0] is ListenerAbsent && (events[1]
                is StaleRemoved || events[1] is StaleAbsent),
            _ => true,
        },
    decreases events.len(),
{
    if events.len() > 0 {
        lemma_looking_for_socket(cli, events.drop_last());
    }
}

/// Whether an event of this kind came.
pub open spec fn came(events: Seq<StartupEvent>, kind: spec_fn(StartupEvent) -> bool) -> bool {
    exists|i: int| 0 <= i < events.len() && kind(#[trigger] events[i])
}

/// What came before comes before still when more happens.
proof fn lemma_came_earlier(events: Seq<StartupEvent>, kind: spec_fn(StartupEvent) -> bool)
    requires
        events.len() > 0,
    ensures
        came(events, kind) == (came(events.drop_last(), kind) || kind(events.last())),
{
    let earlier = events.drop_last();
    if came(earlier, kind) {
        let i = choose|i: int| 0 <= i < earlier.len() && kind(#[trigger] earlier[i]);
        assert(events[i] == earlier[i]);
    }
    if came(events, kind) {
        let i = choose|i: int| 0 <= i < events.len() && kind(#[trigger] events[i]);
        if i < earlier.len() {
            assert(earlier[i] == events[i]);
        }
    }
    assert(events[events.len() - 1] == events.last());
}

/// The shutdown signals are blocked before the runtime starts, and a PID file is
/// created in the foreground, and connections are served, only once both was done.
pub proof fn law_signals_blocked_before_runtime(cli: Cli, events: Seq<StartupEvent>)
    requires
        possible(StartupModel::begun(cli), events),
    ensures
        match startup_after(StartupModel::begun(cli), events).phase {
            Phase::StartingRuntime { .. } => {
                &&& came(events, |event: StartupEvent| event is SignalsBlocked)
                &&& !came(events, |event: StartupEvent| event is RuntimeStarted)
            },
            Phase::WritingPid { .. } | Phase::Serving { .. } => {
                &&& came(events, |event: StartupEvent| event is SignalsBlocked)
                &&& came(events, |event: StartupEvent| event is RuntimeStarted)
            },
            Phase::RemovingPid { .. } | Phase::CleaningUp { .. } | Phase::Ended { .. } => true,
            _ => !came(events, |event: StartupEvent| event is RuntimeStarted),
        },
    decreases events.len(),
{
    if events.len() > 0 {
        law_signals_blocked_before_runtime(cli, events.drop_last());
        lemma_came_earlier(events, |event: StartupEvent| event is SignalsBlocked);
        lemma_came_earlier(events, |event: StartupEvent| event is RuntimeStarted);
    }
}

/// Where a log file is asked for, it is opened before logging is set up, in the
/// foreground and as a daemon.
pub proof fn law_log_file_is_opened_first(cli: Cli, events: Seq<StartupEvent>)
    requires
        possible(StartupModel::begun(cli), events),
        cli.log_file is Some,
    ensures
        match startup_after(StartupModel::begun(cli), events).phase {
            Phase::Daemonizing | Phase::StartingLogger { .. } => came(
                events,
                |event: StartupEvent| event is LogOpened,
            ),
            _ => true,
        },
    decreases events.len(),
{
    if events.len() > 0 {
        law_startup_stays_sound(cli, events.drop_last());
        law_log_file_is_opened_first(cli, events.drop_last());
        lemma_came_earlier(events, |event: StartupEvent| event is LogOpened);
    }
}

/// Whether the process created its PID file in the foreground, or its server has
/// come to its end or failed.
pub open spec fn has_served(events: Seq<StartupEvent>) -> bool {
    came(events, |event: StartupEvent| event is PidCreated || event is Served)
}

/// Whether the server came to its end in good order.
pub open spec fn served_well(event: StartupEvent) -> bool {
    match event {
        StartupEvent::Served(result) => result is Ok,
        _ => false,
    }
}

/// Where a PID file is asked for, it is there while connections are served: the
/// process became a daemon with it or, in the foreground, created it, and has not
/// removed it.
pub proof fn law_pid_file_while_serving(cli: Cli, events: Seq<StartupEvent>)
    requires
        possible(StartupModel::begun(cli), events),
        cli.pid_file is Some,
        startup_after(StartupModel::begun(cli), events).phase is Serving,
    ensures
        came(events, |event: StartupEvent| event is ChildReady) == cli.daemon,
        came(events, |event: StartupEvent| event is PidCreated) == !cli.daemon,
        !came(events, |event: StartupEvent| event is PidRemoved),
{
    lemma_pid_file_events(cli, events);
}

/// Where the PID file stands, in each phase.
proof fn lemma_pid_file_events(cli: Cli, events: Seq<StartupEvent>)
    requires
        possible(StartupModel::begun(cli), events),
        cli.pid_file is Some,
    ensures
        ({
            let phase = startup_after(StartupModel::begun(cli), events).phase;
            let split = came(events, |event: StartupEvent| event is ChildReady);
            let created = came(events, |event: StartupEvent| event is PidCreated);
            let served = came(events, |event: StartupEvent| event is Served);
            let removed = came(events, |event: StartupEvent| event is PidRemoved);
            match phase {
                Phase::StartingLogger { parent: false, .. } | Phase::BlockingSignals { .. }
                | Phase::StartingRuntime { .. } | Phase::WritingPid { .. } => split == cli.daemon
                    && !created && !served && !removed,
                Phase::Serving { .. } => split == cli.daemon && created == !cli.daemon && !served
                    && !removed,
                Phase::RemovingPid { .. } => true,
                Phase::Ended { .. } => created || served ==> events.last() is PidRemoved
                    || served_well(events.last()),
                _ => !split && !created && !served && !removed,
            }
        }),
    decreases events.len(),
{
    if events.len() > 0 {
        law_startup_stays_sound(cli, events.drop_last());
        lemma_pid_file_events(cli, events.drop_last());
        lemma_came_earlier(events, |event: StartupEvent| event is ChildReady);
        lemma_came_earlier(events, |event: StartupEvent| event is PidCreated);
        lemma_came_earlier(events, |event: StartupEvent| event is Served);
        lemma_came_earlier(events, |event: StartupEvent| event is PidRemoved);
    }
}

/// However serving ends, the process does not end without removing the PID file:
/// right before its end it was told to, or the server came to its end in good order,
/// which removes it too. In the foreground this holds from when the file was created.
pub proof fn law_pid_file_is_removed(cli: Cli, events: Seq<StartupEvent>)
    requires
        possible(StartupModel::begun(cli), events),
        cli.pid_file is Some,
        has_served(events),
        startup_after(StartupModel::begun(cli), events).phase is Ended,
    ensures
        events.last() is PidRemoved || served_well(events.last()),
        events.last() is PidRemoved ==> startup_after(
            StartupModel::begun(cli),
            events.drop_last(),
        ).phase is RemovingPid,
{
    lemma_pid_file_events(cli, events);
    let kind = |event: StartupEvent| event is PidCreated || event is Served;
    let i = choose|i: int| 0 <= i < events.len() && kind(#[trigger] events[i]);
    let created = |event: StartupEvent| event is PidCreated;
    let served = |event: StartupEvent| event is Served;
    assert(created(events[i]) || served(events[i]));
}

/// Whatever happens to it, the server that the process runs keeps what the command
/// line asks for: the PID file that it removes on shutdown, and its idle timeout. It
/// keeps knowing whether systemd owns its socket.
pub proof fn law_served_as_asked_for(
    cli: Cli,
    activated: bool,
    config: SwitcherConfig,
    trace: Seq<TimedEvent>,
)
    requires
        configured(cli, activated, config),
    ensures
        ({
            let fresh = ServerModel::fresh(
                optional_path(config.pid_file),
                config.systemd_activated,
                optional_span(config.idle_timeout),
            );
            let server = server_after(fresh, trace);
            &&& server.pid_file == optional_path(cli.pid_file)
            &&& server.systemd_activated == activated
            &&& idle_option(cli) == Ok::<Option<nat>, CliError>(server.idle_timeout)
        }),
{
    let fresh = ServerModel::fresh(
        optional_path(config.pid_file),
        config.systemd_activated,
        optional_span(config.idle_timeout),
    );
    law_settings_kept(fresh, trace);
}

/// No more events than this come from this phase to the end.
pub open spec fn events_left(phase: Phase) -> nat {
    match phase {
        Phase::ShowingVersion => 1,
        Phase::TakingListener => 11,
        Phase::RemovingStale => 10,
        Phase::Binding => 9,
        Phase::OpeningLog { .. } => 8,
        Phase::Daemonizing => 7,
        Phase::StartingLogger { .. } => 6,
        Phase::AwaitingPid => 1,
        Phase::BlockingSignals { .. } => 5,
        Phase::StartingRuntime { .. } => 4,
        Phase::WritingPid { .. } => 3,
        Phase::Serving { .. } => 2,
        Phase::RemovingPid { .. } => 1,
        Phase::CleaningUp { .. } => 1,
        Phase::Ended { .. } => 0,
    }
}

/// Every event brings the process closer to its end.
pub proof fn law_startup_makes_progress(startup: StartupModel, event: StartupEvent)
    requires
        startup.expects(event),
    ensures
        events_left(startup.after(event).phase) < events_left(startup.phase),
{
}

/// Whether this action ends the process and reports this text.
pub open spec fn reports(action: StartupAction, text: Seq<char>) -> bool {
    match action {
        StartupAction::Exit(Err(e)) => e@ == text,
        _ => false,
    }
}

/// Whether this action ends the process without an error.
pub open spec fn ends_well(action: StartupAction) -> bool {
    match action {
        StartupAction::Exit(Ok(_)) => true,
        _ => false,
    }
}

/// Whether `path` is the one that an option gives.
pub open spec fn given_as(path: Vec<u8>, option: Option<Vec<u8>>) -> bool {
    option is Some && path@ == option->0@
}

/// Whether text is given that is no positive number.
pub open spec fn no_positive_number(option: Option<String>) -> bool {
    option is Some && (decimal_u64(option->0@) is None || decimal_u64(option->0@) == Some(0u64))
}

/// What is done first: the version is printed where that is asked for. Otherwise what
/// is wrong with the options is reported, the missing target pattern first, then the
/// idle timeout, the connect timeout and the sort order; and where nothing is, a
/// listening socket is looked for.
pub proof fn law_first_action(cli: Cli, action: StartupAction)
    requires
        StartupModel::begun(cli).calls_for(action),
    ensures
        if cli.show_version {
            action is PrintVersion
        } else if cli.target_globs@.len() == 0 {
            reports(action, "At least one --target-glob must be specified"@)
        } else if no_positive_number(cli.idle_timeout) {
            reports(action, "--idle-timeout must be a positive integer (seconds)"@)
        } else if no_positive_number(cli.connect_timeout) {
            reports(action, "--connect-timeout must be a positive integer (milliseconds)"@)
        } else if cli.target_glob_sort is Some && cli.target_glob_sort->0@ != "name"@
            && cli.target_glob_sort->0@ != "timestamp-oldest"@ && cli.target_glob_sort->0@
            != "timestamp-newest"@ {
            reports(
                action,
                "Invalid --target-glob-sort value '"@ + cli.target_glob_sort->0@
                    + "'; expected name, timestamp-oldest, or timestamp-newest"@,
            )
        } else {
            action is TakeListener
        },
{
}

/// What can come of an action is what the action can bring about, whatever the
/// command line is.
pub proof fn law_what_comes_of_a_startup_action(
    startup: StartupModel,
    action: StartupAction,
    event: StartupEvent,
)
    requires
        startup.calls_for(action),
    ensures
        startup.expects(event) <==> match action {
            StartupAction::PrintVersion => event is VersionShown,
            StartupAction::TakeListener => event is ListenerFailed || event is ListenerInherited
                || event is ListenerAbsent,
            StartupAction::RemoveStale(_) => event is StaleRemoved || event is StaleAbsent
                || event is StaleFailed,
            StartupAction::Bind(_) => event is Bound || event is BindFailed,
            StartupAction::OpenLog(_) => event is LogOpened || event is LogFailed,
            StartupAction::Daemonize { .. } => event is ParentReady || event is ParentFailed
                || event is ChildReady || event is ChildFailed,
            StartupAction::StartLogger { .. } => event is LoggerStarted,
            StartupAction::AwaitPid { .. } => event is PidWritten || event is PidMissing,
            StartupAction::BlockSignals => event is SignalsBlocked,
            StartupAction::StartRuntime => event is RuntimeStarted || event is RuntimeFailed,
            StartupAction::WritePid(_) => event is PidCreated || event is PidFailed,
            StartupAction::Serve(_) => event is Served,
            StartupAction::RemovePid(_) => event is PidRemoved,
            StartupAction::RemoveSocket(_) => event is SocketRemoved,
            StartupAction::Exit(_) => false,
        },
{
}

/// What follows the search for a listening socket. One that systemd provides goes with
/// neither a socket path nor a daemon, and nothing is done to it. Without one, the
/// socket path that was given is cleared and bound, and there must be one.
pub proof fn law_after_the_search_for_a_listener(
    startup: StartupModel,
    event: StartupEvent,
    action: StartupAction,
)
    requires
        startup.expects(event),
        startup.after(event).calls_for(action),
    ensures
        match event {
            StartupEvent::VersionShown => ends_well(action),
            StartupEvent::ListenerFailed(cause) => reports(action, cause@),
            StartupEvent::ListenerInherited => if startup.cli.socket_path is Some {
                reports(action, "Cannot use --socket-path with systemd socket activation"@)
            } else if startup.cli.daemon {
                reports(action, "Cannot use --daemon with systemd socket activation"@)
            } else {
                action is OpenLog || action is StartLogger
            },
            StartupEvent::ListenerAbsent => if startup.cli.socket_path is Some {
                action is RemoveStale && given_as(
                    action->RemoveStale_0,
                    startup.cli.socket_path,
                )
            } else {
                reports(action, "--socket-path must be specified"@)
            },
            StartupEvent::StaleRemoved | StartupEvent::StaleAbsent =>
                startup.cli.socket_path is Some ==> action is Bind && given_as(
                action->Bind_0,
                startup.cli.socket_path,
            ),
            StartupEvent::StaleFailed { path, cause } => reports(
                action,
                "Failed to remove stale socket "@ + path@ + ": "@ + cause@,
            ),
            StartupEvent::BindFailed { path, cause } => reports(
                action,
                "Cannot listen on "@ + path@ + ": "@ + cause@,
            ),
            _ => true,
        },
{
}

/// Once there is a listening socket, the log file that was given is opened, if one
/// was. Then the process becomes a daemon if that was asked for, with the PID file
/// that was given and the log file as its standard error; and otherwise logs to the
/// log file if there is one.
pub proof fn law_once_there_is_a_listener(
    startup: StartupModel,
    event: StartupEvent,
    action: StartupAction,
)
    requires
        startup.expects(event),
        event is Bound || event is LogOpened || event is ListenerInherited,
        event is ListenerInherited ==> startup.cli.socket_path is None && !startup.cli.daemon,
        startup.after(event).calls_for(action),
    ensures
        if startup.cli.log_file is Some && !(event is LogOpened) {
            action is OpenLog && given_as(action->OpenLog_0, startup.cli.log_file)
        } else if startup.cli.daemon {
            &&& action is Daemonize
            &&& action->stderr_to_log <==> startup.cli.log_file is Some
            &&& match (action->pid_file, startup.cli.pid_file) {
                (Some(told), Some(given)) => told@ == given@,
                (None, None) => true,
                _ => false,
            }
        } else {
            &&& action is StartLogger
            &&& action->to_file <==> startup.cli.log_file is Some
        },
{
}

/// The PID file that the parent of a daemon waits for is the one that becoming a
/// daemon was told to write, which is the one that was given, whatever the other
/// options are. Without one there is none to write, and the parent waits for nothing.
pub proof fn law_parent_awaits_the_file_of_the_daemon(
    startup: StartupModel,
    split: StartupAction,
    wait: StartupAction,
)
    requires
        startup.calls_for(split),
        split is Daemonize,
        startup.after(StartupEvent::ParentReady).after(StartupEvent::LoggerStarted).calls_for(wait),
    ensures
        match (startup.cli.pid_file, split->pid_file) {
            (Some(given), Some(told)) => {
                &&& told@ == given@
                &&& wait is AwaitPid
                &&& wait->path@ == told@
                &&& wait->limit@ == 10_000_000_000
            },
            (None, None) => ends_well(wait),
            _ => false,
        },
        split->stderr_to_log <==> startup.cli.log_file is Some,
{
}

/// What comes of waiting for the daemon, and of failing to become one. A daemon that
/// finds another one running removes its socket and ends without an error; any other
/// failure is reported, with all of its cause.
pub proof fn law_ends_of_becoming_a_daemon(
    startup: StartupModel,
    cause: String,
    action: StartupAction,
)
    ensures
        startup.phase is AwaitingPid && startup.after(StartupEvent::PidWritten).calls_for(action)
            ==> ends_well(action),
        startup.phase is AwaitingPid && startup.after(StartupEvent::PidMissing(cause)).calls_for(
            action,
        ) ==> reports(action, "Daemon failed to start on time: "@ + cause@),
        startup.phase is Daemonizing && startup.after(StartupEvent::ParentFailed(cause)).calls_for(
            action,
        ) ==> reports(action, "Failed to become daemon: "@ + cause@),
        startup.phase is Daemonizing && startup.cli.socket_path is Some && startup.after(
            StartupEvent::ChildFailed(cause),
        ).calls_for(action) ==> action is RemoveSocket && given_as(
            action->RemoveSocket_0,
            startup.cli.socket_path,
        ),
        startup.phase is Daemonizing && startup.after(StartupEvent::ChildFailed(cause)).after(
            StartupEvent::SocketRemoved,
        ).calls_for(action) ==> if contains_text(cause@, "unable to lock pid file"@) {
            ends_well(action)
        } else {
            reports(action, "Failed to become daemon: "@ + cause@)
        },
{
}

/// The process that will serve, a daemon or one in the foreground, sets up logging,
/// then blocks the shutdown signals, and then starts the runtime. A daemon logs to its
/// standard error, and so does its parent.
pub proof fn law_on_the_way_to_serving(
    startup: StartupModel,
    event: StartupEvent,
    cause: String,
    action: StartupAction,
)
    ensures
        startup.phase is Daemonizing && startup.cli.daemon && (startup.after(
            StartupEvent::ChildReady,
        ).calls_for(action) || startup.after(StartupEvent::ParentReady).calls_for(action))
            ==> action is StartLogger && !action->to_file,
        startup.phase is Daemonizing && startup.after(StartupEvent::ChildReady).after(
            StartupEvent::LoggerStarted,
        ).calls_for(action) ==> action is BlockSignals,
        startup.expects(event) && (event is Bound || event is LogOpened || event
            is ListenerInherited) && startup.after(event).phase is StartingLogger && startup.after(
            event,
        ).after(StartupEvent::LoggerStarted).calls_for(action) ==> action is BlockSignals,
        startup.phase is BlockingSignals && startup.after(StartupEvent::SignalsBlocked).calls_for(
            action,
        ) ==> action is StartRuntime,
        startup.phase is StartingRuntime && startup.after(
            StartupEvent::RuntimeFailed(cause),
        ).calls_for(action) ==> reports(action, "Failed to start runtime: "@ + cause@),
{
}

/// Once the runtime is started, connections are served. In the foreground, the PID
/// file that was given is created first, if one was.
pub proof fn law_once_the_runtime_is_started(startup: StartupModel, action: StartupAction)
    ensures
        startup.phase is StartingRuntime && startup.after(StartupEvent::RuntimeStarted).calls_for(
            action,
        ) ==> if startup.cli.pid_file is Some && !startup.cli.daemon {
            action is WritePid && given_as(action->WritePid_0, startup.cli.pid_file)
        } else {
            action is Serve
        },
        startup.phase is WritingPid && startup.after(StartupEvent::PidCreated).calls_for(action)
            ==> action is Serve,
{
}

/// What follows serving. A server that came to its end in good order leaves nothing to
/// do. Where it failed, the PID file that was given is removed, if one was, and then
/// the error is reported, with all of its text.
pub proof fn law_after_serving(
    startup: StartupModel,
    error: String,
    next: StartupAction,
    last: StartupAction,
)
    requires
        startup.phase is Serving,
    ensures
        startup.after(StartupEvent::Served(Ok(()))).calls_for(next) ==> ends_well(next),
        startup.after(StartupEvent::Served(Err(error))).calls_for(next) ==> if startup.cli.pid_file
            is Some {
            next is RemovePid && given_as(next->RemovePid_0, startup.cli.pid_file)
        } else {
            reports(next, error@)
        },
        startup.cli.pid_file is Some && startup.after(StartupEvent::Served(Err(error))).after(
            StartupEvent::PidRemoved,
        ).calls_for(last) ==> reports(last, error@),
{
}

/// A PID file that cannot be created in the foreground is reported, with its path and
/// the cause. The socket that the process created is removed first; one that systemd
/// owns is not.
pub proof fn law_pid_file_that_cannot_be_created(
    startup: StartupModel,
    activated: bool,
    path: String,
    cause: String,
    next: StartupAction,
    last: StartupAction,
)
    requires
        startup.phase == (Phase::WritingPid { activated }),
        startup.cli.socket_path is Some || activated,
        startup.after(StartupEvent::PidFailed { path, cause }).calls_for(next),
    ensures
        activated ==> reports(next, "Failed to create PID file "@ + path@ + ": "@ + cause@),
        !activated ==> next is RemoveSocket && given_as(
            next->RemoveSocket_0,
            startup.cli.socket_path,
        ),
        !activated && startup.after(StartupEvent::PidFailed { path, cause }).after(
            StartupEvent::SocketRemoved,
        ).calls_for(last) ==> reports(
            last,
            "Failed to create PID file "@ + path@ + ": "@ + cause@,
        ),
{
}

/// A log file that cannot be opened is reported, with its path and the cause.
pub proof fn law_log_file_that_cannot_be_opened(
    startup: StartupModel,
    path: String,
    cause: String,
    action: StartupAction,
)
    requires
        startup.phase is OpeningLog,
        startup.after(StartupEvent::LogFailed { path, cause }).calls_for(action),
    ensures
        reports(action, "Failed to open/create log file "@ + path@ + ": "@ + cause@),
{
}

/// Whether the process has a listening socket that systemd provides, in this phase.
pub open spec fn has_systemd_socket(phase: Phase) -> bool {
    match phase {
        Phase::OpeningLog { activated } => activated,
        Phase::StartingLogger { activated, .. } => activated,
        Phase::BlockingSignals { activated } => activated,
        Phase::StartingRuntime { activated } => activated,
        Phase::WritingPid { activated } => activated,
        Phase::Serving { activated } => activated,
        Phase::RemovingPid { activated, .. } => activated,
        _ => false,
    }
}

proof fn lemma_systemd_provided_it(cli: Cli, events: Seq<StartupEvent>)
    requires
        possible(StartupModel::begun(cli), events),
        has_systemd_socket(startup_after(StartupModel::begun(cli), events).phase),
    ensures
        events.len() > 0,
        events[0] is ListenerInherited,
    decreases events.len(),
{
    let begun = StartupModel::begun(cli);
    let earlier = events.drop_last();
    if has_systemd_socket(startup_after(begun, earlier).phase) {
        lemma_systemd_provided_it(cli, earlier);
    } else {
        lemma_looking_for_socket(cli, earlier);
    }
}

/// Whenever connections are served, whatever came before, it is for what was given on
/// the command line: each target pattern and each fallback pattern with its text and
/// in its place, the PID file, the timeouts in their units, and the sort order. The
/// server knows that systemd owns the socket exactly where systemd provided it.
pub proof fn law_served_is_what_was_given(
    cli: Cli,
    events: Seq<StartupEvent>,
    config: SwitcherConfig,
)
    requires
        possible(StartupModel::begun(cli), events),
        startup_after(StartupModel::begun(cli), events).calls_for(StartupAction::Serve(config)),
    ensures
        config.target_globs@.len() == cli.target_globs@.len(),
        cli.target_globs@.len() > 0,
        forall|i: int|
            0 <= i < cli.target_globs@.len() ==> (#[trigger] config.target_globs@[i])@
                == cli.target_globs@[i]@,
        config.fallback_globs@.len() == cli.fallback_globs@.len(),
        forall|i: int|
            0 <= i < cli.fallback_globs@.len() ==> (#[trigger] config.fallback_globs@[i])@
                == cli.fallback_globs@[i]@,
        match (config.pid_file, cli.pid_file) {
            (Some(told), Some(given)) => told@ == given@,
            (None, None) => true,
            _ => false,
        },
        match (config.idle_timeout, cli.idle_timeout) {
            (Some(span), Some(text)) => decimal_u64(text@) is Some && span@ == decimal_u64(
                text@,
            )->0 * 1_000_000_000 && span@ > 0,
            (None, None) => true,
            _ => false,
        },
        match (config.connect_timeout, cli.connect_timeout) {
            (Some(span), Some(text)) => decimal_u64(text@) is Some && span@ == decimal_u64(
                text@,
            )->0 * 1_000_000 && span@ > 0,
            (None, None) => true,
            _ => false,
        },
        match config.glob_sort {
            GlobSort::Name => cli.target_glob_sort is None || cli.target_glob_sort->0@ == "name"@,
            GlobSort::TimestampOldest => cli.target_glob_sort is Some && cli.target_glob_sort->0@
                == "timestamp-oldest"@,
            GlobSort::TimestampNewest => cli.target_glob_sort is Some && cli.target_glob_sort->0@
                == "timestamp-newest"@,
        },
        events.len() > 0,
        config.systemd_activated <==> events[0] is ListenerInherited,
{
    law_startup_stays_sound(cli, events);
    let startup = startup_after(StartupModel::begun(cli), events);
    if has_systemd_socket(startup.phase) {
        lemma_systemd_provided_it(cli, events);
    } else {
        law_own_socket_is_created_first(cli, events);
    }
}

/// What was given on the command line is given still, whatever happens.
pub proof fn law_command_line_is_kept(startup: StartupModel, event: StartupEvent)
    ensures
        startup.after(event).cli == startup.cli,
{
}

} // verus!

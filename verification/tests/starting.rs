use unix_socket_switcher::cli::{
    get_connect_timeout, get_glob_sort, get_idle_timeout, get_socket_path, get_target_globs,
    version_text, Cli, CliError,
};
use unix_socket_switcher::span::Span;
use unix_socket_switcher::startup::{
    Startup, StartupAction, StartupEvent, SwitcherConfig, SOCKET_UMASK,
};
use unix_socket_switcher::GlobSort;

fn cli() -> Cli {
    Cli {
        target_globs: vec!["/tmp/ssh-*/agent.*".to_string()],
        fallback_globs: Vec::new(),
        daemon: false,
        log_file: None,
        pid_file: None,
        socket_path: Some(b"/run/s.sock".to_vec()),
        idle_timeout: None,
        connect_timeout: None,
        target_glob_sort: None,
        show_version: false,
    }
}

fn feed(mut startup: Startup, events: Vec<StartupEvent>) -> Startup {
    for event in events {
        assert!(startup.expects(&event), "{:?} after {:?}", event, startup.action());
        startup = startup.step(event);
    }
    startup
}

fn exit(startup: &Startup) -> Result<(), String> {
    match startup.action() {
        StartupAction::Exit(result) => result,
        other => panic!("{:?}", other),
    }
}

fn failure(text: &str) -> Result<(), String> {
    Err(text.to_string())
}

fn config(startup: &Startup) -> SwitcherConfig {
    match startup.action() {
        StartupAction::Serve(config) => config,
        other => panic!("{:?}", other),
    }
}

#[test]
fn there_must_be_a_target_pattern() {
    let mut cli = cli();
    assert_eq!(get_target_globs(&cli).unwrap(), ["/tmp/ssh-*/agent.*".to_string()]);
    cli.target_globs.clear();
    let error = get_target_globs(&cli).unwrap_err();
    assert_eq!(error, CliError::NoTargetGlob);
    assert_eq!(error.message(), "At least one --target-glob must be specified");
}

#[test]
fn the_socket_path_is_required() {
    let mut cli = cli();
    assert_eq!(get_socket_path(&cli).unwrap(), b"/run/s.sock");
    cli.socket_path = None;
    let error = get_socket_path(&cli).unwrap_err();
    assert_eq!(error.message(), "--socket-path must be specified");
}

#[test]
fn the_idle_timeout_is_a_positive_number_of_seconds() {
    let mut cli = cli();
    assert_eq!(get_idle_timeout(&cli), Ok(None));
    for (text, secs) in [("1", 1), ("+90", 90), ("18446744073709551615", u64::MAX)] {
        cli.idle_timeout = Some(text.to_string());
        assert_eq!(get_idle_timeout(&cli), Ok(Some(Span::from_secs(secs))));
    }
    for text in ["", "0", "00", "-1", "1.5", "ten", " 1", "18446744073709551616"] {
        cli.idle_timeout = Some(text.to_string());
        assert_eq!(get_idle_timeout(&cli), Err(CliError::BadIdleTimeout), "{:?}", text);
    }
    assert_eq!(
        CliError::BadIdleTimeout.message(),
        "--idle-timeout must be a positive integer (seconds)"
    );
}

#[test]
fn the_connect_timeout_is_a_positive_number_of_milliseconds() {
    let mut cli = cli();
    assert_eq!(get_connect_timeout(&cli), Ok(None));
    cli.connect_timeout = Some("2500".to_string());
    assert_eq!(get_connect_timeout(&cli), Ok(Some(Span::new(2, 500_000_000))));
    for text in ["", "0", "-5", "1s"] {
        cli.connect_timeout = Some(text.to_string());
        assert_eq!(get_connect_timeout(&cli), Err(CliError::BadConnectTimeout), "{:?}", text);
    }
    assert_eq!(
        CliError::BadConnectTimeout.message(),
        "--connect-timeout must be a positive integer (milliseconds)"
    );
}

#[test]
fn the_sort_order_is_one_of_three() {
    let mut cli = cli();
    assert_eq!(get_glob_sort(&cli), Ok(GlobSort::Name));
    for (text, sort) in [
        ("name", GlobSort::Name),
        ("timestamp-oldest", GlobSort::TimestampOldest),
        ("timestamp-newest", GlobSort::TimestampNewest),
    ] {
        cli.target_glob_sort = Some(text.to_string());
        assert_eq!(get_glob_sort(&cli), Ok(sort));
    }
    cli.target_glob_sort = Some("Name".to_string());
    assert_eq!(
        get_glob_sort(&cli).unwrap_err().message(),
        "Invalid --target-glob-sort value 'Name'; expected name, timestamp-oldest, or timestamp-newest"
    );
}

#[test]
fn the_version_is_printed_and_nothing_else_is_done() {
    let mut cli = cli();
    cli.target_globs.clear();
    cli.show_version = true;
    let startup = Startup::begin(cli);
    assert!(matches!(startup.action(), StartupAction::PrintVersion));
    assert_eq!(exit(&feed(startup, vec![StartupEvent::VersionShown])), Ok(()));
    assert_eq!(
        version_text("1.2.3", "BSD-3-Clause"),
        "unix-socket-switcher 1.2.3\nCopyright 2023-2026 Julio Merino\nLicense BSD-3-Clause\n"
    );
}

#[test]
fn the_first_wrong_option_is_reported() {
    let mut cli1 = cli();
    cli1.target_globs.clear();
    cli1.idle_timeout = Some("x".to_string());
    assert_eq!(
        exit(&Startup::begin(cli1)),
        failure("At least one --target-glob must be specified")
    );
    let mut cli2 = cli();
    cli2.idle_timeout = Some("x".to_string());
    cli2.connect_timeout = Some("x".to_string());
    assert_eq!(
        exit(&Startup::begin(cli2)),
        failure("--idle-timeout must be a positive integer (seconds)")
    );
    let mut cli3 = cli();
    cli3.connect_timeout = Some("x".to_string());
    cli3.target_glob_sort = Some("x".to_string());
    assert_eq!(
        exit(&Startup::begin(cli3)),
        failure("--connect-timeout must be a positive integer (milliseconds)")
    );
    let mut cli4 = cli();
    cli4.target_glob_sort = Some("x".to_string());
    assert_eq!(
        exit(&Startup::begin(cli4)),
        failure("Invalid --target-glob-sort value 'x'; expected name, timestamp-oldest, or timestamp-newest")
    );
}

#[test]
fn in_the_foreground_the_socket_is_created_and_served() {
    let mut cli = cli();
    cli.fallback_globs = vec!["/run/f".to_string()];
    cli.pid_file = Some(b"/run/p".to_vec());
    cli.idle_timeout = Some("30".to_string());
    cli.connect_timeout = Some("100".to_string());
    cli.target_glob_sort = Some("timestamp-newest".to_string());
    let startup = Startup::begin(cli);
    assert!(matches!(startup.action(), StartupAction::TakeListener));
    let startup = feed(startup, vec![StartupEvent::ListenerAbsent]);
    assert!(matches!(startup.action(), StartupAction::RemoveStale(p) if p == b"/run/s.sock"));
    let startup = feed(startup, vec![StartupEvent::StaleAbsent]);
    assert!(matches!(startup.action(), StartupAction::Bind(p) if p == b"/run/s.sock"));
    let startup = feed(startup, vec![StartupEvent::Bound]);
    assert!(matches!(startup.action(), StartupAction::StartLogger { to_file: false }));
    let startup = feed(startup, vec![StartupEvent::LoggerStarted]);
    assert!(matches!(startup.action(), StartupAction::BlockSignals));
    let startup = feed(startup, vec![StartupEvent::SignalsBlocked]);
    assert!(matches!(startup.action(), StartupAction::StartRuntime));
    let startup = feed(startup, vec![StartupEvent::RuntimeStarted]);
    assert!(matches!(startup.action(), StartupAction::WritePid(p) if p == b"/run/p"));
    let startup = feed(startup, vec![StartupEvent::PidCreated]);
    let config = config(&startup);
    assert_eq!(config.target_globs, vec!["/tmp/ssh-*/agent.*".to_string()]);
    assert_eq!(config.fallback_globs, vec!["/run/f".to_string()]);
    assert_eq!(config.pid_file, Some(b"/run/p".to_vec()));
    assert!(!config.systemd_activated);
    assert_eq!(config.idle_timeout, Some(Span::from_secs(30)));
    assert_eq!(config.connect_timeout, Some(Span::from_millis(100)));
    assert_eq!(config.glob_sort, GlobSort::TimestampNewest);
    assert_eq!(exit(&feed(startup, vec![StartupEvent::Served(Ok(()))])), Ok(()));
}

#[test]
fn a_socket_of_systemd_is_served_as_it_is() {
    let mut cli = cli();
    cli.socket_path = None;
    let startup = feed(
        Startup::begin(cli),
        vec![
            StartupEvent::ListenerInherited,
            StartupEvent::LoggerStarted,
            StartupEvent::SignalsBlocked,
            StartupEvent::RuntimeStarted,
        ],
    );
    assert!(config(&startup).systemd_activated);
    let ended = feed(startup, vec![StartupEvent::Served(failure("no path"))]);
    assert_eq!(exit(&ended), failure("no path"));
}

#[test]
fn activation_goes_with_neither_a_socket_path_nor_a_daemon() {
    let startup = feed(Startup::begin(cli()), vec![StartupEvent::ListenerInherited]);
    assert_eq!(
        exit(&startup),
        failure("Cannot use --socket-path with systemd socket activation")
    );
    let mut daemon = cli();
    daemon.socket_path = None;
    daemon.daemon = true;
    let startup = feed(Startup::begin(daemon), vec![StartupEvent::ListenerInherited]);
    assert_eq!(exit(&startup), failure("Cannot use --daemon with systemd socket activation"));
}

#[test]
fn without_activation_there_must_be_a_socket_path() {
    let mut cli = cli();
    cli.socket_path = None;
    let startup = feed(Startup::begin(cli), vec![StartupEvent::ListenerAbsent]);
    assert_eq!(exit(&startup), failure("--socket-path must be specified"));
}

#[test]
fn failures_before_serving_are_reported() {
    let path = "/run/s.sock".to_string();
    let cause = "why".to_string();
    let startup =
        feed(Startup::begin(cli()), vec![StartupEvent::ListenerFailed("bad fd".to_string())]);
    assert_eq!(exit(&startup), failure("bad fd"));
    let startup = feed(
        Startup::begin(cli()),
        vec![
            StartupEvent::ListenerAbsent,
            StartupEvent::StaleFailed { path: path.clone(), cause: cause.clone() },
        ],
    );
    assert_eq!(exit(&startup), failure("Failed to remove stale socket /run/s.sock: why"));
    let startup = feed(
        Startup::begin(cli()),
        vec![
            StartupEvent::ListenerAbsent,
            StartupEvent::StaleRemoved,
            StartupEvent::BindFailed { path, cause: cause.clone() },
        ],
    );
    assert_eq!(exit(&startup), failure("Cannot listen on /run/s.sock: why"));
    let startup = feed(
        Startup::begin(cli()),
        vec![
            StartupEvent::ListenerAbsent,
            StartupEvent::StaleRemoved,
            StartupEvent::Bound,
            StartupEvent::LoggerStarted,
            StartupEvent::SignalsBlocked,
            StartupEvent::RuntimeFailed(cause),
        ],
    );
    assert_eq!(exit(&startup), failure("Failed to start runtime: why"));
}

fn in_the_foreground(activated: bool) -> Startup {
    let mut cli = cli();
    cli.pid_file = Some(b"/run/p".to_vec());
    let events = if activated {
        cli.socket_path = None;
        vec![StartupEvent::ListenerInherited]
    } else {
        vec![StartupEvent::ListenerAbsent, StartupEvent::StaleAbsent, StartupEvent::Bound]
    };
    let startup = feed(Startup::begin(cli), events);
    feed(
        startup,
        vec![
            StartupEvent::LoggerStarted,
            StartupEvent::SignalsBlocked,
            StartupEvent::RuntimeStarted,
        ],
    )
}

#[test]
fn a_pid_file_that_cannot_be_created_is_reported() {
    let failed = || StartupEvent::PidFailed { path: "/run/p".to_string(), cause: "why".to_string() };
    let startup = feed(in_the_foreground(false), vec![failed()]);
    assert!(matches!(startup.action(), StartupAction::RemoveSocket(p) if p == b"/run/s.sock"));
    assert_eq!(
        exit(&feed(startup, vec![StartupEvent::SocketRemoved])),
        failure("Failed to create PID file /run/p: why")
    );
    // The socket belongs to systemd.
    let startup = feed(in_the_foreground(true), vec![failed()]);
    assert_eq!(exit(&startup), failure("Failed to create PID file /run/p: why"));
}

#[test]
fn the_pid_file_is_removed_where_serving_fails() {
    let serving = vec![
        feed(in_the_foreground(false), vec![StartupEvent::PidCreated]),
        feed(in_the_foreground(true), vec![StartupEvent::PidCreated]),
        feed(
            daemonizing(true, false),
            vec![
                StartupEvent::ChildReady,
                StartupEvent::LoggerStarted,
                StartupEvent::SignalsBlocked,
                StartupEvent::RuntimeStarted,
            ],
        ),
    ];
    for startup in serving {
        let startup = feed(startup, vec![StartupEvent::Served(failure("no path"))]);
        assert!(matches!(startup.action(), StartupAction::RemovePid(p) if p == b"/run/p"));
        let ended = feed(startup, vec![StartupEvent::PidRemoved]);
        assert_eq!(exit(&ended), failure("no path"));
    }
}

#[test]
fn a_runtime_that_cannot_start_is_reported_right_away() {
    let startup = feed(
        daemonizing(true, false),
        vec![
            StartupEvent::ChildReady,
            StartupEvent::LoggerStarted,
            StartupEvent::SignalsBlocked,
            StartupEvent::RuntimeFailed("why".to_string()),
        ],
    );
    assert_eq!(exit(&startup), failure("Failed to start runtime: why"));
}

#[test]
fn in_the_foreground_logs_go_to_the_log_file() {
    let mut cli = cli();
    cli.log_file = Some(b"/var/log/l".to_vec());
    cli.socket_path = None;
    let startup = feed(Startup::begin(cli), vec![StartupEvent::ListenerInherited]);
    assert!(matches!(startup.action(), StartupAction::OpenLog(p) if p == b"/var/log/l"));
    let startup = feed(startup, vec![StartupEvent::LogOpened]);
    assert!(matches!(startup.action(), StartupAction::StartLogger { to_file: true }));
    let startup = feed(startup, vec![StartupEvent::LoggerStarted, StartupEvent::SignalsBlocked]);
    assert!(matches!(startup.action(), StartupAction::StartRuntime));
}

fn daemonizing(pid_file: bool, log_file: bool) -> Startup {
    let mut cli = cli();
    cli.daemon = true;
    if pid_file {
        cli.pid_file = Some(b"/run/p".to_vec());
    }
    if log_file {
        cli.log_file = Some(b"/var/log/l".to_vec());
    }
    feed(
        Startup::begin(cli),
        vec![StartupEvent::ListenerAbsent, StartupEvent::StaleRemoved, StartupEvent::Bound],
    )
}

#[test]
fn the_log_file_is_opened_before_the_process_splits() {
    let startup = daemonizing(true, true);
    assert!(matches!(startup.action(), StartupAction::OpenLog(p) if p == b"/var/log/l"));
    let startup = feed(startup, vec![StartupEvent::LogOpened]);
    assert!(matches!(
        startup.action(),
        StartupAction::Daemonize { pid_file: Some(p), stderr_to_log: true } if p == b"/run/p"
    ));
    assert!(matches!(
        daemonizing(false, false).action(),
        StartupAction::Daemonize { pid_file: None, stderr_to_log: false }
    ));
    // The standard error of the daemon is the log file.
    let startup = feed(startup, vec![StartupEvent::ChildReady]);
    assert!(matches!(startup.action(), StartupAction::StartLogger { to_file: false }));
    let startup = feed(
        daemonizing(false, true),
        vec![StartupEvent::LogFailed { path: "/var/log/l".to_string(), cause: "why".to_string() }],
    );
    assert_eq!(exit(&startup), failure("Failed to open/create log file /var/log/l: why"));
}

#[test]
fn the_parent_waits_for_the_pid_file() {
    let startup =
        feed(daemonizing(true, false), vec![StartupEvent::ParentReady, StartupEvent::LoggerStarted]);
    match startup.action() {
        StartupAction::AwaitPid { path, limit } => {
            assert_eq!(path, b"/run/p");
            assert_eq!(limit, Span::from_secs(10));
        }
        other => panic!("{:?}", other),
    }
    assert_eq!(exit(&feed(startup, vec![StartupEvent::PidWritten])), Ok(()));
    let startup = feed(
        daemonizing(true, false),
        vec![
            StartupEvent::ParentReady,
            StartupEvent::LoggerStarted,
            StartupEvent::PidMissing("File was not created on time".to_string()),
        ],
    );
    assert_eq!(
        exit(&startup),
        failure("Daemon failed to start on time: File was not created on time")
    );
    let startup = feed(
        daemonizing(false, false),
        vec![StartupEvent::ParentReady, StartupEvent::LoggerStarted],
    );
    assert_eq!(exit(&startup), Ok(()));
    let startup =
        feed(daemonizing(false, false), vec![StartupEvent::ParentFailed("why".to_string())]);
    assert_eq!(exit(&startup), failure("Failed to become daemon: why"));
}

#[test]
fn the_child_serves() {
    let startup = feed(
        daemonizing(true, false),
        vec![
            StartupEvent::ChildReady,
            StartupEvent::LoggerStarted,
            StartupEvent::SignalsBlocked,
            StartupEvent::RuntimeStarted,
        ],
    );
    assert!(!config(&startup).systemd_activated);
}

#[test]
fn a_child_that_cannot_be_a_daemon_removes_the_socket() {
    let startup = feed(
        daemonizing(true, false),
        vec![StartupEvent::ChildFailed("unable to lock pid file, errno 11".to_string())],
    );
    assert!(matches!(startup.action(), StartupAction::RemoveSocket(p) if p == b"/run/s.sock"));
    assert_eq!(exit(&feed(startup, vec![StartupEvent::SocketRemoved])), Ok(()));
    let startup = feed(
        daemonizing(true, false),
        vec![StartupEvent::ChildFailed("unable to change directory".to_string())],
    );
    assert!(matches!(startup.action(), StartupAction::RemoveSocket(p) if p == b"/run/s.sock"));
    assert_eq!(
        exit(&feed(startup, vec![StartupEvent::SocketRemoved])),
        failure("Failed to become daemon: unable to change directory")
    );
}

#[test]
fn only_what_comes_of_a_startup_action_is_expected() {
    let startup = Startup::begin(cli());
    assert!(!startup.expects(&StartupEvent::Bound));
    assert!(!startup.expects(&StartupEvent::Served(Ok(()))));
    let ended = feed(startup, vec![StartupEvent::ListenerFailed("x".to_string())]);
    assert!(!ended.expects(&StartupEvent::ListenerAbsent));
}

#[test]
fn the_socket_is_accessible_by_its_owner_only() {
    assert_eq!(0o777 & !SOCKET_UMASK, 0o600);
    assert_eq!(0o666 & !SOCKET_UMASK & 0o077, 0);
}

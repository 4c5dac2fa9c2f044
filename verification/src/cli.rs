//! The command line.

use vstd::prelude::*;

use crate::find::GlobSort;
use crate::path::optional_path;
use crate::span::{Span, NANOS_PER_MILLI, NANOS_PER_SEC};
use crate::text::{decimal_u64, parse_u64};

verus! {

/// What was given on the command line.
#[derive(Debug)]
pub struct Cli {
    /// Glob patterns for target Unix sockets to connect to.
    pub target_globs: Vec<String>,
    /// Fallback glob patterns, tried after all target patterns fail.
    pub fallback_globs: Vec<String>,
    /// Run in the background.
    pub daemon: bool,
    /// Path to the file where to write logs.
    pub log_file: Option<Vec<u8>>,
    /// Path to the PID file to create.
    pub pid_file: Option<Vec<u8>>,
    /// Path to the socket to listen on.
    pub socket_path: Option<Vec<u8>>,
    /// Exit after being idle for this many seconds.
    pub idle_timeout: Option<String>,
    /// Timeout in milliseconds for each target socket connection attempt.
    pub connect_timeout: Option<String>,
    /// Sort order for glob results.
    pub target_glob_sort: Option<String>,
    /// Show version information and exit.
    pub show_version: bool,
}

/// What is wrong with the command line.
#[derive(Debug, PartialEq, Eq)]
pub enum CliError {
    /// There is no target pattern.
    NoTargetGlob,
    /// There is no socket path.
    NoSocketPath,
    /// The idle timeout is no positive number.
    BadIdleTimeout,
    /// The connect timeout is no positive number.
    BadConnectTimeout,
    /// There is no such sort order.
    BadGlobSort(String),
    /// A socket path was given though systemd provides the socket.
    SocketPathWithActivation,
    /// The daemon mode was asked for though systemd provides the socket.
    DaemonWithActivation,
}

impl CliError {
    /// How this error reads, as text.
    pub open spec fn text(self) -> Seq<char> {
        match self {
            CliError::NoTargetGlob => "At least one --target-glob must be specified"@,
            CliError::NoSocketPath => "--socket-path must be specified"@,
            CliError::BadIdleTimeout => "--idle-timeout must be a positive integer (seconds)"@,
            CliError::BadConnectTimeout =>
                "--connect-timeout must be a positive integer (milliseconds)"@,
            CliError::BadGlobSort(value) => "Invalid --target-glob-sort value '"@ + value@
                + "'; expected name, timestamp-oldest, or timestamp-newest"@,
            CliError::SocketPathWithActivation =>
                "Cannot use --socket-path with systemd socket activation"@,
            CliError::DaemonWithActivation => "Cannot use --daemon with systemd socket activation"@,
        }
    }

    /// How this error reads.
    pub fn message(&self) -> (message: String)
        ensures
            message@ == self.text(),
            self matches CliError::BadGlobSort(value) ==> message@
                == "Invalid --target-glob-sort value '"@ + value@
                + "'; expected name, timestamp-oldest, or timestamp-newest"@,
    {
        match self {
            CliError::NoTargetGlob => "At least one --target-glob must be specified".to_owned(),
            CliError::NoSocketPath => "--socket-path must be specified".to_owned(),
            CliError::BadIdleTimeout =>
                "--idle-timeout must be a positive integer (seconds)".to_owned(),
            CliError::BadConnectTimeout =>
                "--connect-timeout must be a positive integer (milliseconds)".to_owned(),
            CliError::BadGlobSort(value) => "Invalid --target-glob-sort value '".to_owned().concat(
                value.as_str(),
            ).concat("'; expected name, timestamp-oldest, or timestamp-newest"),
            CliError::SocketPathWithActivation =>
                "Cannot use --socket-path with systemd socket activation".to_owned(),
            CliError::DaemonWithActivation =>
                "Cannot use --daemon with systemd socket activation".to_owned(),
        }
    }
}

/// The number that an option gives, where it is a positive one.
pub open spec fn positive(value: String) -> Option<u64> {
    match decimal_u64(value@) {
        Some(number) if number > 0 => Some(number),
        _ => None,
    }
}

/// The time that an option gives, with `unit` the nanoseconds in its unit: nothing
/// where it is absent, and an error where it is no positive number.
pub open spec fn timeout_option(
    value: Option<String>,
    unit: u32,
    error: CliError,
) -> Result<Option<nat>, CliError> {
    match value {
        None => Ok(None),
        Some(value) => match positive(value) {
            Some(number) => Ok(Some(number as nat * unit as nat)),
            None => Err(error),
        },
    }
}

/// A timeout in nanoseconds, or an error.
pub open spec fn timeout_result(
    result: Result<Option<Span>, CliError>,
) -> Result<Option<nat>, CliError> {
    match result {
        Ok(Some(span)) => Ok(Some(span@)),
        Ok(None) => Ok(None),
        Err(e) => Err(e),
    }
}

/// The sort order that an option names; by name where it is absent.
pub open spec fn sort_option(value: Option<String>) -> Result<GlobSort, CliError> {
    match value {
        None => Ok(GlobSort::Name),
        Some(value) => if value@ == "name"@ {
            Ok(GlobSort::Name)
        } else if value@ == "timestamp-oldest"@ {
            Ok(GlobSort::TimestampOldest)
        } else if value@ == "timestamp-newest"@ {
            Ok(GlobSort::TimestampNewest)
        } else {
            Err(CliError::BadGlobSort(value))
        },
    }
}

/// Gets the target patterns. There must be one at least.
pub fn get_target_globs(cli: &Cli) -> (globs: Result<&[String], CliError>)
    ensures
        match globs {
            Ok(globs) => cli.target_globs@.len() > 0 && globs@ == cli.target_globs@,
            Err(e) => cli.target_globs@.len() == 0 && e == CliError::NoTargetGlob,
        },
{
    if cli.target_globs.is_empty() {
        return Err(CliError::NoTargetGlob);
    }
    Ok(cli.target_globs.as_slice())
}

/// Gets the path of the socket to listen on.
pub fn get_socket_path(cli: &Cli) -> (path: Result<&[u8], CliError>)
    ensures
        match path {
            Ok(path) => optional_path(cli.socket_path) == Some(path@)
                && cli.socket_path is Some && path@ == cli.socket_path->0@,
            Err(e) => cli.socket_path is None && e == CliError::NoSocketPath,
        },
{
    match &cli.socket_path {
        Some(path) => Ok(path.as_slice()),
        None => Err(CliError::NoSocketPath),
    }
}

/// Gets the idle timeout, if one was given: a positive number of seconds.
pub fn get_idle_timeout(cli: &Cli) -> (timeout: Result<Option<Span>, CliError>)
    ensures
        timeout_result(timeout) == timeout_option(
            cli.idle_timeout,
            NANOS_PER_SEC,
            CliError::BadIdleTimeout,
        ),
        match (cli.idle_timeout, timeout) {
            (None, Ok(None)) => true,
            (Some(text), Ok(Some(span))) => decimal_u64(text@) matches Some(secs) && secs > 0
                && span@ == secs * 1_000_000_000,
            (Some(text), Err(CliError::BadIdleTimeout)) => decimal_u64(text@) is None
                || decimal_u64(text@) == Some(0u64),
            _ => false,
        },
{
    match &cli.idle_timeout {
        Some(s) => match parse_u64(s.as_str()) {
            Some(secs) if secs > 0 => Ok(Some(Span::from_secs(secs))),
            _ => Err(CliError::BadIdleTimeout),
        },
        None => Ok(None),
    }
}

/// Gets the bound on each connection attempt, if one was given: a positive number
/// of milliseconds.
pub fn get_connect_timeout(cli: &Cli) -> (timeout: Result<Option<Span>, CliError>)
    ensures
        timeout_result(timeout) == timeout_option(
            cli.connect_timeout,
            NANOS_PER_MILLI,
            CliError::BadConnectTimeout,
        ),
        match (cli.connect_timeout, timeout) {
            (None, Ok(None)) => true,
            (Some(text), Ok(Some(span))) => decimal_u64(text@) matches Some(millis) && millis > 0
                && span@ == millis * 1_000_000,
            (Some(text), Err(CliError::BadConnectTimeout)) => decimal_u64(text@) is None
                || decimal_u64(text@) == Some(0u64),
            _ => false,
        },
{
    match &cli.connect_timeout {
        Some(s) => match parse_u64(s.as_str()) {
            Some(millis) if millis > 0 => Ok(Some(Span::from_millis(millis))),
            _ => Err(CliError::BadConnectTimeout),
        },
        None => Ok(None),
    }
}

/// Gets the sort order of glob results.
pub fn get_glob_sort(cli: &Cli) -> (sort: Result<GlobSort, CliError>)
    ensures
        sort == sort_option(cli.target_glob_sort),
        match sort {
            Ok(GlobSort::Name) => cli.target_glob_sort is None || cli.target_glob_sort->0@
                == "name"@,
            Ok(GlobSort::TimestampOldest) => cli.target_glob_sort is Some
                && cli.target_glob_sort->0@ == "timestamp-oldest"@,
            Ok(GlobSort::TimestampNewest) => cli.target_glob_sort is Some
                && cli.target_glob_sort->0@ == "timestamp-newest"@,
            Err(CliError::BadGlobSort(value)) => cli.target_glob_sort == Some(value) && value@
                != "name"@ && value@ != "timestamp-oldest"@ && value@ != "timestamp-newest"@,
            Err(_) => false,
        },
{
    match &cli.target_glob_sort {
        None => Ok(GlobSort::Name),
        Some(value) => if *value == "name".to_owned() {
            Ok(GlobSort::Name)
        } else if *value == "timestamp-oldest".to_owned() {
            Ok(GlobSort::TimestampOldest)
        } else if *value == "timestamp-newest".to_owned() {
            Ok(GlobSort::TimestampNewest)
        } else {
            Err(CliError::BadGlobSort(value.clone()))
        },
    }
}

/// What the version option prints, as text.
pub open spec fn version_lines(version: Seq<char>, license: Seq<char>) -> Seq<char> {
    "unix-socket-switcher "@ + version + "\nCopyright 2023-2026 Julio Merino\nLicense "@ + license
        + "\n"@
}

/// What the version option prints.
pub fn version_text(version: &str, license: &str) -> (text: String)
    ensures
        text@ == version_lines(version@, license@),
        text@ == "unix-socket-switcher "@ + version@
            + "\nCopyright 2023-2026 Julio Merino\nLicense "@ + license@ + "\n"@,
{
    "unix-socket-switcher ".to_owned().concat(version).concat(
        "\nCopyright 2023-2026 Julio Merino\nLicense ",
    ).concat(license).concat("\n")
}

/// The error about a sort order quotes all of what was given.
pub proof fn law_bad_sort_order_is_quoted(value: String)
    ensures
        CliError::BadGlobSort(value).text() == "Invalid --target-glob-sort value '"@ + value@
            + "'; expected name, timestamp-oldest, or timestamp-newest"@,
{
}

/// A timeout is as many units long as the number that was given says, whichever it
/// is. Without one there is no timeout, and what is no positive number is refused.
pub proof fn law_timeout_option(value: String, unit: u32, error: CliError)
    ensures
        match timeout_option(Some(value), unit, error) {
            Ok(Some(length)) => decimal_u64(value@) matches Some(number) && number > 0 && length
                == number * unit,
            Ok(None) => false,
            Err(e) => e == error && (decimal_u64(value@) is None || decimal_u64(value@) == Some(
                0u64,
            )),
        },
        timeout_option(None, unit, error) == Ok::<Option<nat>, CliError>(None),
{
}

/// A timeout that was read is as long as its span, and an error stays that error.
pub proof fn law_timeout_result(result: Result<Option<Span>, CliError>)
    ensures
        match (result, timeout_result(result)) {
            (Ok(Some(span)), Ok(Some(length))) => length == span@,
            (Ok(None), Ok(None)) => true,
            (Err(e), Err(other)) => other == e,
            _ => false,
        },
{
}

/// Sorting is by name where nothing else is asked for; every other order has one
/// name, and what is none of the names is refused and reported.
pub proof fn law_sort_option(value: String)
    ensures
        sort_option(None) == Ok::<GlobSort, CliError>(GlobSort::Name),
        sort_option(Some(value)) == Ok::<GlobSort, CliError>(GlobSort::Name) <==> value@
            == "name"@,
        sort_option(Some(value)) == Ok::<GlobSort, CliError>(GlobSort::TimestampOldest) <==> value@
            == "timestamp-oldest"@,
        sort_option(Some(value)) == Ok::<GlobSort, CliError>(GlobSort::TimestampNewest) <==> value@
            == "timestamp-newest"@,
        sort_option(Some(value)) is Err ==> sort_option(Some(value)) == Err::<GlobSort, CliError>(
            CliError::BadGlobSort(value),
        ),
{
    reveal_strlit("name");
    reveal_strlit("timestamp-oldest");
    reveal_strlit("timestamp-newest");
    assert("name"@.len() != "timestamp-oldest"@.len());
    assert("name"@.len() != "timestamp-newest"@.len());
    assert("timestamp-oldest"@[10] != "timestamp-newest"@[10]);
}

} // verus!

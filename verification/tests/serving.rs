use unix_socket_switcher::active::ActiveConnections;
use unix_socket_switcher::server::{Server, ServerEvent, StopReason};
use unix_socket_switcher::setup::SetupStep;
use unix_socket_switcher::signals::{shutdown_signals, Signal};
use unix_socket_switcher::span::Span;

#[test]
fn connections_are_counted() {
    let mut active = ActiveConnections::new();
    assert_eq!(active.count(), 0);
    let first = active.guard();
    let second = active.guard();
    assert_eq!(active.count(), 2);
    active.release(first);
    assert_eq!(active.count(), 1);
    active.release(second);
    assert_eq!(active.count(), 0);
}

#[test]
fn an_idle_server_stops_when_its_timer_runs_out() {
    let timeout = Span::from_secs(5);
    let mut server = Server::new(None, false, Some(timeout));
    assert_eq!(server.idle_timeout(), Some(timeout));
    assert_eq!(server.stop_reason(), None);
    let response = server.on_event(ServerEvent::IdleElapsed);
    assert!(response.handle.is_none());
    assert_eq!(response.rearm, None);
    assert_eq!(server.stop_reason(), Some(StopReason::IdleTimeout));
    assert!(!server.expects(&ServerEvent::Accepted));
}

#[test]
fn a_busy_server_sets_its_timer_anew() {
    let timeout = Span::from_secs(5);
    let mut server = Server::new(None, false, Some(timeout));
    let response = server.on_event(ServerEvent::Accepted);
    assert_eq!(response.rearm, Some(timeout));
    let first = response.handle.unwrap();
    let second = server.on_event(ServerEvent::Accepted).handle.unwrap();
    assert_eq!(server.active_connections(), 2);
    assert_eq!(server.on_event(ServerEvent::IdleElapsed).rearm, Some(timeout));
    assert_eq!(server.stop_reason(), None);
    assert_eq!(server.on_event(ServerEvent::Closed(first)).rearm, None);
    assert_eq!(server.on_event(ServerEvent::AcceptFailed).rearm, None);
    assert_eq!(server.on_event(ServerEvent::IdleElapsed).rearm, Some(timeout));
    // The server is idle from here on, so the timer counts from here.
    assert_eq!(server.on_event(ServerEvent::Closed(second)).rearm, Some(timeout));
    assert_eq!(server.active_connections(), 0);
    server.on_event(ServerEvent::IdleElapsed);
    assert_eq!(server.stop_reason(), Some(StopReason::IdleTimeout));
}

#[test]
fn a_server_without_idle_timeout_has_no_timer() {
    let mut server = Server::new(None, false, None);
    assert!(!server.expects(&ServerEvent::IdleElapsed));
    let response = server.on_event(ServerEvent::Accepted);
    assert_eq!(response.rearm, None);
    let guard = response.handle.unwrap();
    assert_eq!(server.on_event(ServerEvent::Closed(guard)).rearm, None);
    assert_eq!(server.stop_reason(), None);
}

#[test]
fn signals_stop_a_server_but_a_hangup_does_not() {
    for (signal, text) in [
        (Signal::Interrupt, "SIGINT"),
        (Signal::Quit, "SIGQUIT"),
        (Signal::Terminate, "SIGTERM"),
    ] {
        let mut server = Server::new(None, false, None);
        server.on_event(ServerEvent::Accepted);
        server.on_event(ServerEvent::Signalled(Signal::Hangup));
        assert_eq!(server.stop_reason(), None);
        assert!(server.expects(&ServerEvent::Signalled(signal)));
        server.on_event(ServerEvent::Signalled(signal));
        assert_eq!(server.stop_reason(), Some(StopReason::Signalled(signal)));
        assert_eq!(server.stop_reason().unwrap().text(), text);
    }
    assert_eq!(Signal::Hangup.name(), "SIGHUP");
    assert_eq!(shutdown_signals(), vec![Signal::Interrupt, Signal::Quit, Signal::Terminate]);
}

#[test]
fn a_server_removes_its_socket_and_its_pid_file() {
    let mut server = Server::new(Some(b"/run/x.pid".to_vec()), false, None);
    server.on_event(ServerEvent::Signalled(Signal::Terminate));
    let shutdown = server.shutdown("/run/x.sock");
    assert_eq!(shutdown.message, "Shutting down due to SIGTERM and removing /run/x.sock");
    assert!(shutdown.remove_socket);
    assert_eq!(shutdown.remove_pid_file, Some(b"/run/x.pid".to_vec()));
}

#[test]
fn a_socket_of_systemd_is_not_removed() {
    let mut server = Server::new(None, true, Some(Span::from_secs(1)));
    server.on_event(ServerEvent::IdleElapsed);
    let shutdown = server.shutdown("/run/x.sock");
    assert_eq!(shutdown.message, "Shutting down due to idle timeout (systemd owns /run/x.sock)");
    assert!(!shutdown.remove_socket);
    assert_eq!(shutdown.remove_pid_file, None);
}

#[test]
fn setup_takes_its_steps_in_order() {
    let mut steps = vec![SetupStep::first()];
    while *steps.last().unwrap() != SetupStep::Serve {
        let next = steps.last().unwrap().advance(Ok(())).unwrap();
        steps.push(next);
    }
    assert_eq!(
        steps,
        vec![
            SetupStep::ResolveSocketPath,
            SetupStep::SetNonblocking,
            SetupStep::AdoptListener,
            SetupStep::InstallHandler(Signal::Hangup),
            SetupStep::InstallHandler(Signal::Interrupt),
            SetupStep::InstallHandler(Signal::Quit),
            SetupStep::InstallHandler(Signal::Terminate),
            SetupStep::UnblockSignals,
            SetupStep::Serve,
        ]
    );
}

#[test]
fn setup_reports_what_failed() {
    for (step, text) in [
        (SetupStep::ResolveSocketPath, "Cannot determine socket path from listener"),
        (SetupStep::SetNonblocking, "Failed to set listener non-blocking: why"),
        (SetupStep::AdoptListener, "Failed to create tokio listener: why"),
        (SetupStep::InstallHandler(Signal::Hangup), "Failed to install SIGHUP handler: why"),
        (SetupStep::InstallHandler(Signal::Interrupt), "Failed to install SIGINT handler: why"),
        (SetupStep::InstallHandler(Signal::Quit), "Failed to install SIGQUIT handler: why"),
        (SetupStep::InstallHandler(Signal::Terminate), "Failed to install SIGTERM handler: why"),
    ] {
        assert_eq!(step.advance(Err("why".to_string())), Err(text.to_string()));
    }
    assert_eq!(SetupStep::UnblockSignals.advance(Err("why".to_string())), Ok(SetupStep::Serve));
}

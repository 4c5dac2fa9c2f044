//! Serving connections until it is time to stop.

use vstd::prelude::*;

use crate::active::{one_less, one_more, ActiveConnections, ConnectionGuard};
use crate::path::{copy_optional_path, optional_path};
use crate::signals::Signal;
use crate::span::{optional_span, Span};

verus! {

/// Why the server stops.
#[derive(Clone, Copy, Debug, PartialEq, Eq, Structural)]
pub enum StopReason {
    /// There was no connection for as long as was asked for.
    IdleTimeout,
    /// A signal asked for it.
    Signalled(Signal),
}

impl StopReason {
    /// How this reason reads, as text.
    pub open spec fn reason_text(self) -> Seq<char> {
        match self {
            StopReason::IdleTimeout => "idle timeout"@,
            StopReason::Signalled(signal) => signal.name_text(),
        }
    }

    /// How this reason reads.
    pub fn text(self) -> (text: &'static str)
        ensures
            text@ == self.reason_text(),
            match self {
                StopReason::IdleTimeout => text@ == "idle timeout"@,
                StopReason::Signalled(Signal::Hangup) => text@ == "SIGHUP"@,
                StopReason::Signalled(Signal::Interrupt) => text@ == "SIGINT"@,
                StopReason::Signalled(Signal::Quit) => text@ == "SIGQUIT"@,
                StopReason::Signalled(Signal::Terminate) => text@ == "SIGTERM"@,
            },
    {
        match self {
            StopReason::IdleTimeout => "idle timeout",
            StopReason::Signalled(signal) => signal.name(),
        }
    }
}

/// The server, as a value.
pub struct ServerModel {
    /// The PID file to remove on shutdown.
    pub pid_file: Option<Seq<u8>>,
    /// Whether systemd owns the listening socket.
    pub systemd_activated: bool,
    /// How long the server stays up without a connection, in nanoseconds.
    pub idle_timeout: Option<nat>,
    /// The number of active connections.
    pub active: usize,
    /// Why the server stops, once it does.
    pub stop: Option<StopReason>,
}

/// A server.
#[derive(Debug)]
pub struct Server {
    pid_file: Option<Vec<u8>>,
    systemd_activated: bool,
    idle_timeout: Option<Span>,
    active: ActiveConnections,
    stop: Option<StopReason>,
}

/// What happens to a server.
#[derive(Debug)]
pub enum ServerEvent {
    /// A client connected.
    Accepted,
    /// A client could not be accepted.
    AcceptFailed,
    /// The connection that this guard stands for is over.
    Closed(ConnectionGuard),
    /// The idle timer ran out.
    IdleElapsed,
    /// A signal came in.
    Signalled(Signal),
}

/// What to do about an event.
#[derive(Debug)]
pub struct Response {
    /// Handle the new connection, and hand this guard back when it is over.
    pub handle: Option<ConnectionGuard>,
    /// Let the idle timer run out this long from now.
    pub rearm: Option<Span>,
}

/// How to shut down.
#[derive(Debug)]
pub struct Shutdown {
    /// What to report.
    pub message: String,
    /// Whether to remove the listening socket.
    pub remove_socket: bool,
    /// The PID file to remove.
    pub remove_pid_file: Option<Vec<u8>>,
}

impl View for Server {
    type V = ServerModel;

    closed spec fn view(&self) -> ServerModel {
        ServerModel {
            pid_file: optional_path(self.pid_file),
            systemd_activated: self.systemd_activated,
            idle_timeout: optional_span(self.idle_timeout),
            active: self.active@,
            stop: self.stop,
        }
    }
}

impl ServerModel {
    /// A server that has just come up.
    pub open spec fn fresh(
        pid_file: Option<Seq<u8>>,
        systemd_activated: bool,
        idle_timeout: Option<nat>,
    ) -> ServerModel {
        ServerModel { pid_file, systemd_activated, idle_timeout, active: 0, stop: None }
    }

    /// Whether `event` can happen: only to a server that is up, and the idle timer
    /// runs out only where there is one.
    pub open spec fn expects(self, event: ServerEvent) -> bool {
        self.stop is None && (event is IdleElapsed ==> self.idle_timeout is Some)
    }

    /// The number of active connections after `event`.
    pub open spec fn active_after(self, event: ServerEvent) -> usize {
        match event {
            ServerEvent::Accepted => one_more(self.active),
            ServerEvent::Closed(_) => one_less(self.active),
            _ => self.active,
        }
    }

    /// Why the server stops after `event`, if it does: the idle timer stops it while
    /// no connection is active, and every signal but a hangup stops it.
    pub open spec fn stop_after(self, event: ServerEvent) -> Option<StopReason> {
        match event {
            ServerEvent::IdleElapsed if self.active == 0 => Some(StopReason::IdleTimeout),
            ServerEvent::Signalled(signal) if signal.shuts_down() => Some(
                StopReason::Signalled(signal),
            ),
            _ => None,
        }
    }

    /// The server after `event`. Nothing happens to one that has stopped.
    pub open spec fn after(self, event: ServerEvent) -> ServerModel {
        if self.stop is Some {
            self
        } else {
            ServerModel {
                active: self.active_after(event),
                stop: self.stop_after(event),
                ..self
            }
        }
    }

    /// Whether `event` sets the idle timer anew: a new connection does, the end of
    /// the last one does, and so does the timer itself when it runs out too early.
    pub open spec fn rearms(self, event: ServerEvent) -> bool {
        self.idle_timeout is Some && match event {
            ServerEvent::Accepted => true,
            ServerEvent::Closed(_) => self.active_after(event) == 0,
            ServerEvent::IdleElapsed => self.active != 0,
            _ => false,
        }
    }

    /// What is reported on shutdown, with `socket` the path of the listening socket.
    pub open spec fn shutdown_message(self, socket: Seq<char>) -> Seq<char>
        recommends
            self.stop is Some,
    {
        let reason = self.stop->0.reason_text();
        if self.systemd_activated {
            "Shutting down due to "@ + reason + " (systemd owns "@ + socket + ")"@
        } else {
            "Shutting down due to "@ + reason + " and removing "@ + socket
        }
    }
}

impl Server {
    /// A server that has just come up. Its idle timer is to run out `idle_timeout`
    /// from now, if there is one.
    pub fn new(
        pid_file: Option<Vec<u8>>,
        systemd_activated: bool,
        idle_timeout: Option<Span>,
    ) -> (server: Self)
        ensures
            server@ == ServerModel::fresh(
                optional_path(pid_file),
                systemd_activated,
                optional_span(idle_timeout),
            ),
    {
        Server {
            pid_file,
            systemd_activated,
            idle_timeout,
            active: ActiveConnections::new(),
            stop: None,
        }
    }

    /// Tells whether `event` can happen.
    pub fn expects(&self, event: &ServerEvent) -> (yes: bool)
        ensures
            yes == self@.expects(*event),
    {
        self.stop.is_none() && match event {
            ServerEvent::IdleElapsed => self.idle_timeout.is_some(),
            _ => true,
        }
    }

    /// Why the server stops, once it does.
    pub fn stop_reason(&self) -> (reason: Option<StopReason>)
        ensures
            reason == self@.stop,
    {
        self.stop
    }

    /// How long the server stays up without a connection.
    pub fn idle_timeout(&self) -> (timeout: Option<Span>)
        ensures
            optional_span(timeout) == self@.idle_timeout,
    {
        self.idle_timeout
    }

    /// The number of active connections.
    pub fn active_connections(&self) -> (count: usize)
        ensures
            count == self@.active,
    {
        self.active.count()
    }

    /// Takes note of an event and tells what to do about it.
    pub fn on_event(&mut self, event: ServerEvent) -> (response: Response)
        requires
            old(self)@.expects(event),
        ensures
            final(self)@ == old(self)@.after(event),
            response.handle is Some <==> event is Accepted,
            optional_span(response.rearm) == if old(self)@.rearms(event) {
                old(self)@.idle_timeout
            } else {
                None
            },
            match event {
                ServerEvent::Accepted => {
                    &&& old(self)@.active < usize::MAX ==> final(self)@.active == old(self)@.active
                        + 1
                    &&& optional_span(response.rearm) == old(self)@.idle_timeout
                    &&& final(self)@.stop is None
                },
                ServerEvent::AcceptFailed => {
                    &&& final(self)@ == old(self)@
                    &&& response.rearm is None
                },
                ServerEvent::Closed(_) => {
                    &&& old(self)@.active > 0 ==> final(self)@.active == old(self)@.active - 1
                    &&& old(self)@.active == 1 ==> optional_span(response.rearm)
                        == old(self)@.idle_timeout
                    &&& old(self)@.active != 1 ==> response.rearm is None
                    &&& final(self)@.stop is None
                },
                ServerEvent::IdleElapsed => {
                    &&& final(self)@.active == old(self)@.active
                    &&& old(self)@.active == 0 ==> final(self)@.stop == Some(
                        StopReason::IdleTimeout,
                    ) && response.rearm is None
                    &&& old(self)@.active > 0 ==> final(self)@.stop is None && optional_span(
                        response.rearm,
                    ) == old(self)@.idle_timeout
                },
                ServerEvent::Signalled(signal) => {
                    &&& final(self)@.active == old(self)@.active
                    &&& final(self)@.stop == if signal == Signal::Hangup {
                        None
                    } else {
                        Some(StopReason::Signalled(signal))
                    }
                    &&& response.rearm is None
                },
            },
    {
        match event {
            ServerEvent::Accepted => {
                let guard: ConnectionGuard = self.active.guard();
                Response { handle: Some(guard), rearm: self.idle_timeout }
            },
            ServerEvent::AcceptFailed => Response { handle: None, rearm: None },
            ServerEvent::Closed(guard) => {
                self.active.release(guard);
                let rearm: Option<Span> = if self.active.count() == 0 {
                    self.idle_timeout
                } else {
                    None
                };
                Response { handle: None, rearm }
            },
            ServerEvent::IdleElapsed => {
                if self.active.count() == 0 {
                    self.stop = Some(StopReason::IdleTimeout);
                    Response { handle: None, rearm: None }
                } else {
                    Response { handle: None, rearm: self.idle_timeout }
                }
            },
            ServerEvent::Signalled(signal) => {
                if signal != Signal::Hangup {
                    self.stop = Some(StopReason::Signalled(signal));
                }
                Response { handle: None, rearm: None }
            },
        }
    }

    /// How to shut down a server that stops, with `socket` the path of the listening
    /// socket as it is shown to people.
    pub fn shutdown(&self, socket: &str) -> (shutdown: Shutdown)
        requires
            self@.stop is Some,
        ensures
            shutdown.message@ == self@.shutdown_message(socket@),
            self@.systemd_activated ==> shutdown.message@ == "Shutting down due to "@
                + self@.stop->0.reason_text() + " (systemd owns "@ + socket@ + ")"@,
            !self@.systemd_activated ==> shutdown.message@ == "Shutting down due to "@
                + self@.stop->0.reason_text() + " and removing "@ + socket@,
            shutdown.remove_socket == !self@.systemd_activated,
            optional_path(shutdown.remove_pid_file) == self@.pid_file,
    {
        let reason: &'static str = self.stop.unwrap().text();
        let start: String = "Shutting down due to ".to_owned().concat(reason);
        let message: String = if self.systemd_activated {
            start.concat(" (systemd owns ").concat(socket).concat(")")
        } else {
            start.concat(" and removing ").concat(socket)
        };
        Shutdown {
            message,
            remove_socket: !self.systemd_activated,
            remove_pid_file: copy_optional_path(&self.pid_file),
        }
    }
}

/// An event and the time at which it happened, in nanoseconds.
pub struct TimedEvent {
    pub at: nat,
    pub event: ServerEvent,
}

/// The server after what happened to it.
pub open spec fn server_after(server: ServerModel, trace: Seq<TimedEvent>) -> ServerModel
    decreases trace.len(),
{
    if trace.len() == 0 {
        server
    } else {
        server_after(server, trace.drop_last()).after(trace.last().event)
    }
}

/// When the idle timer was last set, for a server that came up at `start`.
pub open spec fn armed_at(server: ServerModel, start: nat, trace: Seq<TimedEvent>) -> nat
    decreases trace.len(),
{
    if trace.len() == 0 {
        start
    } else if server_after(server, trace.drop_last()).rearms(trace.last().event) {
        trace.last().at
    } else {
        armed_at(server, start, trace.drop_last())
    }
}

/// Since when no connection has been active (or, while one is, the time of the
/// last event), for a server that came up at `start`.
pub open spec fn idle_since(server: ServerModel, start: nat, trace: Seq<TimedEvent>) -> nat
    decreases trace.len(),
{
    if trace.len() == 0 {
        start
    } else if server_after(server, trace.drop_last()).active == 0 && server_after(
        server,
        trace,
    ).active == 0 {
        idle_since(server, start, trace.drop_last())
    } else {
        trace.last().at
    }
}

/// Whether `trace` can happen to a server that comes up at `start`: events happen
/// one after the other, to a server that is up, and the idle timer runs out no
/// sooner than it was set to.
pub open spec fn possible(server: ServerModel, start: nat, trace: Seq<TimedEvent>) -> bool
    decreases trace.len(),
{
    trace.len() > 0 ==> {
        let earlier = trace.drop_last();
        let last = trace.last();
        &&& possible(server, start, earlier)
        &&& server_after(server, earlier).expects(last.event)
        &&& last.at >= if earlier.len() > 0 {
            earlier.last().at
        } else {
            start
        }
        &&& last.event is IdleElapsed ==> last.at >= armed_at(server, start, earlier)
            + server.idle_timeout->0
    }
}

/// How many clients were accepted.
pub open spec fn accepted(trace: Seq<TimedEvent>) -> nat
    decreases trace.len(),
{
    if trace.len() == 0 {
        0
    } else {
        accepted(trace.drop_last()) + if trace.last().event is Accepted {
            1nat
        } else {
            0nat
        }
    }
}

/// How many connections came to an end.
pub open spec fn closed(trace: Seq<TimedEvent>) -> nat
    decreases trace.len(),
{
    if trace.len() == 0 {
        0
    } else {
        closed(trace.drop_last()) + if trace.last().event is Closed {
            1nat
        } else {
            0nat
        }
    }
}

/// Nothing changes what a server was set up with.
pub proof fn law_settings_kept(server: ServerModel, trace: Seq<TimedEvent>)
    ensures
        server_after(server, trace).idle_timeout == server.idle_timeout,
        server_after(server, trace).pid_file == server.pid_file,
        server_after(server, trace).systemd_activated == server.systemd_activated,
    decreases trace.len(),
{
    if trace.len() > 0 {
        law_settings_kept(server, trace.drop_last());
    }
}

/// A server counts the connections that were accepted and are not over. (No more
/// can end than began, and no more can be active at a time than the machine can
/// count.)
pub proof fn law_active_is_accepted_less_closed(
    server: ServerModel,
    start: nat,
    trace: Seq<TimedEvent>,
)
    requires
        server.active == 0,
        possible(server, start, trace),
        forall|n: int|
            0 <= n <= trace.len() ==> closed(#[trigger] trace.take(n)) <= accepted(trace.take(n))
                <= closed(trace.take(n)) + usize::MAX,
    ensures
        server_after(server, trace).active == accepted(trace) - closed(trace),
    decreases trace.len(),
{
    if trace.len() > 0 {
        let earlier = trace.drop_last();
        assert forall|n: int| 0 <= n <= earlier.len() implies closed(#[trigger] earlier.take(n))
            <= accepted(earlier.take(n)) <= closed(earlier.take(n)) + usize::MAX by {
            assert(earlier.take(n) == trace.take(n));
        }
        law_active_is_accepted_less_closed(server, start, earlier);
        assert(trace.take(trace.len() as int) == trace);
    }
}

/// A server stops for being idle only where that was asked for and while no
/// connection is active, and otherwise only for a signal to shut down that came in
/// last.
pub proof fn law_stops_only_for_cause(server: ServerModel, start: nat, trace: Seq<TimedEvent>)
    requires
        server.stop is None,
        possible(server, start, trace),
    ensures
        match server_after(server, trace).stop {
            None => true,
            Some(StopReason::IdleTimeout) => server.idle_timeout is Some && server_after(
                server,
                trace,
            ).active == 0,
            Some(StopReason::Signalled(signal)) => signal.shuts_down() && trace.len() > 0
                && trace.last().event == ServerEvent::Signalled(signal),
        },
{
    if trace.len() > 0 {
        law_settings_kept(server, trace.drop_last());
    }
}

/// A signal to shut down stops a server that is up, whatever else goes on.
pub proof fn law_shutdown_signal_stops(server: ServerModel, signal: Signal)
    requires
        server.stop is None,
        signal.shuts_down(),
    ensures
        server.after(ServerEvent::Signalled(signal)).stop == Some(StopReason::Signalled(signal)),
{
}

/// A server that has stopped stays as it is.
pub proof fn law_stopped_stays_stopped(server: ServerModel, trace: Seq<TimedEvent>)
    requires
        server.stop is Some,
    ensures
        server_after(server, trace) == server,
    decreases trace.len(),
{
    if trace.len() > 0 {
        law_stopped_stays_stopped(server, trace.drop_last());
    }
}

/// A hangup leaves a server as it is, and its idle timer too.
pub proof fn law_hangup_is_ignored(server: ServerModel)
    ensures
        server.after(ServerEvent::Signalled(Signal::Hangup)) == server,
        !server.rearms(ServerEvent::Signalled(Signal::Hangup)),
{
}

/// While no connection is active, the idle timer counts from the moment at which
/// that came about.
pub proof fn law_timer_counts_from_becoming_idle(
    server: ServerModel,
    start: nat,
    trace: Seq<TimedEvent>,
)
    requires
        server.active == 0,
        server.idle_timeout is Some,
        possible(server, start, trace),
        server_after(server, trace).active == 0,
    ensures
        armed_at(server, start, trace) == idle_since(server, start, trace),
    decreases trace.len(),
{
    if trace.len() > 0 {
        let earlier = trace.drop_last();
        law_settings_kept(server, earlier);
        if server_after(server, earlier).active == 0 {
            law_timer_counts_from_becoming_idle(server, start, earlier);
        }
    }
}

/// A server stops for being idle only after no connection has been active for all
/// of the idle timeout; and when the idle timer runs out while none is, it does
/// stop.
pub proof fn law_idle_stop(server: ServerModel, start: nat, trace: Seq<TimedEvent>)
    requires
        server.active == 0,
        server.stop is None,
        possible(server, start, trace),
        trace.len() > 0,
    ensures
        server_after(server, trace).stop == Some(StopReason::IdleTimeout) ==> trace.last().at
            >= idle_since(server, start, trace) + server.idle_timeout->0,
        trace.last().event is IdleElapsed && server_after(server, trace).active == 0
            ==> server_after(server, trace).stop == Some(StopReason::IdleTimeout),
{
    let earlier = trace.drop_last();
    law_settings_kept(server, earlier);
    law_stops_only_for_cause(server, start, trace);
    if server_after(server, trace).stop == Some(StopReason::IdleTimeout) {
        law_timer_counts_from_becoming_idle(server, start, earlier);
    }
}

/// A client that comes in counts one more, and a connection that is over one less;
/// nothing else changes the count. Nothing happens to a server that has stopped.
pub proof fn law_events_change_the_count(server: ServerModel, event: ServerEvent)
    ensures
        server.stop is Some ==> server.after(event) == server,
        server.stop is None && event is Accepted && server.active < usize::MAX ==> server.after(
            event,
        ).active == server.active + 1,
        server.stop is None && event is Closed && server.active > 0 ==> server.after(event).active
            == server.active - 1,
        !(event is Accepted || event is Closed) ==> server.after(event).active == server.active,
{
}

/// A server stops when its idle timer runs out while no connection is active, and at
/// every signal but a hangup; nothing else stops it.
pub proof fn law_what_stops_a_server(server: ServerModel, event: ServerEvent)
    requires
        server.stop is None,
    ensures
        match event {
            ServerEvent::IdleElapsed => server.after(event).stop == if server.active == 0 {
                Some(StopReason::IdleTimeout)
            } else {
                None
            },
            ServerEvent::Signalled(signal) => server.after(event).stop == if signal
                == Signal::Hangup {
                None
            } else {
                Some(StopReason::Signalled(signal))
            },
            _ => server.after(event).stop is None,
        },
{
}

/// Where there is an idle timeout, the timer is set anew when a client comes in, when
/// the last connection ends, and when it runs out while a connection is active; at no
/// other time, and never where there is no timeout.
pub proof fn law_what_sets_the_timer_anew(server: ServerModel, event: ServerEvent)
    ensures
        server.idle_timeout is None ==> !server.rearms(event),
        server.idle_timeout is Some ==> (server.rearms(event) <==> match event {
            ServerEvent::Accepted => true,
            ServerEvent::Closed(_) => server.active == 1,
            ServerEvent::IdleElapsed => server.active > 0,
            ServerEvent::AcceptFailed => false,
            ServerEvent::Signalled(_) => false,
        }),
{
}

/// Everything can happen to a server that is up, but for an idle timer running out
/// that there is not, and nothing to one that has stopped.
pub proof fn law_what_can_happen(server: ServerModel, event: ServerEvent)
    ensures
        server.stop is Some ==> !server.expects(event),
        server.stop is None && server.idle_timeout is Some ==> server.expects(event),
        server.stop is None && server.idle_timeout is None ==> (server.expects(event) <==> !(event
            is IdleElapsed)),
{
}

/// A server comes up with no connection and no reason to stop, set up as asked for.
pub proof fn law_fresh_server(
    pid_file: Option<Seq<u8>>,
    systemd_activated: bool,
    idle_timeout: Option<nat>,
)
    ensures
        ({
            let server = ServerModel::fresh(pid_file, systemd_activated, idle_timeout);
            &&& server.active == 0
            &&& server.stop is None
            &&& server.pid_file == pid_file
            &&& server.systemd_activated == systemd_activated
            &&& server.idle_timeout == idle_timeout
        }),
{
}

/// What is reported on shutdown names the reason and all of the path of the socket,
/// and says that it is removed unless systemd owns it.
pub proof fn law_shutdown_message(server: ServerModel, reason: StopReason, socket: Seq<char>)
    requires
        server.stop == Some(reason),
    ensures
        server.systemd_activated ==> server.shutdown_message(socket) == "Shutting down due to "@
            + reason.reason_text() + " (systemd owns "@ + socket + ")"@,
        !server.systemd_activated ==> server.shutdown_message(socket) == "Shutting down due to "@
            + reason.reason_text() + " and removing "@ + socket,
        StopReason::IdleTimeout.reason_text() == "idle timeout"@,
        reason matches StopReason::Signalled(signal) ==> reason.reason_text()
            == signal.name_text(),
{
}

} // verus!

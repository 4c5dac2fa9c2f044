//! The signals that the daemon handles.

use vstd::prelude::*;

verus! {

/// A signal that the daemon handles.
#[derive(Clone, Copy, Debug, PartialEq, Eq, Structural)]
pub enum Signal {
    Hangup,
    Interrupt,
    Quit,
    Terminate,
}

impl Signal {
    /// Whether this signal asks the daemon to shut down.
    pub open spec fn shuts_down(self) -> bool {
        self != Signal::Hangup
    }

    /// The name of this signal, as text.
    pub open spec fn name_text(self) -> Seq<char> {
        match self {
            Signal::Hangup => "SIGHUP"@,
            Signal::Interrupt => "SIGINT"@,
            Signal::Quit => "SIGQUIT"@,
            Signal::Terminate => "SIGTERM"@,
        }
    }

    /// The name of this signal.
    pub fn name(self) -> (name: &'static str)
        ensures
            name@ == self.name_text(),
            self == Signal::Hangup ==> name@ == "SIGHUP"@,
            self == Signal::Interrupt ==> name@ == "SIGINT"@,
            self == Signal::Quit ==> name@ == "SIGQUIT"@,
            self == Signal::Terminate ==> name@ == "SIGTERM"@,
    {
        match self {
            Signal::Hangup => "SIGHUP",
            Signal::Interrupt => "SIGINT",
            Signal::Quit => "SIGQUIT",
            Signal::Terminate => "SIGTERM",
        }
    }
}

/// The signals that ask the daemon to shut down. They stay blocked until their
/// handlers are in place.
pub fn shutdown_signals() -> (signals: Vec<Signal>)
    ensures
        signals@ == seq![Signal::Interrupt, Signal::Quit, Signal::Terminate],
        forall|signal: Signal| signals@.contains(signal) <==> signal.shuts_down(),
{
    let signals: Vec<Signal> = vec![Signal::Interrupt, Signal::Quit, Signal::Terminate];
    proof {
        assert(signals@ == seq![Signal::Interrupt, Signal::Quit, Signal::Terminate]);
        assert(signals@[0] == Signal::Interrupt);
        assert(signals@[1] == Signal::Quit);
        assert(signals@[2] == Signal::Terminate);
    }
    signals
}

/// Every signal asks the daemon to shut down, but for a hangup.
pub proof fn law_all_but_a_hangup_shut_down(signal: Signal)
    ensures
        signal.shuts_down() <==> signal == Signal::Interrupt || signal == Signal::Quit || signal
            == Signal::Terminate,
        !Signal::Hangup.shuts_down(),
{
}

/// The name of a signal says which one it is.
pub proof fn law_names_tell_signals_apart(a: Signal, b: Signal)
    ensures
        a.name_text() == b.name_text() <==> a == b,
{
    reveal_strlit("SIGHUP");
    reveal_strlit("SIGINT");
    reveal_strlit("SIGQUIT");
    reveal_strlit("SIGTERM");
    assert("SIGHUP"@[3] == 'H');
    assert("SIGINT"@[3] == 'I');
    assert("SIGQUIT"@[3] == 'Q');
    assert("SIGTERM"@[3] == 'T');
}

} // verus!

//! Getting the server ready to serve its listening socket.

use vstd::prelude::*;

use crate::signals::Signal;

verus! {

/// One step of getting the server ready.
#[derive(Clone, Copy, Debug, PartialEq, Eq, Structural)]
pub enum SetupStep {
    /// Find out the path of the listening socket.
    ResolveSocketPath,
    /// Make the listening socket non-blocking.
    SetNonblocking,
    /// Hand the listening socket to the runtime.
    AdoptListener,
    /// Install the handler of a signal.
    InstallHandler(Signal),
    /// Let the shutdown signals through; those that came meanwhile are delivered.
    UnblockSignals,
    /// Serve connections.
    Serve,
}

impl SetupStep {
    /// The step that comes after this one.
    pub open spec fn following(self) -> SetupStep {
        match self {
            SetupStep::ResolveSocketPath => SetupStep::SetNonblocking,
            SetupStep::SetNonblocking => SetupStep::AdoptListener,
            SetupStep::AdoptListener => SetupStep::InstallHandler(Signal::Hangup),
            SetupStep::InstallHandler(Signal::Hangup) => SetupStep::InstallHandler(
                Signal::Interrupt,
            ),
            SetupStep::InstallHandler(Signal::Interrupt) => SetupStep::InstallHandler(Signal::Quit),
            SetupStep::InstallHandler(Signal::Quit) => SetupStep::InstallHandler(Signal::Terminate),
            SetupStep::InstallHandler(Signal::Terminate) => SetupStep::UnblockSignals,
            SetupStep::UnblockSignals => SetupStep::Serve,
            SetupStep::Serve => SetupStep::Serve,
        }
    }

    /// What is reported where this step failed because of `cause`; `None` for a
    /// step whose failure is passed over.
    pub open spec fn failure(self, cause: Seq<char>) -> Option<Seq<char>> {
        match self {
            SetupStep::ResolveSocketPath => Some("Cannot determine socket path from listener"@),
            SetupStep::SetNonblocking => Some("Failed to set listener non-blocking: "@ + cause),
            SetupStep::AdoptListener => Some("Failed to create tokio listener: "@ + cause),
            SetupStep::InstallHandler(signal) => Some(
                "Failed to install "@ + signal.name_text() + " handler: "@ + cause,
            ),
            SetupStep::UnblockSignals => None,
            SetupStep::Serve => None,
        }
    }

    /// The first step.
    pub fn first() -> (step: SetupStep)
        ensures
            step == SetupStep::ResolveSocketPath,
    {
        SetupStep::ResolveSocketPath
    }

    /// The step that comes after this one, given that this one succeeded.
    fn succeed(self) -> (next: SetupStep)
        ensures
            next == self.following(),
    {
        match self {
            SetupStep::ResolveSocketPath => SetupStep::SetNonblocking,
            SetupStep::SetNonblocking => SetupStep::AdoptListener,
            SetupStep::AdoptListener => SetupStep::InstallHandler(Signal::Hangup),
            SetupStep::InstallHandler(Signal::Hangup) => SetupStep::InstallHandler(
                Signal::Interrupt,
            ),
            SetupStep::InstallHandler(Signal::Interrupt) => SetupStep::InstallHandler(Signal::Quit),
            SetupStep::InstallHandler(Signal::Quit) => SetupStep::InstallHandler(Signal::Terminate),
            SetupStep::InstallHandler(Signal::Terminate) => SetupStep::UnblockSignals,
            SetupStep::UnblockSignals => SetupStep::Serve,
            SetupStep::Serve => SetupStep::Serve,
        }
    }

    /// What to do after this step: the next one, or to give up with an error.
    pub fn advance(self, outcome: Result<(), String>) -> (next: Result<SetupStep, String>)
        ensures
            match outcome {
                Ok(_) => next == Ok::<SetupStep, String>(self.following()),
                Err(cause) => match self.failure(cause@) {
                    Some(text) => next matches Err(e) && e@ == text,
                    None => next == Ok::<SetupStep, String>(self.following()),
                },
            },
            outcome is Err ==> match self {
                SetupStep::ResolveSocketPath => next matches Err(e) && e@
                    == "Cannot determine socket path from listener"@,
                SetupStep::SetNonblocking => next matches Err(e) && e@
                    == "Failed to set listener non-blocking: "@ + outcome->Err_0@,
                SetupStep::AdoptListener => next matches Err(e) && e@
                    == "Failed to create tokio listener: "@ + outcome->Err_0@,
                SetupStep::InstallHandler(Signal::Hangup) => next matches Err(e) && e@
                    == "Failed to install "@ + "SIGHUP"@ + " handler: "@ + outcome->Err_0@,
                SetupStep::InstallHandler(Signal::Interrupt) => next matches Err(e) && e@
                    == "Failed to install "@ + "SIGINT"@ + " handler: "@ + outcome->Err_0@,
                SetupStep::InstallHandler(Signal::Quit) => next matches Err(e) && e@
                    == "Failed to install "@ + "SIGQUIT"@ + " handler: "@ + outcome->Err_0@,
                SetupStep::InstallHandler(Signal::Terminate) => next matches Err(e) && e@
                    == "Failed to install "@ + "SIGTERM"@ + " handler: "@ + outcome->Err_0@,
                SetupStep::UnblockSignals => next == Ok::<SetupStep, String>(SetupStep::Serve),
                SetupStep::Serve => next == Ok::<SetupStep, String>(SetupStep::Serve),
            },
    {
        match outcome {
            Ok(_) => Ok(self.succeed()),
            Err(cause) => match self {
                SetupStep::ResolveSocketPath => Err(
                    "Cannot determine socket path from listener".to_owned(),
                ),
                SetupStep::SetNonblocking => Err(
                    "Failed to set listener non-blocking: ".to_owned().concat(cause.as_str()),
                ),
                SetupStep::AdoptListener => Err(
                    "Failed to create tokio listener: ".to_owned().concat(cause.as_str()),
                ),
                SetupStep::InstallHandler(signal) => Err(
                    "Failed to install ".to_owned().concat(signal.name()).concat(
                        " handler: ",
                    ).concat(cause.as_str()),
                ),
                SetupStep::UnblockSignals => Ok(self.succeed()),
                SetupStep::Serve => Ok(self.succeed()),
            },
        }
    }
}

/// The step that comes `n` steps after the first.
pub open spec fn nth_step(n: nat) -> SetupStep
    decreases n,
{
    if n == 0 {
        SetupStep::ResolveSocketPath
    } else {
        nth_step((n - 1) as nat).following()
    }
}

/// Where a step stands in the order in which they are taken.
pub open spec fn step_number(step: SetupStep) -> nat {
    match step {
        SetupStep::ResolveSocketPath => 0,
        SetupStep::SetNonblocking => 1,
        SetupStep::AdoptListener => 2,
        SetupStep::InstallHandler(Signal::Hangup) => 3,
        SetupStep::InstallHandler(Signal::Interrupt) => 4,
        SetupStep::InstallHandler(Signal::Quit) => 5,
        SetupStep::InstallHandler(Signal::Terminate) => 6,
        SetupStep::UnblockSignals => 7,
        SetupStep::Serve => 8,
    }
}

/// Each step is taken once, in its place; from then on the server serves.
pub proof fn law_steps_in_order(n: nat)
    ensures
        n <= 8 ==> step_number(nth_step(n)) == n,
        n >= 8 ==> nth_step(n) == SetupStep::Serve,
    decreases n,
{
    if n > 0 {
        law_steps_in_order((n - 1) as nat);
    }
}

/// The shutdown signals are let through only once every handler is installed, and
/// connections are served only after that.
pub proof fn law_unblocked_after_handlers(n: nat, signal: Signal)
    requires
        nth_step(n) == SetupStep::UnblockSignals,
    ensures
        exists|m: nat| m < n && nth_step(m) == SetupStep::InstallHandler(signal),
        forall|m: nat| m <= n ==> #[trigger] nth_step(m) != SetupStep::Serve,
{
    law_steps_in_order(n);
    let m = step_number(SetupStep::InstallHandler(signal));
    law_steps_in_order(m);
    assert(nth_step(m) == SetupStep::InstallHandler(signal));
    assert forall|m: nat| m <= n implies #[trigger] nth_step(m) != SetupStep::Serve by {
        law_steps_in_order(m);
    }
}

/// Everything that can fail before connections are served ends the set-up with an
/// error, but for letting the signals through. An error that has a cause ends with
/// it, whatever that is.
pub proof fn law_failures_end_the_setup(step: SetupStep, cause: Seq<char>)
    ensures
        step.failure(cause) is None <==> step == SetupStep::UnblockSignals || step
            == SetupStep::Serve,
        step != SetupStep::UnblockSignals && step != SetupStep::Serve && step
            != SetupStep::ResolveSocketPath ==> {
            let text = step.failure(cause)->0;
            &&& text.len() >= cause.len()
            &&& text.skip(text.len() - cause.len()) == cause
        },
{
    match step.failure(cause) {
        Some(text) => {
            if step != SetupStep::ResolveSocketPath {
                assert(text.skip(text.len() - cause.len()) =~= cause);
            }
        },
        None => {},
    }
}

/// The steps are those that serving needs, in the order in which it needs them.
pub proof fn law_the_steps()
    ensures
        nth_step(0) == SetupStep::ResolveSocketPath,
        nth_step(1) == SetupStep::SetNonblocking,
        nth_step(2) == SetupStep::AdoptListener,
        nth_step(3) == SetupStep::InstallHandler(Signal::Hangup),
        nth_step(4) == SetupStep::InstallHandler(Signal::Interrupt),
        nth_step(5) == SetupStep::InstallHandler(Signal::Quit),
        nth_step(6) == SetupStep::InstallHandler(Signal::Terminate),
        nth_step(7) == SetupStep::UnblockSignals,
        nth_step(8) == SetupStep::Serve,
        nth_step(9) == SetupStep::Serve,
{
    reveal_with_fuel(nth_step, 10);
}

} // verus!

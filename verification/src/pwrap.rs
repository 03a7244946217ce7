//! The life cycle of the worker, the thread that runs the event loop of the
//! audio daemon's client: the handshake that proves it ready, its reaction to
//! the commands it is sent, and what it puts on its mailbox from its first
//! message to its last.

use crate::cmds::{Cmd, CmdView};
use vstd::prelude::*;

verus! {

/// Why a worker did not come up.
#[derive(Clone, Debug, PartialEq, Eq)]
pub enum StartupError {
    /// The worker reported, with this text, that its initialization failed.
    Reported(String),
    /// The first message of the worker was neither its readiness nor a report.
    Unexpected(Cmd),
    /// The mailbox closed before any message came.
    Closed,
}

/// A startup error as a mathematical value.
pub enum StartupErrorView {
    Reported(Seq<char>),
    Unexpected(CmdView),
    Closed,
}

impl View for StartupError {
    type V = StartupErrorView;

    open spec fn view(&self) -> StartupErrorView {
        match *self {
            StartupError::Reported(text) => StartupErrorView::Reported(text@),
            StartupError::Unexpected(cmd) => StartupErrorView::Unexpected(cmd@),
            StartupError::Closed => StartupErrorView::Closed,
        }
    }
}

/// Where a worker stands between the launch of its thread and that thread's
/// end. A worker that has not been launched has no phase yet.
#[derive(Clone, Copy, Debug, PartialEq, Eq, Structural)]
pub enum Phase {
    /// The thread is launched and is setting up its connection.
    Starting,
    /// The worker has said that it is up, and its event loop runs.
    Running,
    /// The event loop has been told to stop, and the worker has said that it
    /// is down.
    ShuttingDown,
    /// The event loop has returned, or it never ran.
    Stopped,
}

/// The verdict of the startup handshake on the first thing seen on the
/// mailbox, `None` standing for a mailbox that closed with nothing in it.
/// Only the worker's own word that it is up counts as success.
pub open spec fn handshake(first: Option<CmdView>) -> Result<(), StartupErrorView> {
    match first {
        Some(CmdView::IsUp) => Ok(()),
        Some(CmdView::Msg(text)) => Err(StartupErrorView::Reported(text)),
        Some(other) => Err(StartupErrorView::Unexpected(other)),
        None => Err(StartupErrorView::Closed),
    }
}

/// The first message of a worker, given the text of the failure where
/// setting up its connection failed.
pub open spec fn opening(failure: Option<Seq<char>>) -> CmdView {
    match failure {
        None => CmdView::IsUp,
        Some(text) => CmdView::Msg(text),
    }
}

/// The phase of a worker once it has sent its first message: it runs its
/// event loop only where the connection stands.
pub open spec fn phase_after_opening(failure: Option<Seq<char>>) -> Phase {
    match failure {
        None => Phase::Running,
        Some(_) => Phase::Stopped,
    }
}

/// The reaction of a worker in `phase` to one command on its control
/// channel: the phase it goes to, and what it puts on its mailbox. Only a
/// request to terminate that finds the event loop running has any effect.
pub open spec fn react(phase: Phase, cmd: CmdView) -> (Phase, Option<CmdView>) {
    if phase == Phase::Running && cmd is Terminate {
        (Phase::ShuttingDown, Some(CmdView::IsDown))
    } else {
        (phase, None)
    }
}

/// The phase of a worker that was in `phase` and has reacted to `controls`,
/// one after the other.
pub open spec fn phase_after(phase: Phase, controls: Seq<CmdView>) -> Phase
    decreases controls.len(),
{
    if controls.len() == 0 {
        phase
    } else {
        phase_after(react(phase, controls[0]).0, controls.skip(1))
    }
}

/// What a worker that was in `phase` puts on its mailbox while it reacts to
/// `controls`, one after the other.
pub open spec fn emitted(phase: Phase, controls: Seq<CmdView>) -> Seq<CmdView>
    decreases controls.len(),
{
    if controls.len() == 0 {
        Seq::empty()
    } else {
        let (next, answer) = react(phase, controls[0]);
        match answer {
            Some(cmd) => seq![cmd] + emitted(next, controls.skip(1)),
            None => emitted(next, controls.skip(1)),
        }
    }
}

/// All that a worker ever puts on its mailbox: its first message, then what
/// the commands on its control channel draw from it.
pub open spec fn mailbox(failure: Option<Seq<char>>, controls: Seq<CmdView>) -> Seq<CmdView> {
    seq![opening(failure)] + emitted(phase_after_opening(failure), controls)
}

/// The text of a failed attempt to connect, if it failed.
pub open spec fn failure_of(connected: Result<(), String>) -> Option<Seq<char>> {
    match connected {
        Ok(_) => None,
        Err(text) => Some(text@),
    }
}

/// The result of a handshake as a mathematical value.
pub open spec fn verdict_of(started: Result<(), StartupError>) -> Result<(), StartupErrorView> {
    match started {
        Ok(_) => Ok(()),
        Err(error) => Err(error@),
    }
}

/// A worker as its own thread sees it.
#[derive(Debug)]
pub struct Pipewire {
    phase: Phase,
}

impl View for Pipewire {
    type V = Phase;

    closed spec fn view(&self) -> Phase {
        self.phase
    }
}

impl Pipewire {
    /// A worker whose thread has just been launched.
    pub fn new() -> (pw: Pipewire)
        ensures
            pw@ == Phase::Starting,
    {
        Pipewire { phase: Phase::Starting }
    }

    /// The phase of this worker.
    pub fn phase(&self) -> (phase: Phase)
        ensures
            phase == self@,
    {
        self.phase
    }

    /// The startup handshake, on the side of the thread that launched the
    /// worker. `first` is what that thread found when it waited on the
    /// mailbox: the first message, or `None` where the mailbox closed
    /// without one. The worker counts as started if and only if that message
    /// is its word that it is up; a report of the worker is handed on as the
    /// error, and so is any other message.
    pub fn spawn(first: Option<Cmd>) -> (started: Result<(), StartupError>)
        ensures
            started is Ok <==> first == Some(Cmd::IsUp),
            verdict_of(started) == handshake(first.deep_view()),
    {
        match first {
            Some(Cmd::IsUp) => Ok(()),
            Some(Cmd::Msg(text)) => Err(StartupError::Reported(text)),
            Some(other) => Err(StartupError::Unexpected(other)),
            None => Err(StartupError::Closed),
        }
    }

    /// The opening move of the worker's thread, once it has tried to set up
    /// its connection. Where that went well the worker says that it is up,
    /// and is to run its event loop. Where it failed the worker reports the
    /// failure in place of saying that it is up, and is never to run the
    /// event loop.
    pub fn worker(connected: Result<(), String>) -> (opened: (Pipewire, Cmd))
        ensures
            opened.0@ == phase_after_opening(failure_of(connected)),
            opened.1@ == opening(failure_of(connected)),
    {
        let mut pw = Pipewire::new();
        match connected {
            Ok(_) => {
                pw.phase = Phase::Running;
                (pw, Cmd::IsUp)
            },
            Err(text) => {
                pw.phase = Phase::Stopped;
                (pw, Cmd::Msg(text))
            },
        }
    }

    /// The reaction to one command on the control channel. The first request
    /// to terminate that finds the event loop running is answered with the
    /// word that the worker is down, and the event loop is to be told to
    /// stop. Every later request, and every other command, is passed over.
    pub fn handle_control(&mut self, cmd: &Cmd) -> (answer: Option<Cmd>)
        ensures
            final(self)@ == react(old(self)@, cmd@).0,
            answer.deep_view() == react(old(self)@, cmd@).1,
    {
        match (self.phase, cmd) {
            (Phase::Running, Cmd::Terminate) => {
                self.phase = Phase::ShuttingDown;
                Some(Cmd::IsDown)
            },
            _ => None,
        }
    }

    /// Notes that the event loop has returned.
    pub fn finish(&mut self)
        ensures
            final(self)@ == Phase::Stopped,
    {
        self.phase = Phase::Stopped;
    }
}

/// A worker whose event loop does not run says nothing more, whatever it is
/// sent, and stays in its phase.
pub proof fn lemma_quiet_unless_running(phase: Phase, controls: Seq<CmdView>)
    requires
        phase != Phase::Running,
    ensures
        emitted(phase, controls) == Seq::<CmdView>::empty(),
        phase_after(phase, controls) == phase,
    decreases controls.len(),
{
    if controls.len() > 0 {
        lemma_quiet_unless_running(phase, controls.skip(1));
    }
}

/// A running worker that is sent any commands at all says that it is down
/// exactly once if a request to terminate is among them, however many there
/// are of those, and says nothing if there is none. It says nothing else.
pub proof fn lemma_terminate_answered_once(controls: Seq<CmdView>)
    ensures
        controls.contains(CmdView::Terminate) ==> {
            &&& emitted(Phase::Running, controls) == seq![CmdView::IsDown]
            &&& phase_after(Phase::Running, controls) == Phase::ShuttingDown
        },
        !controls.contains(CmdView::Terminate) ==> {
            &&& emitted(Phase::Running, controls) == Seq::<CmdView>::empty()
            &&& phase_after(Phase::Running, controls) == Phase::Running
        },
    decreases controls.len(),
{
    if controls.len() > 0 {
        let rest = controls.skip(1);
        if controls[0] is Terminate {
            lemma_quiet_unless_running(Phase::ShuttingDown, rest);
        } else {
            lemma_terminate_answered_once(rest);
            if rest.contains(CmdView::Terminate) {
                let at = choose|i: int| 0 <= i < rest.len() && rest[i] == CmdView::Terminate;
                assert(controls[at + 1] == rest[at]);
            }
            if controls.contains(CmdView::Terminate) {
                let at = choose|i: int|
                    0 <= i < controls.len() && controls[i] == CmdView::Terminate;
                assert(rest[at - 1] == controls[at]);
            }
        }
    }
}

/// The whole of a worker's mailbox, from the launch of its thread to its
/// end. A worker that fails to connect reports that and nothing else. One
/// that connects says first that it is up, once; it says that it is down
/// after that, once and as its last word, if it was asked to terminate, and
/// not at all if it was not.
pub proof fn lemma_mailbox(failure: Option<Seq<char>>, controls: Seq<CmdView>)
    ensures
        failure matches Some(text) ==> mailbox(failure, controls) == seq![CmdView::Msg(text)],
        failure is None && controls.contains(CmdView::Terminate) ==> mailbox(failure, controls)
            == seq![CmdView::IsUp, CmdView::IsDown],
        failure is None && !controls.contains(CmdView::Terminate) ==> mailbox(failure, controls)
            == seq![CmdView::IsUp],
{
    match failure {
        Some(_) => {
            lemma_quiet_unless_running(Phase::Stopped, controls);
        },
        None => {
            lemma_terminate_answered_once(controls);
        },
    }
}

} // verus!

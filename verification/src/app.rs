//! The state machine behind the screen: it takes what the bus delivers, one
//! command at a time, keeps the counter, the flags and the message log, hands
//! back what is to be sent to the worker, and says what is to be drawn.

use crate::cmds::{Cmd, CmdView, KeyCode, KeyEvent};
use vstd::prelude::*;

verus! {

/// How many messages the log shows above its newest one.
pub const VISIBLE_MESSAGES: usize = 8;

/// The settings of the state machine.
#[derive(Clone, Copy, Debug, PartialEq, Eq, Structural)]
pub struct Config {
    /// How long one wait on the bus may last, in milliseconds.
    pub tick_millis: u64,
}

impl Default for Config {
    /// One tick per second.
    fn default() -> (config: Config)
        ensures
            config.tick_millis == 1000,
    {
        Config { tick_millis: 1000 }
    }
}

/// A breach of the protocol between the screen and the worker. There is no
/// way on from one: the dashboard has to end with a diagnostic.
#[derive(Clone, Copy, Debug, PartialEq, Eq, Structural)]
pub enum Violation {
    /// The worker went down though nobody had asked it to.
    UnexpectedDown,
    /// The bus closed while its producers were taken to be alive.
    BusClosed,
}

/// The outcome of one wait on the bus.
#[derive(Clone, Debug, PartialEq, Eq)]
pub enum Poll {
    /// A command came.
    Message(Cmd),
    /// The tick ran out with nothing on the bus.
    Timeout,
    /// The bus is closed.
    Closed,
}

/// The outcome of one wait on the bus as a mathematical value.
pub enum PollView {
    Message(CmdView),
    Timeout,
    Closed,
}

impl View for Poll {
    type V = PollView;

    open spec fn view(&self) -> PollView {
        match *self {
            Poll::Message(cmd) => PollView::Message(cmd@),
            Poll::Timeout => PollView::Timeout,
            Poll::Closed => PollView::Closed,
        }
    }
}

/// `a - b`, or zero where `b` is the larger.
pub open spec fn clamped_difference(a: int, b: int) -> int {
    if a < b {
        0
    } else {
        a - b
    }
}

/// Subtraction that stops at zero instead of wrapping.
pub fn clamped_subtraction(a: usize, b: usize) -> (r: usize)
    ensures
        r == clamped_difference(a as int, b as int),
{
    if a < b {
        0
    } else {
        a - b
    }
}

/// Takes a number and the bounds of a range, the upper one first. It changes
/// nothing and gives nothing back: the dashboard holds no number to a range.
#[allow(unused_variables)]
pub fn clamp(n: usize, ma: usize, mi: usize) {
}

/// The index of the first message that the log shows, of `len` messages: the
/// newest and the `VISIBLE_MESSAGES` before it are on the screen.
pub open spec fn window_start(len: int) -> int {
    clamped_difference(len, VISIBLE_MESSAGES + 1)
}

/// The placeholders of `count` sources: their numbers, from zero up.
pub open spec fn placeholders(count: nat) -> Seq<usize> {
    Seq::new(count, |i: int| i as usize)
}

/// What a key does to the counter: the right arrow adds one, the left arrow
/// takes one off unless the counter is at zero, and no other key touches it.
pub open spec fn counted(counter: nat, code: KeyCode) -> nat {
    match code {
        KeyCode::Right => counter + 1,
        KeyCode::Left => if counter > 0 {
            (counter - 1) as nat
        } else {
            0
        },
        _ => counter,
    }
}

/// The counter after a run of keys.
pub open spec fn counted_all(counter: nat, codes: Seq<KeyCode>) -> nat
    decreases codes.len(),
{
    if codes.len() == 0 {
        counter
    } else {
        counted_all(counted(counter, codes[0]), codes.skip(1))
    }
}

/// Whether a key asks for the end: `q` does, and so does `z`.
pub open spec fn asks_for_end(code: KeyCode) -> bool {
    code == KeyCode::Char('q') || code == KeyCode::Char('z')
}

/// What a key has the state machine send to the worker: a request to
/// terminate for a key that asks for the end, and nothing for any other.
pub open spec fn sent_on_key(code: KeyCode) -> Option<CmdView> {
    if asks_for_end(code) {
        Some(CmdView::Terminate)
    } else {
        None
    }
}

/// The state machine as a mathematical value.
pub struct AppView {
    /// The number of sources to show.
    pub counter: nat,
    /// Whether this state machine has asked the worker to shut down.
    pub want_exit: bool,
    /// Whether the dashboard is to end.
    pub exit: bool,
    /// The idle flag.
    pub idle: bool,
    /// The placeholders of the sources, as last worked out.
    pub sources: Seq<usize>,
    /// The message log, oldest first.
    pub messages: Seq<Seq<char>>,
    /// The settings.
    pub config: Config,
}

impl AppView {
    /// The state at the start: one source counted and none worked out yet,
    /// idle, a log of one line, and no wish to end.
    pub open spec fn initial(config: Config) -> AppView {
        AppView {
            counter: 1,
            want_exit: false,
            exit: false,
            idle: true,
            sources: Seq::empty(),
            messages: seq!["App initialized"@],
            config,
        }
    }

    /// This state with one more line at the end of the log.
    pub open spec fn logged(self, line: Seq<char>) -> AppView {
        AppView { messages: self.messages.push(line), ..self }
    }

    /// This state with the placeholders worked out anew from the counter.
    pub open spec fn refreshed(self) -> AppView {
        AppView { sources: placeholders(self.counter), ..self }
    }

    /// The state after a key: `q` and `z` ask for the end, `i` turns the idle
    /// flag over, `m` logs a line, the arrows move the counter.
    pub open spec fn on_key(self, code: KeyCode) -> AppView {
        if asks_for_end(code) {
            AppView { want_exit: true, ..self }
        } else if code == KeyCode::Char('i') {
            AppView { idle: !self.idle, ..self }
        } else if code == KeyCode::Char('m') {
            self.logged("Pressed a key"@)
        } else {
            AppView { counter: counted(self.counter, code), ..self }
        }
    }

    /// The state after a run of keys.
    pub open spec fn on_keys(self, codes: Seq<KeyCode>) -> AppView
        decreases codes.len(),
    {
        if codes.len() == 0 {
            self
        } else {
            self.on_key(codes[0]).on_keys(codes.skip(1))
        }
    }

    /// Whether the machine has room for what a key does to the counter:
    /// only the right arrow needs any, and it has it unless the counter is
    /// the largest number that the machine can hold.
    pub open spec fn has_room_for_key(self, code: KeyCode) -> bool {
        code == KeyCode::Right ==> self.counter < usize::MAX
    }

    /// Whether the machine has room for what a command does to the counter.
    pub open spec fn has_room_for_cmd(self, cmd: CmdView) -> bool {
        cmd matches CmdView::KeyPress(key) ==> self.has_room_for_key(key.code)
    }

    /// Whether the machine has room for what one wait on the bus does to the
    /// counter.
    pub open spec fn has_room_for(self, poll: PollView) -> bool {
        poll matches PollView::Message(cmd) ==> self.has_room_for_cmd(cmd)
    }

    /// Whether a command breaks the protocol in this state. Only the word
    /// that the worker is down can, where this state machine has not asked
    /// for that.
    pub open spec fn violated_by(self, cmd: CmdView) -> bool {
        cmd is IsDown && !self.want_exit
    }

    /// The state after a command that breaks no protocol. The worker's word
    /// that it is down, once asked for, is logged and ends the dashboard. A
    /// pressed key acts as `on_key` says, a line of text goes to the log, and
    /// the other commands change nothing.
    pub open spec fn on_cmd(self, cmd: CmdView) -> AppView {
        match cmd {
            CmdView::Terminate => self,
            CmdView::IsUp => self,
            CmdView::IsDown => AppView { exit: true, ..self.logged("Pipewire went down properly"@) },
            CmdView::KeyPress(key) => self.on_key(key.code),
            CmdView::Msg(text) => self.logged(text),
        }
    }

    /// What a command has the state machine send to the worker.
    pub open spec fn sent_on_cmd(cmd: CmdView) -> Option<CmdView> {
        match cmd {
            CmdView::KeyPress(key) => sent_on_key(key.code),
            _ => None,
        }
    }

    /// Whether one wait on the bus ends in a breach of the protocol, and in
    /// which.
    pub open spec fn breach(self, poll: PollView) -> Option<Violation> {
        match poll {
            PollView::Message(cmd) => if self.violated_by(cmd) {
                Some(Violation::UnexpectedDown)
            } else {
                None
            },
            PollView::Timeout => None,
            PollView::Closed => Some(Violation::BusClosed),
        }
    }

    /// The state after one wait on the bus that ended in no breach: the
    /// command, if one came, is dealt with, and the placeholders are worked
    /// out anew.
    pub open spec fn updated(self, poll: PollView) -> AppView {
        match poll {
            PollView::Message(cmd) => self.on_cmd(cmd).refreshed(),
            _ => self.refreshed(),
        }
    }

    /// What one wait on the bus has the state machine send to the worker.
    pub open spec fn sent_on_poll(poll: PollView) -> Option<CmdView> {
        match poll {
            PollView::Message(cmd) => Self::sent_on_cmd(cmd),
            _ => None,
        }
    }

    /// The state in which the main loop leaves the state machine when its
    /// waits on the bus end as `polls` say: the loop takes one turn for each,
    /// and stops before the turn that finds the dashboard at its end or
    /// runs into a breach of the protocol.
    pub open spec fn after_polls(self, polls: Seq<PollView>) -> AppView
        decreases polls.len(),
    {
        if polls.len() == 0 || self.exit || self.breach(polls[0]) is Some {
            self
        } else {
            self.updated(polls[0]).after_polls(polls.skip(1))
        }
    }
}

/// The press of a key that asks for the end.
pub open spec fn is_quit_key(poll: PollView) -> bool {
    poll matches PollView::Message(CmdView::KeyPress(key)) && asks_for_end(key.code)
}

/// What the renderer is given to draw.
#[derive(Clone, Debug, PartialEq, Eq)]
pub struct RenderModel {
    /// The messages that the log shows, oldest first.
    pub messages: Vec<String>,
    /// The placeholders of the sources.
    pub sources: Vec<usize>,
    /// The counter.
    pub counter: usize,
}

/// The state machine behind the screen.
#[derive(Debug)]
pub struct App {
    counter: usize,
    want_exit: bool,
    exit: bool,
    idle: bool,
    sources: Vec<usize>,
    messages: Vec<String>,
    config: Config,
}

impl View for App {
    type V = AppView;

    closed spec fn view(&self) -> AppView {
        AppView {
            counter: self.counter as nat,
            want_exit: self.want_exit,
            exit: self.exit,
            idle: self.idle,
            sources: self.sources@,
            messages: self.messages.deep_view(),
            config: self.config,
        }
    }
}

impl Default for App {
    /// The state machine at the start, with the default settings.
    fn default() -> (app: App)
        ensures
            app@ == AppView::initial(Config { tick_millis: 1000 }),
    {
        App::new(Config::default())
    }
}

impl App {
    /// The state machine at the start: one source, idle, a log that says so,
    /// and no wish to end.
    pub fn new(config: Config) -> (app: App)
        ensures
            app@ == AppView::initial(config),
    {
        let mut messages: Vec<String> = Vec::new();
        messages.push("App initialized".to_string());
        let app = App {
            counter: 1,
            want_exit: false,
            exit: false,
            idle: true,
            sources: Vec::new(),
            messages,
            config,
        };
        assert(app@.messages =~= seq!["App initialized"@]);
        app
    }

    /// The number of sources to show.
    pub fn counter(&self) -> (counter: usize)
        ensures
            counter == self@.counter,
    {
        self.counter
    }

    /// Whether this state machine has asked the worker to shut down.
    pub fn wants_exit(&self) -> (want_exit: bool)
        ensures
            want_exit == self@.want_exit,
    {
        self.want_exit
    }

    /// Whether the dashboard is to end.
    pub fn should_exit(&self) -> (exit: bool)
        ensures
            exit == self@.exit,
    {
        self.exit
    }

    /// The idle flag.
    pub fn is_idle(&self) -> (idle: bool)
        ensures
            idle == self@.idle,
    {
        self.idle
    }

    /// The message log, oldest first.
    pub fn messages(&self) -> (messages: &Vec<String>)
        ensures
            messages.deep_view() == self@.messages,
    {
        &self.messages
    }

    /// The placeholders of the sources, as last worked out.
    pub fn sources(&self) -> (sources: &Vec<usize>)
        ensures
            sources@ == self@.sources,
    {
        &self.sources
    }

    /// The settings that this state machine was made with.
    pub fn config(&self) -> (config: Config)
        ensures
            config == self@.config,
    {
        self.config
    }

    /// Puts one line at the end of the log.
    fn log(&mut self, line: String)
        ensures
            final(self)@ == old(self)@.logged(line@),
    {
        self.messages.push(line);
        assert(self.messages.deep_view() =~= old(self).messages.deep_view().push(line@));
    }

    /// Asks for the end: from now on the worker's word that it is down is
    /// expected. Returns the request that is to go to the worker.
    pub fn exit(&mut self) -> (request: Cmd)
        ensures
            request == Cmd::Terminate,
            final(self)@ == (AppView { want_exit: true, ..old(self)@ }),
    {
        self.want_exit = true;
        Cmd::Terminate
    }

    /// Adds one to the counter, whatever it is: the counter has no ceiling of
    /// its own. All that is asked is that the machine can hold the result.
    pub fn increment_counter(&mut self)
        requires
            old(self)@.has_room_for_key(KeyCode::Right),
        ensures
            final(self)@ == (AppView { counter: old(self)@.counter + 1, ..old(self)@ }),
    {
        self.counter += 1;
    }

    /// Takes one off the counter, unless it is at zero: then nothing happens.
    pub fn decrement_counter(&mut self)
        ensures
            final(self)@ == (AppView {
                counter: counted(old(self)@.counter, KeyCode::Left),
                ..old(self)@
            }),
    {
        if self.counter > 0 {
            self.counter -= 1;
        }
    }

    /// Deals with one key. Returns what is to be sent to the worker: a
    /// request to terminate for `q` and for `z`, each of which also notes
    /// the wish to end, and nothing for any other key.
    pub fn handle_key_event(&mut self, key_event: KeyEvent) -> (sent: Option<Cmd>)
        requires
            old(self)@.has_room_for_key(key_event.code),
        ensures
            final(self)@ == old(self)@.on_key(key_event.code),
            sent.deep_view() == sent_on_key(key_event.code),
    {
        match key_event.code {
            KeyCode::Char('q') => Some(self.exit()),
            KeyCode::Char('i') => {
                self.idle = !self.idle;
                None
            },
            KeyCode::Char('m') => {
                self.log("Pressed a key".to_string());
                None
            },
            KeyCode::Char('z') => Some(self.exit()),
            KeyCode::Left => {
                self.decrement_counter();
                None
            },
            KeyCode::Right => {
                self.increment_counter();
                None
            },
            _ => None,
        }
    }

    /// Deals with one command from the bus. Returns what is to be sent to
    /// the worker, or the breach of the protocol that the command amounts
    /// to; in that case nothing has changed.
    pub fn handle_cmd(&mut self, cmd: Cmd) -> (done: Result<Option<Cmd>, Violation>)
        requires
            old(self)@.has_room_for_cmd(cmd@),
        ensures
            old(self)@.violated_by(cmd@) ==> final(self)@ == old(self)@,
            old(self)@.violated_by(cmd@) ==> done == Err::<Option<Cmd>, Violation>(
                Violation::UnexpectedDown,
            ),
            !old(self)@.violated_by(cmd@) ==> final(self)@ == old(self)@.on_cmd(cmd@),
            !old(self)@.violated_by(cmd@) ==> (done matches Ok(sent) && sent.deep_view()
                == AppView::sent_on_cmd(cmd@)),
            final(self)@.exit <==> old(self)@.exit || (cmd@ is IsDown && old(self)@.want_exit),
    {
        match cmd {
            Cmd::Terminate => Ok(None),
            Cmd::IsUp => Ok(None),
            Cmd::IsDown => {
                if self.want_exit {
                    self.log("Pipewire went down properly".to_string());
                    self.exit = true;
                    Ok(None)
                } else {
                    Err(Violation::UnexpectedDown)
                }
            },
            Cmd::KeyPress(key) => Ok(self.handle_key_event(key)),
            Cmd::Msg(text) => {
                self.log(text);
                Ok(None)
            },
        }
    }

    /// Works the placeholders out anew from the counter.
    fn refresh(&mut self)
        ensures
            final(self)@ == old(self)@.refreshed(),
    {
        let mut sources: Vec<usize> = Vec::new();
        let mut next: usize = 0;
        while next < self.counter
            invariant
                next <= self.counter,
                sources@ == placeholders(next as nat),
            decreases self.counter - next,
        {
            sources.push(next);
            next = next + 1;
        }
        self.sources = sources;
    }

    /// One turn of the main loop, after the wait on the bus. A command is
    /// dealt with as `handle_cmd` does; a tick that ran out is no error; a
    /// closed bus is a breach of the protocol. Unless there was a breach, the
    /// placeholders are then worked out anew. Returns what is to be sent to
    /// the worker, or the breach; in that case nothing has changed.
    pub fn update(&mut self, poll: Poll) -> (done: Result<Option<Cmd>, Violation>)
        requires
            old(self)@.has_room_for(poll@),
        ensures
            old(self)@.breach(poll@) is Some ==> final(self)@ == old(self)@,
            old(self)@.breach(poll@) is Some ==> (done matches Err(violation) && Some(violation)
                == old(self)@.breach(poll@)),
            old(self)@.breach(poll@) is None ==> final(self)@ == old(self)@.updated(poll@),
            old(self)@.breach(poll@) is None ==> (done matches Ok(sent) && sent.deep_view()
                == AppView::sent_on_poll(poll@)),
            final(self)@.exit <==> old(self)@.exit || (poll@ == PollView::Message(CmdView::IsDown)
                && old(self)@.want_exit),
    {
        let done = match poll {
            Poll::Message(cmd) => self.handle_cmd(cmd),
            Poll::Timeout => Ok(None),
            Poll::Closed => Err(Violation::BusClosed),
        };
        if done.is_ok() {
            self.refresh();
        }
        done
    }

    /// What the renderer is to draw: the newest messages of the log, as many
    /// as the screen shows, the placeholders and the counter.
    pub fn render(&self) -> (model: RenderModel)
        ensures
            model.messages.deep_view() == self@.messages.skip(
                window_start(self@.messages.len() as int),
            ),
            model.sources@ == self@.sources,
            model.counter == self@.counter,
    {
        let len: usize = self.messages.len();
        let start: usize = clamped_subtraction(clamped_subtraction(len, VISIBLE_MESSAGES), 1);
        let mut messages: Vec<String> = Vec::new();
        let mut at: usize = start;
        while at < len
            invariant
                start <= at <= len == self.messages.len(),
                messages@.len() == at - start,
                forall|k: int| 0 <= k < messages@.len() ==> messages@[k]@ == self.messages@[start + k]@,
            decreases len - at,
        {
            messages.push(self.messages[at].clone());
            at = at + 1;
        }
        let mut sources: Vec<usize> = Vec::new();
        let mut copied: usize = 0;
        while copied < self.sources.len()
            invariant
                copied <= self.sources.len(),
                sources@ == self.sources@.take(copied as int),
            decreases self.sources.len() - copied,
        {
            sources.push(self.sources[copied]);
            copied = copied + 1;
        }
        RenderModel { messages, sources, counter: self.counter }
    }
}

/// Whatever the run of keys, the counter of the state machine moves as
/// `counted_all` says: each right arrow adds exactly one, each left arrow
/// takes exactly one off or, at zero, nothing, and nothing else that a key
/// does touches the counter.
pub proof fn lemma_counter_follows_keys(state: AppView, codes: Seq<KeyCode>)
    ensures
        state.on_keys(codes).counter == counted_all(state.counter, codes),
    decreases codes.len(),
{
    if codes.len() > 0 {
        lemma_counter_follows_keys(state.on_key(codes[0]), codes.skip(1));
    }
}

/// Wherever a key stands in a run of keys, it moves the counter as `counted`
/// says, from where the keys before it have left the counter.
pub proof fn lemma_counter_steps(counter: nat, codes: Seq<KeyCode>, i: int)
    requires
        0 <= i < codes.len(),
    ensures
        counted_all(counter, codes.take(i + 1)) == counted(
            counted_all(counter, codes.take(i)),
            codes[i],
        ),
    decreases i,
{
    let upto = codes.take(i + 1);
    let first = counted(counter, codes[0]);
    if i == 0 {
        assert(counted_all(first, upto.skip(1)) == first);
    } else {
        let rest = codes.skip(1);
        lemma_counter_steps(first, rest, i - 1);
        assert(upto.skip(1) =~= rest.take(i));
        assert(codes.take(i).skip(1) =~= rest.take(i - 1));
    }
}

/// The counter has no upper limit: after `presses` right arrows it is that
/// much higher.
pub proof fn lemma_increments_add_up(counter: nat, presses: nat)
    ensures
        counted_all(counter, Seq::new(presses, |i: int| KeyCode::Right)) == counter + presses,
    decreases presses,
{
    let codes = Seq::new(presses, |i: int| KeyCode::Right);
    if presses > 0 {
        lemma_increments_add_up(counter + 1, (presses - 1) as nat);
        assert(codes.skip(1) =~= Seq::new((presses - 1) as nat, |i: int| KeyCode::Right));
    }
}

/// The counter stops at zero: after `presses` left arrows it is that much
/// lower, or at zero where there were more presses than it had.
pub proof fn lemma_decrements_stop_at_zero(counter: nat, presses: nat)
    ensures
        counted_all(counter, Seq::new(presses, |i: int| KeyCode::Left)) == clamped_difference(
            counter as int,
            presses as int,
        ),
    decreases presses,
{
    let codes = Seq::new(presses, |i: int| KeyCode::Left);
    if presses > 0 {
        lemma_decrements_stop_at_zero(counted(counter, KeyCode::Left), (presses - 1) as nat);
        assert(codes.skip(1) =~= Seq::new((presses - 1) as nat, |i: int| KeyCode::Left));
    }
}

/// The dashboard never ends unasked: a main loop that starts in a state
/// where the end, if it has come, was asked for, stops in such a state.
pub proof fn lemma_exit_only_when_asked(state: AppView, polls: Seq<PollView>)
    requires
        state.exit ==> state.want_exit,
    ensures
        state.after_polls(polls).exit ==> state.after_polls(polls).want_exit,
    decreases polls.len(),
{
    if !(polls.len() == 0 || state.exit || state.breach(polls[0]) is Some) {
        lemma_exit_only_when_asked(state.updated(polls[0]), polls.skip(1));
    }
}

/// The dashboard ends on the worker's word only: where the main loop brings
/// the end about, the bus has delivered the word that the worker is down.
pub proof fn lemma_exit_only_on_worker_down(state: AppView, polls: Seq<PollView>)
    requires
        !state.exit,
        state.after_polls(polls).exit,
    ensures
        polls.contains(PollView::Message(CmdView::IsDown)),
    decreases polls.len(),
{
    let next = state.updated(polls[0]);
    if !next.exit {
        let rest = polls.skip(1);
        lemma_exit_only_on_worker_down(next, rest);
        let at = choose|i: int| 0 <= i < rest.len() && rest[i] == PollView::Message(CmdView::IsDown);
        assert(polls[at + 1] == rest[at]);
    }
}

/// The wish to end comes from a key that asks for it, and from nothing
/// else: where the main loop leaves the state machine with that wish and
/// did not find it so, the bus has delivered a press of such a key, for
/// which the state machine handed out a request to terminate.
pub proof fn lemma_asked_only_by_quit_key(state: AppView, polls: Seq<PollView>)
    requires
        !state.want_exit,
        state.after_polls(polls).want_exit,
    ensures
        exists|i: int|
            0 <= i < polls.len() && is_quit_key(#[trigger] polls[i]) && AppView::sent_on_poll(
                polls[i],
            ) == Some(CmdView::Terminate),
    decreases polls.len(),
{
    let next = state.updated(polls[0]);
    if next.want_exit {
        assert(is_quit_key(polls[0]));
    } else {
        let rest = polls.skip(1);
        lemma_asked_only_by_quit_key(next, rest);
        let at = choose|i: int|
            0 <= i < rest.len() && is_quit_key(#[trigger] rest[i]) && AppView::sent_on_poll(
                rest[i],
            ) == Some(CmdView::Terminate);
        assert(polls[at + 1] == rest[at]);
    }
}

} // verus!

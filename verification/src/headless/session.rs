//! A print session, from the first command to the exit code.
//!
//! [`Session`] is told what happened and says what to do: which command to send,
//! which event to write, what to report, and when to exit with which code.

use crate::agent::types::{
    stored_reason, LaunchSettingsView, PromptChunk, PromptChunkView, SessionLaunchSettings,
    TerminalReason,
};
use crate::agent::wire::{BridgeCommand, BridgeEvent, BridgeView, CommandView, EnvelopeView};
use crate::headless::driver::{
    connect_phase, connect_step, exit_code, init_phase, init_step, is_interactive, stream_step,
    streaming_phase, HeadlessExit, PhaseStep, PhaseStepView, Received, ReceivedView, StreamInput,
    StreamInputView, StreamStep,
};
use crate::headless::watchdog::WatchdogTick;
use crate::json::{Json, Tree};
use crate::text::{concat, copied};
use vstd::prelude::*;

verus! {

/// How far a session has got.
#[derive(Debug, PartialEq, Eq)]
pub enum SessionPhase {
    /// The bridge is being asked to start.
    Starting,
    /// The bridge is starting.
    AwaitingInit,
    /// The bridge is being asked for a session.
    Creating,
    /// The session is being set up.
    AwaitingConnect,
    /// The prompt of the session is being sent.
    Prompting(String),
    /// The turn of the session runs.
    Streaming(String),
    /// The session is over.
    Ended,
}

/// What happened.
#[derive(Debug, PartialEq, Eq)]
pub enum SessionInput {
    /// The session begins.
    Begin,
    /// The last command was sent.
    Sent,
    /// The last command could not be sent.
    SendFailed(String),
    /// Something was received, or waiting for it came to an end.
    Received(Received),
    /// A timer was looked at.
    Tick(WatchdogTick),
    /// An event could not be written: `broken_pipe` where nobody reads any more.
    EmitFailed { broken_pipe: bool, message: String },
}

/// What to do.
#[derive(Debug, PartialEq, Eq)]
pub enum SessionAction {
    /// Send a command, and tell whether that worked.
    Send(BridgeCommand),
    /// Ask the bridge to cancel the turn of a session; never mind whether that works.
    Cancel(String),
    /// Start the timers.
    StartWatchdog,
    /// Start the idle window anew.
    NoteActivity,
    /// Write an event, and tell where that fails.
    Emit(BridgeEvent),
    /// Write a line to standard error.
    Report(String),
    /// Finish writing.
    FinishOutput,
    /// Shut the bridge down and exit with a code.
    Exit(i32),
}

/// The content of a [`SessionPhase`].
pub enum SessionPhaseView {
    Starting,
    AwaitingInit,
    Creating,
    AwaitingConnect,
    Prompting(Seq<char>),
    Streaming(Seq<char>),
    Ended,
}

/// The content of a [`SessionInput`].
pub enum SessionInputView {
    Begin,
    Sent,
    SendFailed(Seq<char>),
    Received(ReceivedView),
    Tick(WatchdogTick),
    EmitFailed { broken_pipe: bool, message: Seq<char> },
}

/// The content of a [`SessionAction`].
pub enum SessionActionView {
    Send(CommandView),
    Cancel(Seq<char>),
    StartWatchdog,
    NoteActivity,
    Emit(BridgeView),
    Report(Seq<char>),
    FinishOutput,
    Exit(i32),
}

impl DeepView for SessionPhase {
    type V = SessionPhaseView;

    open spec fn deep_view(&self) -> SessionPhaseView {
        match self {
            SessionPhase::Starting => SessionPhaseView::Starting,
            SessionPhase::AwaitingInit => SessionPhaseView::AwaitingInit,
            SessionPhase::Creating => SessionPhaseView::Creating,
            SessionPhase::AwaitingConnect => SessionPhaseView::AwaitingConnect,
            SessionPhase::Prompting(id) => SessionPhaseView::Prompting(id@),
            SessionPhase::Streaming(id) => SessionPhaseView::Streaming(id@),
            SessionPhase::Ended => SessionPhaseView::Ended,
        }
    }
}

impl DeepView for SessionInput {
    type V = SessionInputView;

    open spec fn deep_view(&self) -> SessionInputView {
        match self {
            SessionInput::Begin => SessionInputView::Begin,
            SessionInput::Sent => SessionInputView::Sent,
            SessionInput::SendFailed(message) => SessionInputView::SendFailed(message@),
            SessionInput::Received(received) => SessionInputView::Received(received.deep_view()),
            SessionInput::Tick(tick) => SessionInputView::Tick(*tick),
            SessionInput::EmitFailed { broken_pipe, message } => SessionInputView::EmitFailed {
                broken_pipe: *broken_pipe,
                message: message@,
            },
        }
    }
}

impl DeepView for SessionAction {
    type V = SessionActionView;

    open spec fn deep_view(&self) -> SessionActionView {
        match self {
            SessionAction::Send(command) => SessionActionView::Send(command.deep_view()),
            SessionAction::Cancel(id) => SessionActionView::Cancel(id@),
            SessionAction::StartWatchdog => SessionActionView::StartWatchdog,
            SessionAction::NoteActivity => SessionActionView::NoteActivity,
            SessionAction::Emit(event) => SessionActionView::Emit(event.deep_view()),
            SessionAction::Report(message) => SessionActionView::Report(message@),
            SessionAction::FinishOutput => SessionActionView::FinishOutput,
            SessionAction::Exit(code) => SessionActionView::Exit(*code),
        }
    }
}

/// A print session.
#[derive(Debug, PartialEq, Eq)]
pub struct Session {
    pub cwd: String,
    pub prompt: String,
    /// The session to resume, if any.
    pub resume: Option<String>,
    pub launch_settings: SessionLaunchSettings,
    pub phase: SessionPhase,
    /// Whether somebody still reads what is written.
    pub emitting: bool,
}

/// The content of a [`Session`].
pub struct SessionView {
    pub cwd: Seq<char>,
    pub prompt: Seq<char>,
    pub resume: Option<Seq<char>>,
    pub launch_settings: LaunchSettingsView,
    pub phase: SessionPhaseView,
    pub emitting: bool,
}

impl DeepView for Session {
    type V = SessionView;

    open spec fn deep_view(&self) -> SessionView {
        SessionView {
            cwd: self.cwd@,
            prompt: self.prompt@,
            resume: self.resume.deep_view(),
            launch_settings: self.launch_settings.deep_view(),
            phase: self.phase.deep_view(),
            emitting: self.emitting,
        }
    }
}

/// The command that starts the bridge.
pub open spec fn initialize_command(state: SessionView) -> CommandView {
    CommandView::Initialize { cwd: state.cwd }
}

/// The command that asks for a session.
pub open spec fn create_command(state: SessionView) -> CommandView {
    CommandView::CreateSession {
        cwd: state.cwd,
        resume: state.resume,
        launch_settings: state.launch_settings,
    }
}

/// The command that sends the prompt, as one piece of text.
pub open spec fn prompt_command(state: SessionView, session_id: Seq<char>) -> CommandView {
    CommandView::Prompt {
        session_id,
        chunks: seq![PromptChunkView { kind: "text"@, value: Tree::Text(state.prompt) }],
    }
}

/// Writing an event, as long as somebody reads.
pub open spec fn emission(state: SessionView, event: BridgeView) -> Seq<SessionActionView> {
    if state.emitting {
        seq![SessionActionView::Emit(event)]
    } else {
        Seq::empty()
    }
}

/// The name of the command that a phase sends.
pub open spec fn command_name(phase: SessionPhaseView) -> Option<Seq<char>> {
    match phase {
        SessionPhaseView::Starting => Some("initialize"@),
        SessionPhaseView::Creating => Some("create_session"@),
        SessionPhaseView::Prompting(_) => Some("prompt"@),
        _ => None,
    }
}

/// What to report of how a turn ended: the reason, where it did not complete.
pub open spec fn end_report(exit: HeadlessExit) -> Seq<SessionActionView> {
    match exit {
        HeadlessExit::NonCompletedTerminal(reason) => seq![
            SessionActionView::Report(
                "error: terminal_reason="@ + match reason {
                    Some(r) => stored_reason(r),
                    None => "unknown"@,
                },
            ),
        ],
        _ => Seq::empty(),
    }
}

/// The end of a session while its turn runs.
pub open spec fn ending(exit: Option<HeadlessExit>) -> Seq<SessionActionView> {
    match exit {
        Some(e) => seq![SessionActionView::FinishOutput] + end_report(e) + seq![
            SessionActionView::Exit(exit_code(e)),
        ],
        None => Seq::empty(),
    }
}

/// The id of the session that an event sets up.
pub open spec fn session_named(event: BridgeView) -> Seq<char> {
    match event {
        BridgeView::Connected { session_id, .. } => session_id,
        BridgeView::SessionReplaced { session_id, .. } => session_id,
        _ => Seq::empty(),
    }
}

/// What to do while a turn runs, in order.
pub open spec fn stream_actions(
    state: SessionView,
    session_id: Seq<char>,
    event: Option<BridgeView>,
    step: StreamStep,
) -> Seq<SessionActionView> {
    let activity = if step.activity {
        seq![SessionActionView::NoteActivity]
    } else {
        Seq::empty()
    };
    let cancel = if step.cancel {
        seq![SessionActionView::Cancel(session_id)]
    } else {
        Seq::empty()
    };
    let emit = if step.emit && event is Some {
        emission(state, event->0)
    } else {
        Seq::empty()
    };
    activity + cancel + emit + ending(step.exit)
}

/// The event that was received, if one was.
pub open spec fn event_received(received: ReceivedView) -> Option<BridgeView> {
    match received {
        ReceivedView::Event(envelope) => Some(envelope.event),
        _ => None,
    }
}

/// The next state of a session and what to do in it.
///
/// The bridge is started, a session is set up, the prompt is sent, and the turn
/// runs until it ends; each step waits for the one before. Where a command cannot
/// be sent or a phase fails, the session ends with the code for that. Trouble with
/// writing never ends the session: where nobody reads any more, nothing more is
/// written; anything else is reported, unless the turn runs already. What does not
/// belong to the phase is passed over.
pub open spec fn session_step(state: SessionView, input: SessionInputView) -> (
    SessionView,
    Seq<SessionActionView>,
) {
    let none = Seq::<SessionActionView>::empty();
    let ended = SessionView { phase: SessionPhaseView::Ended, ..state };
    match (state.phase, input) {
        (SessionPhaseView::Ended, _) => (state, none),
        (_, SessionInputView::EmitFailed { broken_pipe, message }) => if broken_pipe {
            (SessionView { emitting: false, ..state }, none)
        } else if state.phase is Streaming {
            (state, none)
        } else {
            (
                state,
                seq![SessionActionView::Report("error: failed to write output: "@ + message)],
            )
        },
        (SessionPhaseView::Starting, SessionInputView::Begin) => (
            state,
            seq![SessionActionView::Send(initialize_command(state))],
        ),
        (SessionPhaseView::Starting, SessionInputView::Sent) => (
            SessionView { phase: SessionPhaseView::AwaitingInit, ..state },
            none,
        ),
        (SessionPhaseView::Creating, SessionInputView::Sent) => (
            SessionView { phase: SessionPhaseView::AwaitingConnect, ..state },
            none,
        ),
        (SessionPhaseView::Prompting(id), SessionInputView::Sent) => (
            SessionView { phase: SessionPhaseView::Streaming(id), ..state },
            seq![SessionActionView::StartWatchdog],
        ),
        (_, SessionInputView::SendFailed(message)) => match command_name(state.phase) {
            Some(name) => (
                ended,
                seq![
                    SessionActionView::Report("error: failed to send "@ + name + ": "@ + message),
                    SessionActionView::Exit(exit_code(HeadlessExit::ConnectionFailed)),
                ],
            ),
            None => (state, none),
        },
        (SessionPhaseView::AwaitingInit, SessionInputView::Received(received)) => match init_step(
            received,
        ) {
            PhaseStepView::Done(envelope) => (
                SessionView { phase: SessionPhaseView::Creating, ..state },
                emission(state, envelope.event) + seq![
                    SessionActionView::Send(create_command(state)),
                ],
            ),
            PhaseStepView::Exit(exit) => (ended, seq![SessionActionView::Exit(exit_code(exit))]),
            PhaseStepView::Wait => (state, none),
        },
        (SessionPhaseView::AwaitingConnect, SessionInputView::Received(received)) =>
        match connect_step(received) {
            PhaseStepView::Done(envelope) => {
                let id = session_named(envelope.event);
                (
                    SessionView { phase: SessionPhaseView::Prompting(id), ..state },
                    emission(state, envelope.event) + seq![
                        SessionActionView::Send(prompt_command(state, id)),
                    ],
                )
            },
            PhaseStepView::Exit(exit) => (ended, seq![SessionActionView::Exit(exit_code(exit))]),
            PhaseStepView::Wait => (state, none),
        },
        (SessionPhaseView::Streaming(id), SessionInputView::Received(received)) => {
            let step = stream_step(StreamInputView::Received(received));
            (
                if step.exit is Some {
                    ended
                } else {
                    state
                },
                stream_actions(state, id, event_received(received), step),
            )
        },
        (SessionPhaseView::Streaming(id), SessionInputView::Tick(tick)) => {
            let step = stream_step(StreamInputView::Tick(tick));
            (
                if step.exit is Some {
                    ended
                } else {
                    state
                },
                stream_actions(state, id, None, step),
            )
        },
        _ => (state, none),
    }
}

fn add_action(actions: &mut Vec<SessionAction>, action: SessionAction)
    ensures
        final(actions).deep_view() == old(actions).deep_view().push(action.deep_view()),
{
    let ghost before = actions.deep_view();
    let ghost one = action.deep_view();
    actions.push(action);
    assert(actions.deep_view() =~= before.push(one));
}

fn add_ending(actions: &mut Vec<SessionAction>, exit: Option<HeadlessExit>)
    ensures
        final(actions).deep_view() == old(actions).deep_view() + ending(exit),
{
    let ghost before = actions.deep_view();
    if let Some(exit) = exit {
        add_action(actions, SessionAction::FinishOutput);
        if let HeadlessExit::NonCompletedTerminal(reason) = exit {
            let name = match reason {
                Some(reason) => reason.as_stored(),
                None => "unknown",
            };
            add_action(actions, SessionAction::Report(concat("error: terminal_reason=", name)));
        }
        add_action(actions, SessionAction::Exit(exit.code()));
    }
    assert(actions.deep_view() =~= before + ending(exit));
}

impl Session {
    /// A session that has not begun.
    pub fn new(
        cwd: String,
        prompt: String,
        resume: Option<String>,
        launch_settings: SessionLaunchSettings,
    ) -> (r: Session)
        ensures
            r.deep_view() == (SessionView {
                cwd: cwd@,
                prompt: prompt@,
                resume: resume.deep_view(),
                launch_settings: launch_settings.deep_view(),
                phase: SessionPhaseView::Starting,
                emitting: true,
            }),
    {
        Session {
            cwd,
            prompt,
            resume,
            launch_settings,
            phase: SessionPhase::Starting,
            emitting: true,
        }
    }

    fn prompt_chunks(&self) -> (r: Vec<PromptChunk>)
        ensures
            r.deep_view() == seq![
                PromptChunkView { kind: "text"@, value: Tree::Text(self.prompt@) },
            ],
    {
        let mut chunks: Vec<PromptChunk> = Vec::new();
        chunks.push(
            PromptChunk { kind: "text".to_owned(), value: Json::Text(self.prompt.clone()) },
        );
        assert(chunks.deep_view() =~= seq![
            PromptChunkView { kind: "text"@, value: Tree::Text(self.prompt@) },
        ]);
        chunks
    }

    fn after_send_failure(&mut self, message: &str) -> (r: Vec<SessionAction>)
        requires
            !(old(self).deep_view().phase is Ended),
        ensures
            (final(self).deep_view(), r.deep_view()) == session_step(
                old(self).deep_view(),
                SessionInputView::SendFailed(message@),
            ),
    {
        let mut actions: Vec<SessionAction> = Vec::new();
        assert(actions.deep_view() =~= Seq::empty());
        let name = match &self.phase {
            SessionPhase::Starting => "initialize",
            SessionPhase::Creating => "create_session",
            SessionPhase::Prompting(_) => "prompt",
            _ => {
                return actions;
            },
        };
        let head = concat("error: failed to send ", name);
        let line = concat(concat(head.as_str(), ": ").as_str(), message);
        self.phase = SessionPhase::Ended;
        add_action(&mut actions, SessionAction::Report(line));
        add_action(&mut actions, SessionAction::Exit(HeadlessExit::ConnectionFailed.code()));
        assert(actions.deep_view() =~= seq![
            SessionActionView::Report(line@),
            SessionActionView::Exit(exit_code(HeadlessExit::ConnectionFailed)),
        ]);
        actions
    }

    fn after_init(&mut self, received: Received) -> (r: Vec<SessionAction>)
        requires
            old(self).deep_view().phase is AwaitingInit,
        ensures
            (final(self).deep_view(), r.deep_view()) == session_step(
                old(self).deep_view(),
                SessionInputView::Received(received.deep_view()),
            ),
    {
        let ghost before = self.deep_view();
        let mut actions: Vec<SessionAction> = Vec::new();
        assert(actions.deep_view() =~= Seq::empty());
        match init_phase(received) {
            PhaseStep::Done(envelope) => {
                self.phase = SessionPhase::Creating;
                let ghost event = envelope.event.deep_view();
                if self.emitting {
                    add_action(&mut actions, SessionAction::Emit(envelope.event));
                }
                assert(actions.deep_view() =~= emission(before, event));
                let command = BridgeCommand::CreateSession {
                    cwd: self.cwd.clone(),
                    resume: copied(&self.resume),
                    launch_settings: self.launch_settings.copy(),
                };
                assert(command.deep_view() == create_command(before));
                add_action(&mut actions, SessionAction::Send(command));
                assert(actions.deep_view() =~= emission(before, event) + seq![
                    SessionActionView::Send(create_command(before)),
                ]);
            },
            PhaseStep::Exit(exit) => {
                self.phase = SessionPhase::Ended;
                add_action(&mut actions, SessionAction::Exit(exit.code()));
                assert(actions.deep_view() =~= seq![SessionActionView::Exit(exit_code(exit))]);
            },
            PhaseStep::Wait => {},
        }
        actions
    }

    fn after_connect(&mut self, received: Received) -> (r: Vec<SessionAction>)
        requires
            old(self).deep_view().phase is AwaitingConnect,
        ensures
            (final(self).deep_view(), r.deep_view()) == session_step(
                old(self).deep_view(),
                SessionInputView::Received(received.deep_view()),
            ),
    {
        let ghost before = self.deep_view();
        let mut actions: Vec<SessionAction> = Vec::new();
        assert(actions.deep_view() =~= Seq::empty());
        match connect_phase(received) {
            PhaseStep::Done(envelope) => {
                let ghost event = envelope.event.deep_view();
                let id = match &envelope.event {
                    BridgeEvent::Connected { session_id, .. } => session_id.clone(),
                    BridgeEvent::SessionReplaced { session_id, .. } => session_id.clone(),
                    _ => String::new(),
                };
                assert(id@ =~= session_named(event));
                if self.emitting {
                    add_action(&mut actions, SessionAction::Emit(envelope.event));
                }
                assert(actions.deep_view() =~= emission(before, event));
                let command = BridgeCommand::Prompt {
                    session_id: id.clone(),
                    chunks: self.prompt_chunks(),
                };
                assert(command.deep_view() == prompt_command(before, id@));
                add_action(&mut actions, SessionAction::Send(command));
                self.phase = SessionPhase::Prompting(id);
                assert(actions.deep_view() =~= emission(before, event) + seq![
                    SessionActionView::Send(prompt_command(before, session_named(event))),
                ]);
            },
            PhaseStep::Exit(exit) => {
                self.phase = SessionPhase::Ended;
                add_action(&mut actions, SessionAction::Exit(exit.code()));
                assert(actions.deep_view() =~= seq![SessionActionView::Exit(exit_code(exit))]);
            },
            PhaseStep::Wait => {},
        }
        actions
    }

    fn while_streaming(&mut self, id: String, input: StreamInput) -> (r: Vec<SessionAction>)
        requires
            old(self).deep_view().phase == SessionPhaseView::Streaming(id@),
        ensures
            (final(self).deep_view(), r.deep_view()) == session_step(
                old(self).deep_view(),
                match input.deep_view() {
                    StreamInputView::Received(received) => SessionInputView::Received(received),
                    StreamInputView::Tick(tick) => SessionInputView::Tick(tick),
                },
            ),
    {
        let ghost before = self.deep_view();
        let ghost given = input.deep_view();
        let step = streaming_phase(&input);
        let event: Option<BridgeEvent> = match input {
            StreamInput::Received(Received::Event(envelope)) => Some(envelope.event),
            _ => None,
        };
        let ghost seen = event.deep_view();
        let mut actions: Vec<SessionAction> = Vec::new();
        if step.activity {
            add_action(&mut actions, SessionAction::NoteActivity);
        }
        if step.cancel {
            add_action(&mut actions, SessionAction::Cancel(id));
        }
        if step.emit && self.emitting {
            if let Some(event) = event {
                add_action(&mut actions, SessionAction::Emit(event));
            }
        }
        add_ending(&mut actions, step.exit);
        assert(actions.deep_view() =~= stream_actions(before, id@, seen, step));
        if step.exit.is_some() {
            self.phase = SessionPhase::Ended;
        }
        actions
    }

    /// [`session_step`]: takes in what happened and says what to do.
    pub fn run_session(&mut self, input: SessionInput) -> (r: Vec<SessionAction>)
        ensures
            (final(self).deep_view(), r.deep_view()) == session_step(
                old(self).deep_view(),
                input.deep_view(),
            ),
    {
        let mut actions: Vec<SessionAction> = Vec::new();
        assert(actions.deep_view() =~= Seq::empty());
        if let SessionPhase::Ended = &self.phase {
            return actions;
        }
        match input {
            SessionInput::EmitFailed { broken_pipe, message } => {
                let streaming = match &self.phase {
                    SessionPhase::Streaming(_) => true,
                    _ => false,
                };
                if broken_pipe {
                    self.emitting = false;
                } else if !streaming {
                    let line = concat("error: failed to write output: ", message.as_str());
                    add_action(&mut actions, SessionAction::Report(line));
                    assert(actions.deep_view() =~= seq![SessionActionView::Report(line@)]);
                }
                actions
            },
            SessionInput::Begin => {
                if let SessionPhase::Starting = &self.phase {
                    let command = BridgeCommand::Initialize { cwd: self.cwd.clone() };
                    let ghost sent = command.deep_view();
                    add_action(&mut actions, SessionAction::Send(command));
                    assert(actions.deep_view() =~= seq![SessionActionView::Send(sent)]);
                }
                actions
            },
            SessionInput::Sent => {
                match &self.phase {
                    SessionPhase::Starting => {
                        self.phase = SessionPhase::AwaitingInit;
                    },
                    SessionPhase::Creating => {
                        self.phase = SessionPhase::AwaitingConnect;
                    },
                    SessionPhase::Prompting(id) => {
                        let id = id.clone();
                        self.phase = SessionPhase::Streaming(id);
                        add_action(&mut actions, SessionAction::StartWatchdog);
                        assert(actions.deep_view() =~= seq![SessionActionView::StartWatchdog]);
                    },
                    _ => {},
                }
                actions
            },
            SessionInput::SendFailed(message) => self.after_send_failure(message.as_str()),
            SessionInput::Received(received) => match &self.phase {
                SessionPhase::AwaitingInit => self.after_init(received),
                SessionPhase::AwaitingConnect => self.after_connect(received),
                SessionPhase::Streaming(id) => {
                    let id = id.clone();
                    self.while_streaming(id, StreamInput::Received(received))
                },
                _ => actions,
            },
            SessionInput::Tick(tick) => match &self.phase {
                SessionPhase::Streaming(id) => {
                    let id = id.clone();
                    self.while_streaming(id, StreamInput::Tick(tick))
                },
                _ => actions,
            },
        }
    }
}

/// Whether an action is among those to do.
pub open spec fn is_done(actions: Seq<SessionActionView>, action: SessionActionView) -> bool {
    exists|i: int| 0 <= i < actions.len() && #[trigger] actions[i] == action
}

/// Once a session is over, nothing is done any more, whatever happens.
pub proof fn nothing_follows_the_end(state: SessionView, input: SessionInputView)
    requires
        state.phase is Ended,
    ensures
        session_step(state, input).0 == state,
        session_step(state, input).1.len() == 0,
{
}

/// A session is over exactly when it says to exit: the exit is the last thing to
/// do, and there is only one.
pub proof fn exit_is_last_and_ends_the_session(state: SessionView, input: SessionInputView)
    requires
        !(state.phase is Ended),
    ensures
        ({
            let (next, actions) = session_step(state, input);
            &&& next.phase is Ended <==> actions.len() > 0 && actions.last() is Exit
            &&& forall|i: int| 0 <= i < actions.len() - 1 ==> !(#[trigger] actions[i] is Exit)
        }),
{
}

/// What is written is what was received, and no interactive request is.
pub proof fn only_received_events_are_written(
    state: SessionView,
    input: SessionInputView,
    event: BridgeView,
)
    requires
        is_done(session_step(state, input).1, SessionActionView::Emit(event)),
    ensures
        input matches SessionInputView::Received(received) && event_received(received) == Some(
            event,
        ),
        !is_interactive(event),
        state.emitting,
{
    let actions = session_step(state, input).1;
    let i = choose|i: int|
        0 <= i < actions.len() && #[trigger] actions[i] == SessionActionView::Emit(event);
    assert(actions[i] is Emit);
}

/// Trouble with writing is never taken for trouble with the bridge: the session
/// goes on where it was.
pub proof fn write_trouble_does_not_end_the_session(
    state: SessionView,
    broken_pipe: bool,
    message: Seq<char>,
)
    ensures
        session_step(
            state,
            SessionInputView::EmitFailed { broken_pipe, message },
        ).0.phase == state.phase,
{
}

/// Once nobody reads any more, nothing is written any more.
pub proof fn broken_pipe_silences_the_session(
    state: SessionView,
    input: SessionInputView,
    event: BridgeView,
)
    requires
        !state.emitting,
    ensures
        !session_step(state, input).0.emitting,
        !is_done(session_step(state, input).1, SessionActionView::Emit(event)),
{
    if is_done(session_step(state, input).1, SessionActionView::Emit(event)) {
        only_received_events_are_written(state, input, event);
    }
}

/// The prompt is sent exactly when the session is connected, to that session, and
/// as it was given.
pub proof fn prompt_follows_the_connection(
    state: SessionView,
    input: SessionInputView,
    session_id: Seq<char>,
    chunks: Seq<PromptChunkView>,
)
    ensures
        is_done(
            session_step(state, input).1,
            SessionActionView::Send(CommandView::Prompt { session_id, chunks }),
        ) ==> {
            &&& state.phase is AwaitingConnect
            &&& session_step(state, input).0.phase == SessionPhaseView::Prompting(session_id)
            &&& chunks == seq![PromptChunkView { kind: "text"@, value: Tree::Text(state.prompt) }]
        },
{
    let (next, actions) = session_step(state, input);
    let sent = SessionActionView::Send(CommandView::Prompt { session_id, chunks });
    if is_done(actions, sent) {
        let i = choose|i: int| 0 <= i < actions.len() && #[trigger] actions[i] == sent;
        assert(actions[i] is Send);
    }
}

/// What a session was asked to do stays as it was, whatever happens.
pub proof fn the_request_stays(state: SessionView, input: SessionInputView)
    ensures
        session_step(state, input).0.cwd == state.cwd,
        session_step(state, input).0.prompt == state.prompt,
        session_step(state, input).0.resume == state.resume,
        session_step(state, input).0.launch_settings == state.launch_settings,
{
}

/// The actions of a run of inputs, one after the other.
pub open spec fn run_of(state: SessionView, inputs: Seq<SessionInputView>) -> (
    SessionView,
    Seq<SessionActionView>,
)
    decreases inputs.len(),
{
    if inputs.len() == 0 {
        (state, Seq::empty())
    } else {
        let (before, actions) = run_of(state, inputs.drop_last());
        let (after, more) = session_step(before, inputs.last());
        (after, actions + more)
    }
}

/// A session exits at most once, with nothing after it, over any run of inputs.
pub proof fn a_session_exits_once(state: SessionView, inputs: Seq<SessionInputView>)
    requires
        !(state.phase is Ended),
    ensures
        ({
            let (after, actions) = run_of(state, inputs);
            &&& after.phase is Ended <==> actions.len() > 0 && actions.last() is Exit
            &&& forall|i: int| 0 <= i < actions.len() - 1 ==> !(#[trigger] actions[i] is Exit)
        }),
    decreases inputs.len(),
{
    if inputs.len() > 0 {
        a_session_exits_once(state, inputs.drop_last());
        let (before, actions) = run_of(state, inputs.drop_last());
        let (after, more) = session_step(before, inputs.last());
        if before.phase is Ended {
            nothing_follows_the_end(before, inputs.last());
            assert(actions + more =~= actions);
        } else {
            exit_is_last_and_ends_the_session(before, inputs.last());
            let all = actions + more;
            assert forall|i: int| 0 <= i < all.len() - 1 implies !(#[trigger] all[i] is Exit) by {
                if i < actions.len() {
                    assert(all[i] == actions[i]);
                } else {
                    assert(all[i] == more[i - actions.len()]);
                }
            }
            if more.len() > 0 {
                assert(all.last() == more.last());
            } else {
                assert(all =~= actions);
            }
        }
    }
}

/// The sessions that are cancelled, in order.
pub open spec fn cancelled(actions: Seq<SessionActionView>) -> Seq<Seq<char>>
    decreases actions.len(),
{
    if actions.len() == 0 {
        Seq::empty()
    } else {
        match actions.last() {
            SessionActionView::Cancel(id) => cancelled(actions.drop_last()).push(id),
            _ => cancelled(actions.drop_last()),
        }
    }
}

/// The sessions that a prompt is sent to, in order.
pub open spec fn prompted(actions: Seq<SessionActionView>) -> Seq<Seq<char>>
    decreases actions.len(),
{
    if actions.len() == 0 {
        Seq::empty()
    } else {
        match actions.last() {
            SessionActionView::Send(CommandView::Prompt { session_id, .. }) => prompted(
                actions.drop_last(),
            ).push(session_id),
            _ => prompted(actions.drop_last()),
        }
    }
}

/// The events that are written, in order.
pub open spec fn written(actions: Seq<SessionActionView>) -> Seq<BridgeView>
    decreases actions.len(),
{
    if actions.len() == 0 {
        Seq::empty()
    } else {
        match actions.last() {
            SessionActionView::Emit(event) => written(actions.drop_last()).push(event),
            _ => written(actions.drop_last()),
        }
    }
}

/// The event that a phase accepts on an input: the end of its wait, or, while a turn
/// runs, anything but an interactive request.
pub open spec fn accepted_on(phase: SessionPhaseView, input: SessionInputView) -> Option<
    BridgeView,
> {
    match input {
        SessionInputView::Received(ReceivedView::Event(envelope)) => {
            let event = envelope.event;
            let accepted = match phase {
                SessionPhaseView::AwaitingInit => event is Initialized,
                SessionPhaseView::AwaitingConnect => event is Connected || event
                    is SessionReplaced,
                SessionPhaseView::Streaming(_) => !is_interactive(event),
                _ => false,
            };
            if accepted {
                Some(event)
            } else {
                None
            }
        },
        _ => None,
    }
}

/// The events that the phases of a session accept over a run of inputs, in the order
/// in which they were received.
pub open spec fn accepted_events(state: SessionView, inputs: Seq<SessionInputView>) -> Seq<
    BridgeView,
>
    decreases inputs.len(),
{
    if inputs.len() == 0 {
        Seq::empty()
    } else {
        let earlier = accepted_events(state, inputs.drop_last());
        match accepted_on(run_of(state, inputs.drop_last()).0.phase, inputs.last()) {
            Some(event) => earlier.push(event),
            None => earlier,
        }
    }
}

/// Whether a run of actions ends with the turn cut short: by an interactive request,
/// or by one of the two timers.
pub open spec fn cut_short(actions: Seq<SessionActionView>) -> bool {
    actions.len() > 0 && {
        ||| actions.last() == SessionActionView::Exit(
            exit_code(HeadlessExit::InteractivePromptLeaked),
        )
        ||| actions.last() == SessionActionView::Exit(exit_code(HeadlessExit::IdleTimeout))
        ||| actions.last() == SessionActionView::Exit(exit_code(HeadlessExit::HardTimeout))
    }
}

/// Two runs of actions, one after the other, cancel, prompt and write what the one and
/// then the other does.
pub proof fn actions_add_up(first: Seq<SessionActionView>, second: Seq<SessionActionView>)
    ensures
        cancelled(first + second) == cancelled(first) + cancelled(second),
        prompted(first + second) == prompted(first) + prompted(second),
        written(first + second) == written(first) + written(second),
    decreases second.len(),
{
    if second.len() == 0 {
        assert(first + second =~= first);
    } else {
        actions_add_up(first, second.drop_last());
        assert((first + second).drop_last() =~= first + second.drop_last());
        assert((first + second).last() == second.last());
    }
}

proof fn single_actions(action: SessionActionView)
    ensures
        cancelled(seq![action]) == match action {
            SessionActionView::Cancel(id) => seq![id],
            _ => Seq::empty(),
        },
        prompted(seq![action]) == match action {
            SessionActionView::Send(CommandView::Prompt { session_id, .. }) => seq![session_id],
            _ => Seq::empty(),
        },
        written(seq![action]) == match action {
            SessionActionView::Emit(event) => seq![event],
            _ => Seq::empty(),
        },
{
    assert(seq![action].drop_last() =~= Seq::empty());
    assert(seq![action].last() == action);
    assert(cancelled(Seq::empty()) =~= Seq::empty());
    assert(prompted(Seq::empty()) =~= Seq::empty());
    assert(written(Seq::empty()) =~= Seq::empty());
}

proof fn endings_only_end(exit: Option<HeadlessExit>)
    ensures
        cancelled(ending(exit)) == Seq::<Seq<char>>::empty(),
        prompted(ending(exit)) == Seq::<Seq<char>>::empty(),
        written(ending(exit)) == Seq::<BridgeView>::empty(),
{
    if let Some(e) = exit {
        let head = seq![SessionActionView::FinishOutput];
        let report = end_report(e);
        let last = seq![SessionActionView::Exit(exit_code(e))];
        actions_add_up(head, report);
        actions_add_up(head + report, last);
        single_actions(SessionActionView::FinishOutput);
        single_actions(SessionActionView::Exit(exit_code(e)));
        if report.len() > 0 {
            single_actions(report[0]);
            assert(report =~= seq![report[0]]);
        }
    }
}

proof fn streaming_does_what_the_step_says(
    state: SessionView,
    id: Seq<char>,
    event: Option<BridgeView>,
    step: StreamStep,
)
    ensures
        ({
            let actions = stream_actions(state, id, event, step);
            &&& cancelled(actions) == if step.cancel {
                seq![id]
            } else {
                Seq::empty()
            }
            &&& prompted(actions) == Seq::<Seq<char>>::empty()
            &&& written(actions) == if step.emit && event is Some && state.emitting {
                seq![event->0]
            } else {
                Seq::empty()
            }
        }),
{
    let activity = if step.activity {
        seq![SessionActionView::NoteActivity]
    } else {
        Seq::empty()
    };
    let cancel = if step.cancel {
        seq![SessionActionView::Cancel(id)]
    } else {
        Seq::empty()
    };
    let emit = if step.emit && event is Some {
        emission(state, event->0)
    } else {
        Seq::empty()
    };
    actions_add_up(activity, cancel);
    actions_add_up(activity + cancel, emit);
    actions_add_up(activity + cancel + emit, ending(step.exit));
    single_actions(SessionActionView::NoteActivity);
    single_actions(SessionActionView::Cancel(id));
    if event is Some {
        single_actions(SessionActionView::Emit(event->0));
    }
    endings_only_end(step.exit);
}

/// What one step cancels, prompts and writes.
pub proof fn steps_cancel_prompt_and_write(state: SessionView, input: SessionInputView)
    ensures
        ({
            let (next, actions) = session_step(state, input);
            &&& cancelled(actions) == if cut_short(actions) {
                seq![state.phase->Streaming_0]
            } else {
                Seq::empty()
            }
            &&& cut_short(actions) ==> state.phase is Streaming
            &&& prompted(actions) == match (state.phase, next.phase) {
                (
                    SessionPhaseView::AwaitingConnect,
                    SessionPhaseView::Prompting(id),
                ) => seq![id],
                _ => Seq::empty(),
            }
            &&& written(actions) == match accepted_on(state.phase, input) {
                Some(event) => if state.emitting {
                    seq![event]
                } else {
                    Seq::empty()
                },
                None => Seq::empty(),
            }
        }),
{
    let (next, actions) = session_step(state, input);
    match (state.phase, input) {
        (SessionPhaseView::Streaming(id), SessionInputView::Received(received)) => {
            let step = stream_step(StreamInputView::Received(received));
            streaming_does_what_the_step_says(state, id, event_received(received), step);
            if step.exit is Some {
                assert(actions.last() == SessionActionView::Exit(exit_code(step.exit->0)));
            } else {
                exit_is_last_and_ends_the_session(state, input);
            }
        },
        (SessionPhaseView::Streaming(id), SessionInputView::Tick(tick)) => {
            let step = stream_step(StreamInputView::Tick(tick));
            streaming_does_what_the_step_says(state, id, None, step);
            if step.exit is Some {
                assert(actions.last() == SessionActionView::Exit(exit_code(step.exit->0)));
            } else {
                exit_is_last_and_ends_the_session(state, input);
            }
        },
        _ => {
            if actions.len() == 1 {
                single_actions(actions[0]);
                assert(actions =~= seq![actions[0]]);
            } else if actions.len() == 2 {
                single_actions(actions[0]);
                single_actions(actions[1]);
                actions_add_up(seq![actions[0]], seq![actions[1]]);
                assert(actions =~= seq![actions[0]] + seq![actions[1]]);
            }
        },
    }
}

/// Where a session stands in its course: before the connection no prompt was sent,
/// after it one was, to the session that was connected.
pub open spec fn prompts_match_the_phase(
    phase: SessionPhaseView,
    actions: Seq<SessionActionView>,
) -> bool {
    match phase {
        SessionPhaseView::Prompting(id) => prompted(actions) == seq![id],
        SessionPhaseView::Streaming(id) => prompted(actions) == seq![id],
        SessionPhaseView::Ended => prompted(actions).len() <= 1,
        _ => prompted(actions).len() == 0,
    }
}

/// Over any run of inputs, a session asks for at most one cancellation: of the session
/// that the prompt was sent to, and exactly where the turn is cut short by an
/// interactive request or by one of the timers. At most one prompt is sent.
pub proof fn a_session_cancels_what_is_cut_short(
    state: SessionView,
    inputs: Seq<SessionInputView>,
)
    requires
        state.phase is Starting,
    ensures
        ({
            let (after, actions) = run_of(state, inputs);
            &&& cancelled(actions) == if cut_short(actions) {
                prompted(actions)
            } else {
                Seq::empty()
            }
            &&& cut_short(actions) ==> prompted(actions).len() == 1
            &&& prompts_match_the_phase(after.phase, actions)
        }),
    decreases inputs.len(),
{
    if inputs.len() > 0 {
        let earlier = inputs.drop_last();
        a_session_cancels_what_is_cut_short(state, earlier);
        a_session_exits_once(state, earlier);
        let (before, actions) = run_of(state, earlier);
        let (after, more) = session_step(before, inputs.last());
        actions_add_up(actions, more);
        steps_cancel_prompt_and_write(before, inputs.last());
        if before.phase is Ended {
            nothing_follows_the_end(before, inputs.last());
            assert(actions + more =~= actions);
        } else {
            exit_is_last_and_ends_the_session(before, inputs.last());
            if more.len() > 0 {
                assert((actions + more).last() == more.last());
            } else {
                assert(actions + more =~= actions);
            }
        }
    }
}

/// Whether somebody reads to the end: no write fails for want of a reader.
pub open spec fn always_read(inputs: Seq<SessionInputView>) -> bool {
    forall|i: int|
        0 <= i < inputs.len() ==> !((#[trigger] inputs[i]) matches SessionInputView::EmitFailed {
            broken_pipe,
            ..
        } && broken_pipe)
}

/// Over any run of inputs, as long as somebody reads, what is written is exactly the
/// events that the phases accept, in the order in which they were received, each once.
pub proof fn a_session_writes_what_its_phases_accept(
    state: SessionView,
    inputs: Seq<SessionInputView>,
)
    requires
        state.emitting,
        always_read(inputs),
    ensures
        written(run_of(state, inputs).1) == accepted_events(state, inputs),
        run_of(state, inputs).0.emitting,
    decreases inputs.len(),
{
    if inputs.len() > 0 {
        let earlier = inputs.drop_last();
        assert forall|i: int| 0 <= i < earlier.len() implies !((#[trigger] earlier[i]) matches
            SessionInputView::EmitFailed { broken_pipe, .. } && broken_pipe) by {
            assert(earlier[i] == inputs[i]);
        }
        a_session_writes_what_its_phases_accept(state, earlier);
        let (before, actions) = run_of(state, earlier);
        let (after, more) = session_step(before, inputs.last());
        actions_add_up(actions, more);
        steps_cancel_prompt_and_write(before, inputs.last());
        assert(inputs.last() == inputs[inputs.len() - 1]);
    }
}

/// A session exits with code zero exactly when its turn completes.
pub proof fn only_a_completed_turn_exits_zero(state: SessionView, input: SessionInputView)
    requires
        !(state.phase is Ended),
    ensures
        is_done(session_step(state, input).1, SessionActionView::Exit(0)) <==> {
            &&& state.phase is Streaming
            &&& input matches SessionInputView::Received(received) && event_received(
                received,
            ) matches Some(BridgeView::TurnComplete { terminal_reason, .. }) && (terminal_reason
                is None || terminal_reason == Some(TerminalReason::Completed))
        },
{
    let actions = session_step(state, input).1;
    if is_done(actions, SessionActionView::Exit(0)) {
        let i = choose|i: int|
            0 <= i < actions.len() && #[trigger] actions[i] == SessionActionView::Exit(0);
        assert(actions[i] is Exit);
    }
    if state.phase is Streaming && input is Received {
        let received = input->Received_0;
        if event_received(received) matches Some(BridgeView::TurnComplete { terminal_reason, .. })
            && (terminal_reason is None || terminal_reason == Some(TerminalReason::Completed)) {
            assert(actions[actions.len() - 1] == SessionActionView::Exit(0));
        }
    }
}

/// Over every step, a session is asked for exactly when the bridge, which is starting,
/// says that it is up; it is asked for in the working directory, with the session to
/// resume and with the settings that the session was made with.
pub proof fn sessions_are_created_as_asked(
    state: SessionView,
    input: SessionInputView,
    cwd: Seq<char>,
    resume: Option<Seq<char>>,
    launch_settings: LaunchSettingsView,
)
    ensures
        is_done(
            session_step(state, input).1,
            SessionActionView::Send(CommandView::CreateSession { cwd, resume, launch_settings }),
        ) <==> {
            &&& state.phase is AwaitingInit
            &&& input matches SessionInputView::Received(ReceivedView::Event(envelope))
                && envelope.event is Initialized
            &&& cwd == state.cwd
            &&& resume == state.resume
            &&& launch_settings == state.launch_settings
        },
{
    let actions = session_step(state, input).1;
    let sent = SessionActionView::Send(
        CommandView::CreateSession { cwd, resume, launch_settings },
    );
    if is_done(actions, sent) {
        let i = choose|i: int| 0 <= i < actions.len() && #[trigger] actions[i] == sent;
        assert(actions[i] is Send);
    }
    if state.phase is AwaitingInit {
        if let SessionInputView::Received(ReceivedView::Event(envelope)) = input {
            if envelope.event is Initialized {
                let last = actions[actions.len() - 1];
                assert(last is Send && last->Send_0 is CreateSession);
            }
        }
    }
}

/// Over any run of inputs, every command that a session sends says what the session was
/// made with: the bridge is started in the working directory, the session is asked for
/// there with the session to resume and the settings, and the prompt goes out as one
/// piece of text. Nothing else is sent.
pub proof fn a_session_sends_what_it_was_asked(state: SessionView, inputs: Seq<SessionInputView>)
    ensures
        ({
            let (after, actions) = run_of(state, inputs);
            &&& after.cwd == state.cwd
            &&& after.prompt == state.prompt
            &&& after.resume == state.resume
            &&& after.launch_settings == state.launch_settings
            &&& forall|i: int|
                0 <= i < actions.len() ==> ((#[trigger] actions[i]) matches SessionActionView::Send(
                    command,
                ) ==> match command {
                    CommandView::Initialize { cwd } => cwd == state.cwd,
                    CommandView::CreateSession { cwd, resume, launch_settings } => {
                        &&& cwd == state.cwd
                        &&& resume == state.resume
                        &&& launch_settings == state.launch_settings
                    },
                    CommandView::Prompt { chunks, .. } => {
                        &&& chunks.len() == 1
                        &&& chunks[0].kind == "text"@
                        &&& chunks[0].value == Tree::Text(state.prompt)
                    },
                    CommandView::CancelTurn { .. } => false,
                })
        }),
    decreases inputs.len(),
{
    if inputs.len() > 0 {
        let earlier = inputs.drop_last();
        a_session_sends_what_it_was_asked(state, earlier);
        let (before, actions) = run_of(state, earlier);
        let (after, more) = session_step(before, inputs.last());
        the_request_stays(before, inputs.last());
        let all = actions + more;
        assert forall|i: int| 0 <= i < all.len() implies ((
        #[trigger] all[i]) matches SessionActionView::Send(command) ==> match command {
            CommandView::Initialize { cwd } => cwd == state.cwd,
            CommandView::CreateSession { cwd, resume, launch_settings } => {
                &&& cwd == state.cwd
                &&& resume == state.resume
                &&& launch_settings == state.launch_settings
            },
            CommandView::Prompt { chunks, .. } => {
                &&& chunks.len() == 1
                &&& chunks[0].kind == "text"@
                &&& chunks[0].value == Tree::Text(state.prompt)
            },
            CommandView::CancelTurn { .. } => false,
        }) by {
            if i < actions.len() {
                assert(all[i] == actions[i]);
            } else {
                assert(all[i] == more[i - actions.len()]);
            }
        }
    }
}

/// A session that nothing goes wrong with takes its course, whatever the bridge says of
/// itself: the bridge is started; once it is up, that is written and a session is asked
/// for; once that is connected, this is written and the prompt is sent to it; and once the
/// prompt is out, the timers are started and the turn of that session runs.
pub proof fn a_session_takes_its_course(
    state: SessionView,
    up: EnvelopeView,
    connected: EnvelopeView,
    id: Seq<char>,
)
    requires
        state.phase is Starting,
        state.emitting,
        up.event is Initialized,
        match connected.event {
            BridgeView::Connected { session_id, .. } => session_id == id,
            BridgeView::SessionReplaced { session_id, .. } => session_id == id,
            _ => false,
        },
    ensures
        ({
            let (s1, a1) = session_step(state, SessionInputView::Begin);
            let (s2, a2) = session_step(s1, SessionInputView::Sent);
            let (s3, a3) = session_step(s2, SessionInputView::Received(ReceivedView::Event(up)));
            let (s4, a4) = session_step(s3, SessionInputView::Sent);
            let (s5, a5) = session_step(
                s4,
                SessionInputView::Received(ReceivedView::Event(connected)),
            );
            let (s6, a6) = session_step(s5, SessionInputView::Sent);
            &&& a1.len() == 1
            &&& a1[0] == SessionActionView::Send(CommandView::Initialize { cwd: state.cwd })
            &&& a2.len() == 0
            &&& a3.len() == 2
            &&& a3[0] == SessionActionView::Emit(up.event)
            &&& a3[1] is Send && a3[1]->Send_0 is CreateSession
            &&& a4.len() == 0
            &&& a5.len() == 2
            &&& a5[0] == SessionActionView::Emit(connected.event)
            &&& a5[1] matches SessionActionView::Send(CommandView::Prompt { session_id, .. })
                && session_id == id
            &&& a6.len() == 1
            &&& a6[0] == SessionActionView::StartWatchdog
            &&& s6.phase == SessionPhaseView::Streaming(id)
        }),
{
}

/// A command that cannot be sent ends the session with code 4, and the report names the
/// command and the reason.
pub proof fn unsent_commands_exit_with_four(state: SessionView, message: Seq<char>)
    requires
        state.phase is Starting || state.phase is Creating || state.phase is Prompting,
    ensures
        ({
            let (next, actions) = session_step(state, SessionInputView::SendFailed(message));
            let name = match state.phase {
                SessionPhaseView::Starting => "initialize"@,
                SessionPhaseView::Creating => "create_session"@,
                _ => "prompt"@,
            };
            &&& next.phase is Ended
            &&& actions.len() == 2
            &&& actions[0] == SessionActionView::Report(
                "error: failed to send "@ + name + ": "@ + message,
            )
            &&& actions[1] == SessionActionView::Exit(4)
        }),
{
}

/// A session that is being set up ends with code 4 where the connection fails or the time
/// is up, with code 3 where the bridge asks for a login instead of connecting, and with
/// code 5 where the bridge goes away. Whatever else is received is passed over, but for
/// the event that the phase waits for.
pub proof fn set_up_ends_with_its_code(state: SessionView, received: ReceivedView)
    requires
        state.phase is AwaitingInit || state.phase is AwaitingConnect,
    ensures
        ({
            let (next, actions) = session_step(state, SessionInputView::Received(received));
            let code: Option<i32> = match received {
                ReceivedView::TimedOut => Some(4i32),
                ReceivedView::Closed => Some(5i32),
                ReceivedView::Failed => Some(5i32),
                ReceivedView::Event(envelope) => match envelope.event {
                    BridgeView::ConnectionFailed { .. } => Some(4i32),
                    BridgeView::AuthRequired { .. } => if state.phase is AwaitingConnect {
                        Some(3i32)
                    } else {
                        None
                    },
                    _ => None,
                },
            };
            let awaited = match received {
                ReceivedView::Event(envelope) => if state.phase is AwaitingInit {
                    envelope.event is Initialized
                } else {
                    envelope.event is Connected || envelope.event is SessionReplaced
                },
                _ => false,
            };
            &&& code is Some ==> next.phase is Ended && actions.len() == 1 && actions[0]
                == SessionActionView::Exit(code->0)
            &&& code is None && !awaited ==> next == state && actions.len() == 0
            &&& awaited ==> !(next.phase is Ended) && next.phase != state.phase
        }),
{
}

/// A turn that the bridge ends is written to its last event, then the writing is finished,
/// then the reason is reported where the turn did not complete, and then the session exits:
/// with code 0 where the turn completed, with code 1 where it ended in another way, with
/// code 3 where a login is needed and with code 4 where the connection failed.
pub proof fn a_turn_ends_with_its_code(state: SessionView, envelope: EnvelopeView)
    requires
        state.phase is Streaming,
        state.emitting,
        envelope.event is TurnComplete || envelope.event is TurnError || envelope.event
            is AuthRequired || envelope.event is ConnectionFailed,
    ensures
        ({
            let (next, actions) = session_step(
                state,
                SessionInputView::Received(ReceivedView::Event(envelope)),
            );
            let completed = envelope.event matches BridgeView::TurnComplete { terminal_reason, .. }
                && (terminal_reason is None || terminal_reason == Some(TerminalReason::Completed));
            let reason = match envelope.event {
                BridgeView::TurnComplete { terminal_reason, .. } => terminal_reason,
                BridgeView::TurnError { terminal_reason, .. } => terminal_reason,
                _ => None,
            };
            let reported = !completed && (envelope.event is TurnComplete || envelope.event
                is TurnError);
            &&& next.phase is Ended
            &&& actions.len() == if reported {
                5int
            } else {
                4int
            }
            &&& actions[0] == SessionActionView::NoteActivity
            &&& actions[1] == SessionActionView::Emit(envelope.event)
            &&& actions[2] == SessionActionView::FinishOutput
            &&& reported ==> actions[3] == SessionActionView::Report(
                "error: terminal_reason="@ + match reason {
                    Some(r) => stored_reason(r),
                    None => "unknown"@,
                },
            )
            &&& actions.last() == SessionActionView::Exit(
                if completed {
                    0i32
                } else if envelope.event is AuthRequired {
                    3i32
                } else if envelope.event is ConnectionFailed {
                    4i32
                } else {
                    1i32
                },
            )
        }),
{
}

/// A turn is cut short by an interactive request with code 2 and by either timer with code
/// 124. The turn of this very session is cancelled, nothing is written, the writing is
/// finished and the session exits.
pub proof fn a_turn_is_cut_short_with_its_code(
    state: SessionView,
    id: Seq<char>,
    input: SessionInputView,
)
    requires
        state.phase == SessionPhaseView::Streaming(id),
        match input {
            SessionInputView::Received(ReceivedView::Event(envelope)) => envelope.event
                is PermissionRequest || envelope.event is QuestionRequest || envelope.event
                is ElicitationRequest,
            SessionInputView::Tick(tick) => tick != WatchdogTick::Continue,
            _ => false,
        },
    ensures
        ({
            let (next, actions) = session_step(state, input);
            let asked = input is Received;
            let n = actions.len();
            &&& next.phase is Ended
            &&& n == if asked {
                4int
            } else {
                3int
            }
            &&& asked ==> actions[0] == SessionActionView::NoteActivity
            &&& actions[n - 3] == SessionActionView::Cancel(id)
            &&& actions[n - 2] == SessionActionView::FinishOutput
            &&& actions[n - 1] == SessionActionView::Exit(
                if asked {
                    2i32
                } else {
                    124i32
                },
            )
        }),
{
}

/// While a turn runs, every other event is written at once and starts the idle window anew,
/// a bridge that goes away ends the session with code 5, and a look at timers that have
/// time left does nothing.
pub proof fn a_turn_runs_on(state: SessionView, input: SessionInputView)
    requires
        state.phase is Streaming,
        state.emitting,
    ensures
        ({
            let (next, actions) = session_step(state, input);
            match input {
                SessionInputView::Received(ReceivedView::Event(envelope)) => {
                    let event = envelope.event;
                    event is Initialized || event is Connected || event is SessionReplaced || event
                        is SessionUpdate || event is SlashError || event is RuntimeReloadFailed
                        || event is Other ==> {
                        &&& next == state
                        &&& actions.len() == 2
                        &&& actions[0] == SessionActionView::NoteActivity
                        &&& actions[1] == SessionActionView::Emit(event)
                    }
                },
                SessionInputView::Received(_) => {
                    &&& next.phase is Ended
                    &&& actions.len() == 2
                    &&& actions[0] == SessionActionView::FinishOutput
                    &&& actions[1] == SessionActionView::Exit(5)
                },
                SessionInputView::Tick(WatchdogTick::Continue) => next == state && actions.len()
                    == 0,
                _ => true,
            }
        }),
{
}

/// Where nobody reads any more, the session writes nothing more and says nothing of it. Any
/// other trouble with writing is reported with its reason while the session is set up, and
/// passed over while the turn runs.
pub proof fn write_trouble_is_told_while_setting_up(state: SessionView, message: Seq<char>)
    requires
        !(state.phase is Ended),
    ensures
        ({
            let (gone, silent) = session_step(
                state,
                SessionInputView::EmitFailed { broken_pipe: true, message },
            );
            let (after, told) = session_step(
                state,
                SessionInputView::EmitFailed { broken_pipe: false, message },
            );
            &&& !gone.emitting
            &&& silent.len() == 0
            &&& after == state
            &&& state.phase is Streaming ==> told.len() == 0
            &&& !(state.phase is Streaming) ==> told.len() == 1 && told[0]
                == SessionActionView::Report("error: failed to write output: "@ + message)
        }),
{
}

} // verus!

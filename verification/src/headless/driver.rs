//! The decisions of print mode: how permissions are asked for, where the prompt
//! comes from, and what each event of a session means.
//!
//! Reading events, sending commands and waiting are the caller's work. It tells
//! the functions here what happened, and does what they say.

use crate::agent::types::TerminalReason;
use crate::agent::wire::{BridgeEvent, BridgeView, EnvelopeView, EventEnvelope};
use crate::headless::watchdog::WatchdogTick;
use crate::text::same;
use vstd::prelude::*;

verus! {

/// The permission mode to work in.
#[derive(Debug, PartialEq, Eq)]
pub enum ResolvedPermissionMode {
    /// The mode to ask the bridge for, and what to warn of first.
    Mode { mode: &'static str, warning: Option<String> },
    /// Policy demands that the user says which mode.
    RefuseExplicitRequired,
}

/// The content of a [`ResolvedPermissionMode`].
pub enum ResolvedModeView {
    Mode { mode: Seq<char>, warning: Option<Seq<char>> },
    RefuseExplicitRequired,
}

impl DeepView for ResolvedPermissionMode {
    type V = ResolvedModeView;

    open spec fn deep_view(&self) -> ResolvedModeView {
        match self {
            ResolvedPermissionMode::Mode { mode, warning } => ResolvedModeView::Mode {
                mode: mode@,
                warning: warning.deep_view(),
            },
            ResolvedPermissionMode::RefuseExplicitRequired =>
            ResolvedModeView::RefuseExplicitRequired,
        }
    }
}

/// What to warn of where nobody chose a mode.
pub open spec fn default_mode_warning() -> Seq<char> {
    "warning: --permission-mode not set; defaulting to bypassPermissions\nwarning: set LINGXI_HEADLESS_REQUIRE_EXPLICIT_PERMISSION_MODE=1 to require explicit opt-in"@
}

/// The permission mode that the flags and the policy lead to. Skipping all
/// permissions comes first, then an explicit mode, which holds even where policy
/// demands one; without either, policy refuses, and otherwise all permissions are
/// skipped with a warning.
pub open spec fn resolved_mode(
    skip: bool,
    mode: Option<Seq<char>>,
    require_explicit: bool,
) -> ResolvedModeView {
    if skip {
        ResolvedModeView::Mode { mode: "bypassPermissions"@, warning: None }
    } else if mode is Some {
        ResolvedModeView::Mode { mode: mode->0, warning: None }
    } else if require_explicit {
        ResolvedModeView::RefuseExplicitRequired
    } else {
        ResolvedModeView::Mode {
            mode: "bypassPermissions"@,
            warning: Some(default_mode_warning()),
        }
    }
}

/// Calls `String::leak`, which hands out the text of a string for the rest of the
/// program's life.
#[verifier::external_body]
fn leaked(text: String) -> (r: &'static str)
    ensures
        r@ == text@,
{
    String::leak(text)
}

/// The content of a text that may be missing.
pub open spec fn given_text(text: Option<&str>) -> Option<Seq<char>> {
    match text {
        Some(t) => Some(t@),
        None => None,
    }
}

/// [`resolved_mode`]: the permission mode that the flags and the policy lead to.
pub fn resolve_permission_mode(
    cli_dangerously_skip: bool,
    cli_mode: Option<&str>,
    require_explicit: bool,
) -> (r: ResolvedPermissionMode)
    ensures
        r.deep_view() == resolved_mode(
            cli_dangerously_skip,
            given_text(cli_mode),
            require_explicit,
        ),
{
    if cli_dangerously_skip {
        return ResolvedPermissionMode::Mode { mode: "bypassPermissions", warning: None };
    }
    if let Some(mode) = cli_mode {
        let known = if same(mode, "default") {
            "default"
        } else if same(mode, "auto") {
            "auto"
        } else if same(mode, "acceptEdits") {
            "acceptEdits"
        } else if same(mode, "plan") {
            "plan"
        } else if same(mode, "dontAsk") {
            "dontAsk"
        } else if same(mode, "bypassPermissions") {
            "bypassPermissions"
        } else {
            leaked(mode.to_owned())
        };
        return ResolvedPermissionMode::Mode { mode: known, warning: None };
    }
    if require_explicit {
        return ResolvedPermissionMode::RefuseExplicitRequired;
    }
    ResolvedPermissionMode::Mode {
        mode: "bypassPermissions",
        warning: Some(
            "warning: --permission-mode not set; defaulting to bypassPermissions\nwarning: set LINGXI_HEADLESS_REQUIRE_EXPLICIT_PERMISSION_MODE=1 to require explicit opt-in".to_owned(),
        ),
    }
}

/// Policy refuses only where nobody chose a mode, an explicit mode is used as it
/// is, and a warning comes only with the default.
pub proof fn explicit_mode_beats_policy(skip: bool, mode: Option<Seq<char>>, require_explicit: bool)
    ensures
        resolved_mode(skip, mode, require_explicit) is RefuseExplicitRequired <==> !skip
            && mode is None && require_explicit,
        !skip && mode is Some ==> resolved_mode(skip, mode, require_explicit) == (
        ResolvedModeView::Mode { mode: mode->0, warning: None }),
        resolved_mode(skip, mode, require_explicit) matches ResolvedModeView::Mode {
            mode: chosen,
            warning,
        } ==> (warning is Some <==> !skip && mode is None),
{
}

/// Where the prompt comes from.
#[derive(Debug, PartialEq, Eq)]
pub enum PromptSource {
    /// The command line.
    Provided(String),
    /// Standard input, which is not a terminal.
    ReadStdin,
    /// Nowhere: standard input is a terminal, and nobody is asked to type.
    RefuseTty,
}

/// The content of a [`PromptSource`].
pub enum PromptSourceView {
    Provided(Seq<char>),
    ReadStdin,
    RefuseTty,
}

impl DeepView for PromptSource {
    type V = PromptSourceView;

    open spec fn deep_view(&self) -> PromptSourceView {
        match self {
            PromptSource::Provided(prompt) => PromptSourceView::Provided(prompt@),
            PromptSource::ReadStdin => PromptSourceView::ReadStdin,
            PromptSource::RefuseTty => PromptSourceView::RefuseTty,
        }
    }
}

/// Where the prompt comes from: the command line where it has one, whatever
/// standard input is.
pub open spec fn prompt_source(prompt: Option<Seq<char>>, stdin_is_tty: bool) -> PromptSourceView {
    match prompt {
        Some(text) => PromptSourceView::Provided(text),
        None => if stdin_is_tty {
            PromptSourceView::RefuseTty
        } else {
            PromptSourceView::ReadStdin
        },
    }
}

/// [`prompt_source`]: where the prompt comes from.
pub fn classify_prompt(prompt: Option<&str>, stdin_is_tty: bool) -> (r: PromptSource)
    ensures
        r.deep_view() == prompt_source(given_text(prompt), stdin_is_tty),
{
    match prompt {
        Some(text) => PromptSource::Provided(text.to_owned()),
        None => if stdin_is_tty {
            PromptSource::RefuseTty
        } else {
            PromptSource::ReadStdin
        },
    }
}

/// The most seconds until the bridge says that it is up.
pub const INIT_TIMEOUT_SECS: u64 = 15;

/// The most seconds until a session is connected.
pub const CONNECT_TIMEOUT_SECS: u64 = 30;

/// The seconds that the bridge is given to end by itself.
pub const SHUTDOWN_TIMEOUT_SECS: u64 = 5;

/// How print mode ends.
#[derive(Debug, PartialEq, Eq, Clone, Copy)]
pub enum HeadlessExit {
    /// The turn completed.
    Completed,
    /// The turn ended in another way.
    NonCompletedTerminal(Option<TerminalReason>),
    /// The bridge asked for something that only a person can answer.
    InteractivePromptLeaked,
    AuthRequired,
    /// The bridge failed to connect, or did not start or connect in time.
    ConnectionFailed,
    /// The bridge went away before the turn ended.
    BridgeClosedUnexpectedly,
    /// Nothing happened for too long.
    IdleTimeout,
    /// The whole took too long.
    HardTimeout,
    /// The command line cannot be followed.
    UsageError,
}

/// The process exit code of an end.
pub open spec fn exit_code(exit: HeadlessExit) -> i32 {
    match exit {
        HeadlessExit::Completed => 0,
        HeadlessExit::NonCompletedTerminal(_) => 1,
        HeadlessExit::InteractivePromptLeaked => 2,
        HeadlessExit::AuthRequired => 3,
        HeadlessExit::ConnectionFailed => 4,
        HeadlessExit::BridgeClosedUnexpectedly => 5,
        HeadlessExit::UsageError => 64,
        HeadlessExit::IdleTimeout => 124,
        HeadlessExit::HardTimeout => 124,
    }
}

impl HeadlessExit {
    /// [`exit_code`]: the process exit code.
    pub fn code(&self) -> (r: i32)
        ensures
            r == exit_code(*self),
    {
        match self {
            HeadlessExit::Completed => 0,
            HeadlessExit::NonCompletedTerminal(_) => 1,
            HeadlessExit::InteractivePromptLeaked => 2,
            HeadlessExit::AuthRequired => 3,
            HeadlessExit::ConnectionFailed => 4,
            HeadlessExit::BridgeClosedUnexpectedly => 5,
            HeadlessExit::UsageError => 64,
            HeadlessExit::IdleTimeout => 124,
            HeadlessExit::HardTimeout => 124,
        }
    }
}

/// Exit code zero means that the turn completed, and nothing else does.
pub proof fn only_completion_exits_zero(exit: HeadlessExit)
    ensures
        exit_code(exit) == 0 <==> exit == HeadlessExit::Completed,
{
}

/// What came of waiting for an event.
#[derive(Debug, PartialEq, Eq)]
pub enum Received {
    /// An event.
    Event(EventEnvelope),
    /// The bridge is gone.
    Closed,
    /// Reading failed.
    Failed,
    /// The time for it is up.
    TimedOut,
}

/// The content of [`Received`].
pub enum ReceivedView {
    Event(EnvelopeView),
    Closed,
    Failed,
    TimedOut,
}

impl DeepView for Received {
    type V = ReceivedView;

    open spec fn deep_view(&self) -> ReceivedView {
        match self {
            Received::Event(envelope) => ReceivedView::Event(envelope.deep_view()),
            Received::Closed => ReceivedView::Closed,
            Received::Failed => ReceivedView::Failed,
            Received::TimedOut => ReceivedView::TimedOut,
        }
    }
}

/// Where waiting for one certain event has got to.
#[derive(Debug, PartialEq, Eq)]
pub enum PhaseStep {
    /// The event is there.
    Done(EventEnvelope),
    /// It will not come.
    Exit(HeadlessExit),
    /// Wait on.
    Wait,
}

/// The content of a [`PhaseStep`].
pub enum PhaseStepView {
    Done(EnvelopeView),
    Exit(HeadlessExit),
    Wait,
}

impl DeepView for PhaseStep {
    type V = PhaseStepView;

    open spec fn deep_view(&self) -> PhaseStepView {
        match self {
            PhaseStep::Done(envelope) => PhaseStepView::Done(envelope.deep_view()),
            PhaseStep::Exit(exit) => PhaseStepView::Exit(*exit),
            PhaseStep::Wait => PhaseStepView::Wait,
        }
    }
}

/// What an event means while the bridge starts. Events that do not belong there
/// are passed over.
pub open spec fn init_step(received: ReceivedView) -> PhaseStepView {
    match received {
        ReceivedView::Event(envelope) => match envelope.event {
            BridgeView::Initialized { .. } => PhaseStepView::Done(envelope),
            BridgeView::ConnectionFailed { .. } => PhaseStepView::Exit(
                HeadlessExit::ConnectionFailed,
            ),
            _ => PhaseStepView::Wait,
        },
        ReceivedView::TimedOut => PhaseStepView::Exit(HeadlessExit::ConnectionFailed),
        _ => PhaseStepView::Exit(HeadlessExit::BridgeClosedUnexpectedly),
    }
}

/// What an event means while the session is set up. Events that do not belong
/// there are passed over.
pub open spec fn connect_step(received: ReceivedView) -> PhaseStepView {
    match received {
        ReceivedView::Event(envelope) => match envelope.event {
            BridgeView::Connected { .. } => PhaseStepView::Done(envelope),
            BridgeView::SessionReplaced { .. } => PhaseStepView::Done(envelope),
            BridgeView::AuthRequired { .. } => PhaseStepView::Exit(HeadlessExit::AuthRequired),
            BridgeView::ConnectionFailed { .. } => PhaseStepView::Exit(
                HeadlessExit::ConnectionFailed,
            ),
            _ => PhaseStepView::Wait,
        },
        ReceivedView::TimedOut => PhaseStepView::Exit(HeadlessExit::ConnectionFailed),
        _ => PhaseStepView::Exit(HeadlessExit::BridgeClosedUnexpectedly),
    }
}

/// [`init_step`]: what was received while the bridge starts.
pub fn init_phase(received: Received) -> (r: PhaseStep)
    ensures
        r.deep_view() == init_step(received.deep_view()),
{
    match received {
        Received::Event(envelope) => match &envelope.event {
            BridgeEvent::Initialized { .. } => PhaseStep::Done(envelope),
            BridgeEvent::ConnectionFailed { .. } => PhaseStep::Exit(
                HeadlessExit::ConnectionFailed,
            ),
            _ => PhaseStep::Wait,
        },
        Received::TimedOut => PhaseStep::Exit(HeadlessExit::ConnectionFailed),
        Received::Closed => PhaseStep::Exit(HeadlessExit::BridgeClosedUnexpectedly),
        Received::Failed => PhaseStep::Exit(HeadlessExit::BridgeClosedUnexpectedly),
    }
}

/// [`connect_step`]: what was received while the session is set up.
pub fn connect_phase(received: Received) -> (r: PhaseStep)
    ensures
        r.deep_view() == connect_step(received.deep_view()),
{
    match received {
        Received::Event(envelope) => match &envelope.event {
            BridgeEvent::Connected { .. } => PhaseStep::Done(envelope),
            BridgeEvent::SessionReplaced { .. } => PhaseStep::Done(envelope),
            BridgeEvent::AuthRequired { .. } => PhaseStep::Exit(HeadlessExit::AuthRequired),
            BridgeEvent::ConnectionFailed { .. } => PhaseStep::Exit(
                HeadlessExit::ConnectionFailed,
            ),
            _ => PhaseStep::Wait,
        },
        Received::TimedOut => PhaseStep::Exit(HeadlessExit::ConnectionFailed),
        Received::Closed => PhaseStep::Exit(HeadlessExit::BridgeClosedUnexpectedly),
        Received::Failed => PhaseStep::Exit(HeadlessExit::BridgeClosedUnexpectedly),
    }
}

/// The milliseconds left of a limit that has run since the phase began; nothing
/// once it is used up. Events that are passed over do not stretch the limit.
pub fn time_left(limit_secs: u64, elapsed_millis: u128) -> (r: Option<u128>)
    ensures
        match r {
            Some(left) => left > 0 && elapsed_millis + left == limit_secs * 1000,
            None => elapsed_millis >= limit_secs * 1000,
        },
        r is Some <==> elapsed_millis < limit_secs * 1000,
        elapsed_millis == 0 && limit_secs > 0 ==> (r matches Some(left) && left == limit_secs * 1000),
{
    let limit: u128 = limit_secs as u128 * 1000;
    if elapsed_millis < limit {
        Some(limit - elapsed_millis)
    } else {
        None
    }
}

/// What to do on something that happened while a turn runs.
#[derive(Debug, Clone, Copy, PartialEq, Eq)]
pub struct StreamStep {
    /// Whether to start the idle window anew.
    pub activity: bool,
    /// Whether to write the event.
    pub emit: bool,
    /// Whether to ask the bridge to cancel the turn.
    pub cancel: bool,
    /// How the session ends, if it does.
    pub exit: Option<HeadlessExit>,
}

/// What can happen while a turn runs.
#[derive(Debug, PartialEq, Eq)]
pub enum StreamInput {
    /// Something was received, or the bridge is gone.
    Received(Received),
    /// A timer was looked at.
    Tick(WatchdogTick),
}

/// The content of a [`StreamInput`].
pub enum StreamInputView {
    Received(ReceivedView),
    Tick(WatchdogTick),
}

impl DeepView for StreamInput {
    type V = StreamInputView;

    open spec fn deep_view(&self) -> StreamInputView {
        match self {
            StreamInput::Received(received) => StreamInputView::Received(received.deep_view()),
            StreamInput::Tick(tick) => StreamInputView::Tick(*tick),
        }
    }
}

/// Whether an event asks for something that only a person can answer.
pub open spec fn is_interactive(event: BridgeView) -> bool {
    event is PermissionRequest || event is QuestionRequest || event is ElicitationRequest
}

/// How an event ends the session, if it does.
pub open spec fn end_by_event(event: BridgeView) -> Option<HeadlessExit> {
    match event {
        BridgeView::TurnComplete { terminal_reason, .. } => Some(
            match terminal_reason {
                None => HeadlessExit::Completed,
                Some(TerminalReason::Completed) => HeadlessExit::Completed,
                Some(other) => HeadlessExit::NonCompletedTerminal(Some(other)),
            },
        ),
        BridgeView::TurnError { terminal_reason, .. } => Some(
            HeadlessExit::NonCompletedTerminal(terminal_reason),
        ),
        BridgeView::AuthRequired { .. } => Some(HeadlessExit::AuthRequired),
        BridgeView::ConnectionFailed { .. } => Some(HeadlessExit::ConnectionFailed),
        _ => if is_interactive(event) {
            Some(HeadlessExit::InteractivePromptLeaked)
        } else {
            None
        },
    }
}

/// What to do on something that happened while a turn runs. Every event counts as
/// activity. An interactive request is not written, since it may hold what nobody
/// asked to see; the turn is cancelled. Every other event is written. When a timer
/// has run out, the turn is cancelled too.
pub open spec fn stream_step(input: StreamInputView) -> StreamStep {
    match input {
        StreamInputView::Received(ReceivedView::Event(envelope)) => StreamStep {
            activity: true,
            emit: !is_interactive(envelope.event),
            cancel: is_interactive(envelope.event),
            exit: end_by_event(envelope.event),
        },
        StreamInputView::Received(_) => StreamStep {
            activity: false,
            emit: false,
            cancel: false,
            exit: Some(HeadlessExit::BridgeClosedUnexpectedly),
        },
        StreamInputView::Tick(WatchdogTick::IdleExpired) => StreamStep {
            activity: false,
            emit: false,
            cancel: true,
            exit: Some(HeadlessExit::IdleTimeout),
        },
        StreamInputView::Tick(WatchdogTick::HardExpired) => StreamStep {
            activity: false,
            emit: false,
            cancel: true,
            exit: Some(HeadlessExit::HardTimeout),
        },
        StreamInputView::Tick(WatchdogTick::Continue) => StreamStep {
            activity: false,
            emit: false,
            cancel: false,
            exit: None,
        },
    }
}

/// [`stream_step`]: what to do on something that happened while a turn runs.
pub fn streaming_phase(input: &StreamInput) -> (r: StreamStep)
    ensures
        r == stream_step(input.deep_view()),
{
    match input {
        StreamInput::Received(Received::Event(envelope)) => {
            let (interactive, exit) = match &envelope.event {
                BridgeEvent::PermissionRequest { .. } => (
                    true,
                    Some(HeadlessExit::InteractivePromptLeaked),
                ),
                BridgeEvent::QuestionRequest { .. } => (
                    true,
                    Some(HeadlessExit::InteractivePromptLeaked),
                ),
                BridgeEvent::ElicitationRequest { .. } => (
                    true,
                    Some(HeadlessExit::InteractivePromptLeaked),
                ),
                BridgeEvent::TurnComplete { session_id: _, terminal_reason } => (
                    false,
                    Some(
                        match *terminal_reason {
                            None => HeadlessExit::Completed,
                            Some(TerminalReason::Completed) => HeadlessExit::Completed,
                            Some(other) => HeadlessExit::NonCompletedTerminal(Some(other)),
                        },
                    ),
                ),
                BridgeEvent::TurnError {
                    session_id: _,
                    message: _,
                    error_kind: _,
                    terminal_reason,
                } => (false, Some(HeadlessExit::NonCompletedTerminal(*terminal_reason))),
                BridgeEvent::AuthRequired { .. } => (false, Some(HeadlessExit::AuthRequired)),
                BridgeEvent::ConnectionFailed { .. } => (
                    false,
                    Some(HeadlessExit::ConnectionFailed),
                ),
                _ => (false, None),
            };
            StreamStep { activity: true, emit: !interactive, cancel: interactive, exit }
        },
        StreamInput::Received(_) => StreamStep {
            activity: false,
            emit: false,
            cancel: false,
            exit: Some(HeadlessExit::BridgeClosedUnexpectedly),
        },
        StreamInput::Tick(WatchdogTick::IdleExpired) => StreamStep {
            activity: false,
            emit: false,
            cancel: true,
            exit: Some(HeadlessExit::IdleTimeout),
        },
        StreamInput::Tick(WatchdogTick::HardExpired) => StreamStep {
            activity: false,
            emit: false,
            cancel: true,
            exit: Some(HeadlessExit::HardTimeout),
        },
        StreamInput::Tick(WatchdogTick::Continue) => StreamStep {
            activity: false,
            emit: false,
            cancel: false,
            exit: None,
        },
    }
}

/// An interactive request is never written, and the turn is cancelled before the
/// session ends by it.
pub proof fn interactive_requests_are_not_written(envelope: EnvelopeView)
    requires
        is_interactive(envelope.event),
    ensures
        ({
            let step = stream_step(StreamInputView::Received(ReceivedView::Event(envelope)));
            &&& !step.emit
            &&& step.cancel
            &&& step.exit == Some(HeadlessExit::InteractivePromptLeaked)
        }),
{
}

/// A turn is cancelled exactly where the session ends without the bridge having
/// ended it: at an interactive request or when a timer has run out.
pub proof fn cancelled_exactly_when_cut_short(input: StreamInputView)
    ensures
        stream_step(input).cancel <==> {
            ||| stream_step(input).exit == Some(HeadlessExit::InteractivePromptLeaked)
            ||| stream_step(input).exit == Some(HeadlessExit::IdleTimeout)
            ||| stream_step(input).exit == Some(HeadlessExit::HardTimeout)
        },
{
}

/// Errors of a slash command or of a reload, and all updates, are written and the
/// session goes on.
pub proof fn harmless_events_do_not_end_the_session(envelope: EnvelopeView)
    requires
        envelope.event is SlashError || envelope.event is RuntimeReloadFailed
            || envelope.event is SessionUpdate || envelope.event is Initialized
            || envelope.event is Connected || envelope.event is SessionReplaced,
    ensures
        stream_step(StreamInputView::Received(ReceivedView::Event(envelope))) == (StreamStep {
            activity: true,
            emit: true,
            cancel: false,
            exit: None,
        }),
{
}

/// Whether a phase passes an event over.
pub open spec fn passed_over(step: PhaseStepView) -> bool {
    step is Wait
}

/// Where a phase gets to over all that was received: the first step that does not
/// wait on decides.
pub open spec fn phase_result(steps: Seq<PhaseStepView>) -> PhaseStepView
    decreases steps.len(),
{
    if steps.len() == 0 {
        PhaseStepView::Wait
    } else if passed_over(steps[0]) {
        phase_result(steps.drop_first())
    } else {
        steps[0]
    }
}

/// Stray events make no difference to where a phase gets to.
pub proof fn stray_events_make_no_difference(
    before: Seq<PhaseStepView>,
    stray: PhaseStepView,
    after: Seq<PhaseStepView>,
)
    requires
        passed_over(stray),
    ensures
        phase_result(before + seq![stray] + after) == phase_result(before + after),
    decreases before.len(),
{
    let with = before + seq![stray] + after;
    let without = before + after;
    if before.len() == 0 {
        assert(with.drop_first() =~= without);
    } else {
        assert(with[0] == before[0] && without[0] == before[0]);
        assert(with.drop_first() =~= before.drop_first() + seq![stray] + after);
        assert(without.drop_first() =~= before.drop_first() + after);
        if passed_over(before[0]) {
            stray_events_make_no_difference(before.drop_first(), stray, after);
        }
    }
}

/// A phase that is done has the event that it waited for, and a session can be
/// named after connecting.
pub proof fn phases_end_with_their_event(received: ReceivedView)
    ensures
        init_step(received) matches PhaseStepView::Done(envelope) ==> envelope.event is Initialized,
        connect_step(received) matches PhaseStepView::Done(envelope) ==> envelope.event is Connected
            || envelope.event is SessionReplaced,
{
}

/// The code that print mode exits with tells how it ended: 0 that the turn completed, 1 that it
/// ended in another way, 2 that only a person could have answered, 3 that a login is needed, 4
/// that there is no connection, 5 that the bridge went away, 64 that the command line cannot be
/// followed, and 124 that the time was up.
pub proof fn codes_tell_how_it_ended(reason: Option<TerminalReason>)
    ensures
        exit_code(HeadlessExit::Completed) == 0,
        exit_code(HeadlessExit::NonCompletedTerminal(reason)) == 1,
        exit_code(HeadlessExit::InteractivePromptLeaked) == 2,
        exit_code(HeadlessExit::AuthRequired) == 3,
        exit_code(HeadlessExit::ConnectionFailed) == 4,
        exit_code(HeadlessExit::BridgeClosedUnexpectedly) == 5,
        exit_code(HeadlessExit::UsageError) == 64,
        exit_code(HeadlessExit::IdleTimeout) == 124,
        exit_code(HeadlessExit::HardTimeout) == 124,
{
}

/// To skip all permissions beats everything else, and is also what is done, with a warning,
/// where nobody chose a mode and policy does not demand one.
pub proof fn permissions_are_skipped_by_wish_or_default(
    mode: Option<Seq<char>>,
    require_explicit: bool,
)
    ensures
        resolved_mode(true, mode, require_explicit) == (ResolvedModeView::Mode {
            mode: "bypassPermissions"@,
            warning: None,
        }),
        resolved_mode(false, None, false) matches ResolvedModeView::Mode { mode: chosen, warning }
            && chosen == "bypassPermissions"@ && warning == Some(
            "warning: --permission-mode not set; defaulting to bypassPermissions\nwarning: set LINGXI_HEADLESS_REQUIRE_EXPLICIT_PERMISSION_MODE=1 to require explicit opt-in"@,
        ),
        mode is Some ==> resolved_mode(false, mode, require_explicit) == (ResolvedModeView::Mode {
            mode: mode->0,
            warning: None,
        }),
        resolved_mode(false, None, true) is RefuseExplicitRequired,
{
}

/// A prompt on the command line is used as it is, whatever standard input is; without one,
/// standard input is read, unless it is a terminal.
pub proof fn prompts_on_the_command_line_go_first(prompt: Seq<char>, stdin_is_tty: bool)
    ensures
        prompt_source(Some(prompt), stdin_is_tty) == PromptSourceView::Provided(prompt),
        prompt_source(None, false) is ReadStdin,
        prompt_source(None, true) is RefuseTty,
{
}

/// While the bridge starts and while a session is set up, the phase is done with the very
/// message that it waits for, and with no other.
pub proof fn phases_wait_for_their_event(envelope: EnvelopeView)
    ensures
        ({
            let received = ReceivedView::Event(envelope);
            let event = envelope.event;
            &&& event is Initialized <==> init_step(received) is Done
            &&& event is Initialized ==> init_step(received) == PhaseStepView::Done(envelope)
            &&& event is ConnectionFailed <==> init_step(received) is Exit
            &&& event is Connected || event is SessionReplaced <==> connect_step(received) is Done
            &&& event is Connected || event is SessionReplaced ==> connect_step(received)
                == PhaseStepView::Done(envelope)
            &&& event is AuthRequired ==> connect_step(received) == PhaseStepView::Exit(
                HeadlessExit::AuthRequired,
            )
            &&& event is ConnectionFailed ==> connect_step(received) == PhaseStepView::Exit(
                HeadlessExit::ConnectionFailed,
            )
            &&& event is ConnectionFailed ==> init_step(received) == PhaseStepView::Exit(
                HeadlessExit::ConnectionFailed,
            )
            &&& connect_step(received) is Exit ==> event is AuthRequired || event
                is ConnectionFailed
        }),
{
}

/// Where nothing is received any more, a phase ends: for want of a connection where the time is
/// up, else since the bridge went away.
pub proof fn phases_end_where_nothing_comes(received: ReceivedView)
    requires
        !(received is Event),
    ensures
        ({
            let exit = if received is TimedOut {
                HeadlessExit::ConnectionFailed
            } else {
                HeadlessExit::BridgeClosedUnexpectedly
            };
            &&& init_step(received) == PhaseStepView::Exit(exit)
            &&& connect_step(received) == PhaseStepView::Exit(exit)
        }),
{
}

/// While a turn runs, the session ends exactly with the end of the turn, an error of the turn, a
/// call for a login, a failed connection or an interactive request, each in its own way. A turn
/// that gives no reason has completed.
pub proof fn turns_end_in_their_own_way(envelope: EnvelopeView)
    ensures
        ({
            let step = stream_step(StreamInputView::Received(ReceivedView::Event(envelope)));
            &&& step.activity
            &&& match envelope.event {
                BridgeView::TurnComplete { terminal_reason, .. } => step.emit && step.exit == Some(
                    if terminal_reason is None || terminal_reason == Some(
                        TerminalReason::Completed,
                    ) {
                        HeadlessExit::Completed
                    } else {
                        HeadlessExit::NonCompletedTerminal(terminal_reason)
                    },
                ),
                BridgeView::TurnError { terminal_reason, .. } => step.emit && step.exit == Some(
                    HeadlessExit::NonCompletedTerminal(terminal_reason),
                ),
                BridgeView::AuthRequired { .. } => step.emit && step.exit == Some(
                    HeadlessExit::AuthRequired,
                ),
                BridgeView::ConnectionFailed { .. } => step.emit && step.exit == Some(
                    HeadlessExit::ConnectionFailed,
                ),
                BridgeView::PermissionRequest { .. } => !step.emit && step.cancel && step.exit
                    == Some(HeadlessExit::InteractivePromptLeaked),
                BridgeView::QuestionRequest { .. } => !step.emit && step.cancel && step.exit
                    == Some(HeadlessExit::InteractivePromptLeaked),
                BridgeView::ElicitationRequest { .. } => !step.emit && step.cancel && step.exit
                    == Some(HeadlessExit::InteractivePromptLeaked),
                _ => step.emit && !step.cancel && step.exit is None,
            }
        }),
{
}

/// While a turn runs, a timer that has run out cancels it and ends the session by its name, a
/// bridge that goes away ends it without that, and a look at timers with time left changes
/// nothing.
pub proof fn timers_cancel_the_turn(received: ReceivedView)
    requires
        !(received is Event),
    ensures
        ({
            let idle = stream_step(StreamInputView::Tick(WatchdogTick::IdleExpired));
            let hard = stream_step(StreamInputView::Tick(WatchdogTick::HardExpired));
            let none = stream_step(StreamInputView::Tick(WatchdogTick::Continue));
            let gone = stream_step(StreamInputView::Received(received));
            &&& idle.cancel && idle.exit == Some(HeadlessExit::IdleTimeout)
            &&& hard.cancel && hard.exit == Some(HeadlessExit::HardTimeout)
            &&& !none.cancel && none.exit is None
            &&& !gone.cancel && gone.exit == Some(HeadlessExit::BridgeClosedUnexpectedly)
            &&& !idle.emit && !hard.emit && !none.emit && !gone.emit
            &&& !idle.activity && !hard.activity && !none.activity && !gone.activity
        }),
{
}

/// The bridge has fifteen seconds to come up, a session thirty to be connected, and the bridge
/// five to end by itself.
pub proof fn phases_have_their_limits()
    ensures
        INIT_TIMEOUT_SECS == 15,
        CONNECT_TIMEOUT_SECS == 30,
        SHUTDOWN_TIMEOUT_SECS == 5,
{
}

} // verus!

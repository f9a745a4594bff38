use lingxi_ascendc::agent::types::{InitializeResult, SessionLaunchSettings, TerminalReason};
use lingxi_ascendc::agent::wire::{BridgeEvent, EventEnvelope};
use lingxi_ascendc::headless::driver::{
    classify_prompt, connect_phase, init_phase, resolve_permission_mode, streaming_phase,
    time_left, HeadlessExit, PhaseStep, PromptSource, Received, ResolvedPermissionMode,
    StreamInput, CONNECT_TIMEOUT_SECS, INIT_TIMEOUT_SECS,
};
use lingxi_ascendc::headless::session::{Session, SessionAction, SessionInput, SessionPhase};
use lingxi_ascendc::headless::watchdog::{Watchdog, WatchdogTick};
use lingxi_ascendc::json::Json;
use std::collections::VecDeque;

#[test]
fn dangerously_skip_wins_over_everything() {
    let r = resolve_permission_mode(true, None, true);
    assert!(matches!(
        r,
        ResolvedPermissionMode::Mode {
            mode: "bypassPermissions",
            warning: None
        }
    ));
}

#[test]
fn explicit_mode_used_as_is_no_warning() {
    let r = resolve_permission_mode(false, Some("dontAsk"), false);
    let ResolvedPermissionMode::Mode { mode, warning } = r else {
        panic!("expected Mode")
    };
    assert_eq!(mode, "dontAsk");
    assert!(warning.is_none());
}

#[test]
fn explicit_mode_beats_env_hatch() {
    let r = resolve_permission_mode(false, Some("dontAsk"), true);
    let ResolvedPermissionMode::Mode { mode, warning } = r else {
        panic!("expected Mode")
    };
    assert_eq!(mode, "dontAsk");
    assert!(warning.is_none());
}

#[test]
fn neither_set_with_env_unset_warns_and_bypasses() {
    let r = resolve_permission_mode(false, None, false);
    let ResolvedPermissionMode::Mode { mode, warning } = r else {
        panic!("expected Mode")
    };
    assert_eq!(mode, "bypassPermissions");
    let w = warning.expect("warning required when defaulting to bypass");
    assert!(w.contains("defaulting to bypassPermissions"));
    assert!(w.contains("LINGXI_HEADLESS_REQUIRE_EXPLICIT_PERMISSION_MODE"));
}

#[test]
fn neither_set_with_env_set_refuses() {
    assert_eq!(
        resolve_permission_mode(false, None, true),
        ResolvedPermissionMode::RefuseExplicitRequired
    );
}

#[test]
fn positional_prompt_used_regardless_of_tty() {
    assert_eq!(
        classify_prompt(Some("hi"), true),
        PromptSource::Provided("hi".to_owned())
    );
    assert_eq!(
        classify_prompt(Some("hi"), false),
        PromptSource::Provided("hi".to_owned())
    );
}

#[test]
fn missing_prompt_with_piped_stdin_reads_stdin() {
    assert_eq!(classify_prompt(None, false), PromptSource::ReadStdin);
}

#[test]
fn missing_prompt_with_tty_stdin_refuses() {
    assert_eq!(classify_prompt(None, true), PromptSource::RefuseTty);
}

/// A bridge that hands out events, each after a number of seconds, and is gone
/// once they are used up.
struct MockSource {
    queue: VecDeque<(Option<EventEnvelope>, u64)>,
}

impl MockSource {
    fn new(items: Vec<(Option<EventEnvelope>, u64)>) -> Self {
        Self { queue: items.into() }
    }

    fn next(&mut self) -> (Option<EventEnvelope>, u128) {
        let (event, secs) = self.queue.pop_front().unwrap_or((None, 0));
        (event, u128::from(secs) * 1000)
    }
}

fn run_phase(
    step: impl Fn(Received) -> PhaseStep,
    limit_secs: u64,
    src: &mut MockSource,
) -> Result<EventEnvelope, HeadlessExit> {
    let mut elapsed: u128 = 0;
    loop {
        let received = match time_left(limit_secs, elapsed) {
            None => Received::TimedOut,
            Some(left) => {
                let (event, after) = src.next();
                if after >= left {
                    elapsed += left;
                    Received::TimedOut
                } else {
                    elapsed += after;
                    match event {
                        Some(envelope) => Received::Event(envelope),
                        None => Received::Closed,
                    }
                }
            }
        };
        match step(received) {
            PhaseStep::Done(envelope) => return Ok(envelope),
            PhaseStep::Exit(exit) => return Err(exit),
            PhaseStep::Wait => {}
        }
    }
}

fn run_init(src: &mut MockSource) -> Result<EventEnvelope, HeadlessExit> {
    run_phase(init_phase, INIT_TIMEOUT_SECS, src)
}

fn run_connect(src: &mut MockSource) -> Result<EventEnvelope, HeadlessExit> {
    run_phase(connect_phase, CONNECT_TIMEOUT_SECS, src)
}

fn envelope(event: BridgeEvent) -> EventEnvelope {
    EventEnvelope { request_id: None, event }
}

fn initialized_envelope() -> EventEnvelope {
    envelope(BridgeEvent::Initialized {
        result: InitializeResult {
            agent_name: "lingxi".into(),
            agent_version: "0.0.0-test".into(),
            capabilities: Json::Object(Vec::new()),
        },
    })
}

fn connection_failed_envelope() -> EventEnvelope {
    envelope(BridgeEvent::ConnectionFailed { message: "boom".into() })
}

fn auth_required_envelope() -> EventEnvelope {
    envelope(BridgeEvent::AuthRequired {
        method_name: "claude_oauth".into(),
        method_description: "log in".into(),
    })
}

fn connected_envelope() -> EventEnvelope {
    envelope(BridgeEvent::Connected {
        session_id: "s1".into(),
        cwd: "/tmp".into(),
        current_model: current_model(),
    })
}

fn current_model() -> Json {
    let fields = vec![
        ("requested_id", Json::Null),
        ("resolved_id", Json::Text("model".to_owned())),
        ("display_name_short", Json::Text("Model".to_owned())),
        ("display_name_long", Json::Text("Model".to_owned())),
        ("catalog_id", Json::Null),
        ("supports_effort", Json::Bool(false)),
        ("supported_effort_levels", Json::List(Vec::new())),
        ("supports_fast_mode", Json::Null),
        ("supports_auto_mode", Json::Null),
        ("supports_adaptive_thinking", Json::Null),
        ("is_authoritative", Json::Bool(true)),
    ];
    Json::Object(fields.into_iter().map(|(key, value)| (key.to_owned(), value)).collect())
}

fn agent_message_envelope(text: &str) -> EventEnvelope {
    let content = Json::Object(vec![
        ("type".to_owned(), Json::Text("text".to_owned())),
        ("text".to_owned(), Json::Text(text.to_owned())),
    ]);
    envelope(BridgeEvent::SessionUpdate {
        session_id: "s1".into(),
        update: Json::Object(vec![
            ("type".to_owned(), Json::Text("agent_message_chunk".to_owned())),
            ("content".to_owned(), content),
        ]),
    })
}

fn turn_complete_envelope(reason: Option<TerminalReason>) -> EventEnvelope {
    envelope(BridgeEvent::TurnComplete { session_id: "s1".into(), terminal_reason: reason })
}

fn turn_error_envelope(reason: Option<TerminalReason>) -> EventEnvelope {
    envelope(BridgeEvent::TurnError {
        session_id: "s1".into(),
        message: "boom".into(),
        error_kind: None,
        terminal_reason: reason,
    })
}

fn slash_error_envelope() -> EventEnvelope {
    envelope(BridgeEvent::SlashError { session_id: "s1".into(), message: "bad slash".into() })
}

fn permission_request_envelope() -> EventEnvelope {
    envelope(BridgeEvent::PermissionRequest { session_id: "s1".into() })
}

#[test]
fn init_phase_returns_envelope_when_initialized_arrives_in_time() {
    let mut src = MockSource::new(vec![(Some(initialized_envelope()), 2)]);
    let env = run_init(&mut src).expect("init should succeed");
    assert!(matches!(env.event, BridgeEvent::Initialized { .. }));
}

#[test]
fn init_phase_times_out_after_15s_silence() {
    let mut src = MockSource::new(vec![(None, 60)]);
    let err = run_init(&mut src).expect_err("must time out");
    assert_eq!(err, HeadlessExit::ConnectionFailed);
    assert_eq!(err.code(), 4);
}

#[test]
fn init_phase_maps_connection_failed_to_exit_4() {
    let mut src = MockSource::new(vec![(Some(connection_failed_envelope()), 0)]);
    let err = run_init(&mut src).expect_err("must fail");
    assert_eq!(err, HeadlessExit::ConnectionFailed);
}

#[test]
fn init_phase_eof_before_initialized_is_bridge_closed() {
    let mut src = MockSource::new(Vec::new());
    let err = run_init(&mut src).expect_err("must fail");
    assert_eq!(err, HeadlessExit::BridgeClosedUnexpectedly);
    assert_eq!(err.code(), 5);
}

#[test]
fn stray_events_do_not_stretch_the_deadline() {
    let mut src = MockSource::new(vec![
        (Some(slash_error_envelope()), 10),
        (Some(slash_error_envelope()), 4),
        (Some(initialized_envelope()), 2),
    ]);
    assert_eq!(run_init(&mut src).expect_err("too late"), HeadlessExit::ConnectionFailed);
    let mut src = MockSource::new(vec![
        (Some(slash_error_envelope()), 10),
        (Some(initialized_envelope()), 4),
    ]);
    assert!(run_init(&mut src).is_ok());
}

#[test]
fn connect_phase_returns_connected_in_time() {
    let mut src = MockSource::new(vec![(Some(connected_envelope()), 5)]);
    let env = run_connect(&mut src).expect("connect should succeed");
    assert!(matches!(env.event, BridgeEvent::Connected { .. }));
}

#[test]
fn connect_phase_auth_required_maps_to_exit_3() {
    let mut src = MockSource::new(vec![(Some(auth_required_envelope()), 0)]);
    let err = run_connect(&mut src).expect_err("must fail");
    assert_eq!(err, HeadlessExit::AuthRequired);
    assert_eq!(err.code(), 3);
}

#[test]
fn connect_phase_eof_before_connected_is_bridge_closed() {
    let mut src = MockSource::new(Vec::new());
    let err = run_connect(&mut src).expect_err("must fail");
    assert_eq!(err, HeadlessExit::BridgeClosedUnexpectedly);
}

#[test]
fn phases_take_read_errors_for_a_closed_bridge() {
    assert_eq!(
        init_phase(Received::Failed),
        PhaseStep::Exit(HeadlessExit::BridgeClosedUnexpectedly)
    );
    assert_eq!(
        connect_phase(Received::Event(connection_failed_envelope())),
        PhaseStep::Exit(HeadlessExit::ConnectionFailed)
    );
    assert_eq!(init_phase(Received::Event(auth_required_envelope())), PhaseStep::Wait);
}

/// Runs a turn of the session `s1`; returns its end, the names of the events written
/// and the sessions that were cancelled.
fn run_streaming(
    src: &mut MockSource,
    idle_secs: u64,
) -> (HeadlessExit, Vec<String>, Vec<String>) {
    let second: u128 = 1_000_000_000;
    let mut now: u128 = 0;
    let mut dog = Watchdog::new(now, u128::from(idle_secs) * second, None);
    let mut written = Vec::new();
    let mut cancels = Vec::new();
    let mut session = Session {
        cwd: "/tmp".to_owned(),
        prompt: "hi".to_owned(),
        resume: None,
        launch_settings: SessionLaunchSettings { settings: None },
        phase: SessionPhase::Streaming("s1".to_owned()),
        emitting: true,
    };
    loop {
        let (event, millis) = src.next();
        let arrives = now + millis * 1_000_000;
        let input = if arrives <= dog.next_deadline() {
            now = arrives;
            match event {
                Some(envelope) => StreamInput::Received(Received::Event(envelope)),
                None => StreamInput::Received(Received::Closed),
            }
        } else {
            now = dog.next_deadline();
            StreamInput::Tick(dog.tick(now))
        };
        let exit = streaming_phase(&input).exit;
        let actions = session.run_session(match input {
            StreamInput::Received(received) => SessionInput::Received(received),
            StreamInput::Tick(tick) => SessionInput::Tick(tick),
        });
        for action in actions {
            match action {
                SessionAction::NoteActivity => dog.note_activity(now),
                SessionAction::Cancel(id) => cancels.push(id),
                SessionAction::Emit(event) => written.push(event.event_name().to_owned()),
                _ => {}
            }
        }
        if let Some(exit) = exit {
            return (exit, written, cancels);
        }
    }
}

#[test]
fn happy_path_chunk_then_complete_returns_completed() {
    let mut src = MockSource::new(vec![
        (Some(agent_message_envelope("hi")), 0),
        (Some(turn_complete_envelope(Some(TerminalReason::Completed))), 0),
    ]);
    let (exit, events, cancels) = run_streaming(&mut src, 60);
    assert_eq!(exit, HeadlessExit::Completed);
    assert_eq!(events, vec!["session_update", "turn_complete"]);
    assert!(cancels.is_empty(), "happy path must not cancel the turn");
}

#[test]
fn permission_request_returns_prompt_leaked_and_cancels() {
    let mut src = MockSource::new(vec![(Some(permission_request_envelope()), 0)]);
    let (exit, events, cancels) = run_streaming(&mut src, 60);
    assert_eq!(exit, HeadlessExit::InteractivePromptLeaked);
    assert!(events.is_empty(), "interactive prompt must not be emitted");
    assert_eq!(cancels, vec!["s1".to_owned()]);
}

#[test]
fn turn_error_returns_non_completed_terminal_with_reason() {
    let mut src = MockSource::new(vec![(Some(turn_error_envelope(None)), 0)]);
    let (exit, events, _) = run_streaming(&mut src, 60);
    assert_eq!(exit, HeadlessExit::NonCompletedTerminal(None));
    assert_eq!(exit.code(), 1);
    assert_eq!(events, vec!["turn_error"]);
}

#[test]
fn slash_error_is_non_fatal_and_loop_continues() {
    let mut src = MockSource::new(vec![
        (Some(slash_error_envelope()), 0),
        (Some(turn_complete_envelope(Some(TerminalReason::Completed))), 0),
    ]);
    let (exit, events, cancels) = run_streaming(&mut src, 60);
    assert_eq!(exit, HeadlessExit::Completed);
    assert_eq!(events, vec!["slash_error", "turn_complete"]);
    assert!(cancels.is_empty());
}

#[test]
fn eof_after_chunk_is_bridge_closed_unexpectedly() {
    let mut src = MockSource::new(vec![(Some(agent_message_envelope("partial")), 0)]);
    let (exit, _, _) = run_streaming(&mut src, 60);
    assert_eq!(exit, HeadlessExit::BridgeClosedUnexpectedly);
    assert_eq!(exit.code(), 5);
}

#[test]
fn idle_watchdog_expiration_cancels_turn_and_returns_idle_timeout() {
    let mut src = MockSource::new(vec![(None, 3600)]);
    let (exit, events, cancels) = run_streaming(&mut src, 2);
    assert_eq!(exit, HeadlessExit::IdleTimeout);
    assert_eq!(exit.code(), 124);
    assert_eq!(cancels, vec!["s1".to_owned()]);
    assert!(events.is_empty(), "watchdog path must not emit events");
}

#[test]
fn turn_complete_max_turns_returns_non_completed_terminal_max_turns() {
    let mut src =
        MockSource::new(vec![(Some(turn_complete_envelope(Some(TerminalReason::MaxTurns))), 0)]);
    let (exit, events, cancels) = run_streaming(&mut src, 60);
    assert_eq!(exit, HeadlessExit::NonCompletedTerminal(Some(TerminalReason::MaxTurns)));
    assert_eq!(events, vec!["turn_complete"]);
    assert!(cancels.is_empty());
}

#[test]
fn other_ends_of_a_turn() {
    let step = |e: BridgeEvent| streaming_phase(&StreamInput::Received(Received::Event(envelope(e))));
    for e in [
        BridgeEvent::QuestionRequest { session_id: "s".into() },
        BridgeEvent::ElicitationRequest { session_id: "s".into() },
    ] {
        let s = step(e);
        assert_eq!(s.exit, Some(HeadlessExit::InteractivePromptLeaked));
        assert!(s.cancel && !s.emit);
    }
    let s = step(BridgeEvent::ConnectionFailed { message: "m".into() });
    assert_eq!(s.exit, Some(HeadlessExit::ConnectionFailed));
    assert!(s.emit && !s.cancel);
    assert_eq!(step(auth_required_envelope().event).exit, Some(HeadlessExit::AuthRequired));
    assert_eq!(step(turn_complete_envelope(None).event).exit, Some(HeadlessExit::Completed));
    let hard = streaming_phase(&StreamInput::Tick(WatchdogTick::HardExpired));
    assert_eq!(hard.exit, Some(HeadlessExit::HardTimeout));
    assert!(hard.cancel);
    let spurious = streaming_phase(&StreamInput::Tick(WatchdogTick::Continue));
    assert!(spurious.exit.is_none() && !spurious.cancel && !spurious.emit && !spurious.activity);
}

#[test]
fn unknown_modes_are_passed_on() {
    let r = resolve_permission_mode(false, Some("somethingNew"), true);
    assert_eq!(r, ResolvedPermissionMode::Mode { mode: "somethingNew", warning: None });
}

#[test]
fn completed_exits_zero() {
    assert_eq!(HeadlessExit::Completed.code(), 0);
}

#[test]
fn non_completed_terminal_exits_one_for_every_terminal_reason() {
    // Cover every TerminalReason variant; all non-Completed reasons → 1.
    let reasons = [
        TerminalReason::BlockingLimit,
        TerminalReason::RapidRefillBreaker,
        TerminalReason::PromptTooLong,
        TerminalReason::ImageError,
        TerminalReason::ModelError,
        TerminalReason::AbortedStreaming,
        TerminalReason::AbortedTools,
        TerminalReason::StopHookPrevented,
        TerminalReason::HookStopped,
        TerminalReason::ToolDeferred,
        TerminalReason::MaxTurns,
    ];
    for r in reasons {
        assert_eq!(
            HeadlessExit::NonCompletedTerminal(Some(r)).code(),
            1,
            "{r:?} should map to exit 1"
        );
    }
    // Bare TurnError with no reason: also 1.
    assert_eq!(HeadlessExit::NonCompletedTerminal(None).code(), 1);
}

#[test]
fn interactive_prompt_leak_exits_two() {
    assert_eq!(HeadlessExit::InteractivePromptLeaked.code(), 2);
}

#[test]
fn auth_required_exits_three() {
    assert_eq!(HeadlessExit::AuthRequired.code(), 3);
}

#[test]
fn connection_failed_exits_four() {
    // Same code for live ConnectionFailed event AND init/connect timeouts —
    // the driver maps the timeouts onto this variant in init/connect_phase.
    assert_eq!(HeadlessExit::ConnectionFailed.code(), 4);
}

#[test]
fn bridge_eof_exits_five() {
    assert_eq!(HeadlessExit::BridgeClosedUnexpectedly.code(), 5);
}

#[test]
fn usage_error_exits_64() {
    assert_eq!(HeadlessExit::UsageError.code(), 64);
}

#[test]
fn idle_and_hard_timeout_both_exit_124() {
    assert_eq!(HeadlessExit::IdleTimeout.code(), 124);
    assert_eq!(HeadlessExit::HardTimeout.code(), 124);
}

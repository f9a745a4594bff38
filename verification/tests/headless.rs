use lingxi_ascendc::agent::types::{InitializeResult, PromptChunk, TerminalReason};
use lingxi_ascendc::agent::wire::{BridgeCommand, BridgeEvent, EventEnvelope};
use lingxi_ascendc::headless::driver::Received;
use lingxi_ascendc::headless::output::{Emitter, StreamJsonEmitter, TextEmitter};
use lingxi_ascendc::headless::session::{Session, SessionAction, SessionInput, SessionPhase};
use lingxi_ascendc::headless::watchdog::WatchdogTick;
use lingxi_ascendc::headless::{
    build_launch_settings, run_print, BridgeStartError, PrintStep, Stdin,
};
use lingxi_ascendc::json::{Json, JsonNumber};
use lingxi_ascendc::{CliPermissionMode, PrintArgs, PrintOutputFormat};

#[test]
fn module_compiles() {}

#[test]
fn build_launch_settings_includes_permission_mode() {
    let s = build_launch_settings("dontAsk", None, None);
    let v = s.settings.expect("settings");
    let perms = v.get("permissions").expect("permissions");
    assert_eq!(perms.get("defaultMode").and_then(|x| x.as_text()), Some("dontAsk"));
    assert!(v.get("model").is_none());
    assert!(v.get("maxTurns").is_none());
}

#[test]
fn build_launch_settings_includes_model_and_max_turns_when_set() {
    let s = build_launch_settings("bypassPermissions", Some("opus-4-7"), Some(7));
    let v = s.settings.expect("settings");
    assert_eq!(v.get("model").and_then(|x| x.as_text()), Some("opus-4-7"));
    assert_eq!(v.get("maxTurns"), Some(&Json::Number(JsonNumber::Unsigned(7))));
}

fn args(prompt: Option<&str>) -> PrintArgs {
    PrintArgs {
        prompt: prompt.map(str::to_owned),
        output_format: PrintOutputFormat::StreamJson,
        max_turns: None,
        timeout_secs: None,
        idle_timeout_secs: 1800,
        resume: None,
        continue_session: false,
        model: None,
    }
}

fn envelope(event: BridgeEvent) -> Received {
    Received::Event(EventEnvelope { request_id: None, event })
}

fn initialized() -> BridgeEvent {
    BridgeEvent::Initialized {
        result: InitializeResult {
            agent_name: "stub".into(),
            agent_version: "0.0".into(),
            capabilities: Json::Object(Vec::new()),
        },
    }
}

fn connected(session_id: &str) -> BridgeEvent {
    BridgeEvent::Connected {
        session_id: session_id.into(),
        cwd: "/tmp".into(),
        current_model: Json::Object(vec![(
            "resolved_id".to_owned(),
            Json::Text("stub".to_owned()),
        )]),
    }
}

fn chunk(session_id: &str, text: &str) -> BridgeEvent {
    BridgeEvent::SessionUpdate {
        session_id: session_id.into(),
        update: Json::Object(vec![
            ("type".to_owned(), Json::Text("agent_message_chunk".to_owned())),
            (
                "content".to_owned(),
                Json::Object(vec![
                    ("type".to_owned(), Json::Text("text".to_owned())),
                    ("text".to_owned(), Json::Text(text.to_owned())),
                ]),
            ),
        ]),
    }
}

fn turn_complete(session_id: &str, reason: Option<TerminalReason>) -> BridgeEvent {
    BridgeEvent::TurnComplete { session_id: session_id.into(), terminal_reason: reason }
}

/// What a whole print session did.
#[derive(Default)]
struct Transcript {
    sent: Vec<BridgeCommand>,
    cancelled: Vec<String>,
    stderr: String,
    stdout: String,
    code: Option<i32>,
}

/// Plays a print session against a bridge that answers with the given events.
fn play(prompt: &str, mut emitter: impl Emitter, events: Vec<BridgeEvent>) -> Transcript {
    let mut t = Transcript::default();
    let (prompt, launch_settings) = match run_print(
        &args(Some(prompt)),
        false,
        Some(CliPermissionMode::BypassPermissions),
        false,
        Stdin::Unread,
    ) {
        PrintStep::Launch { messages, prompt, launch_settings } => {
            assert!(messages.is_empty());
            (prompt, launch_settings)
        }
        other => panic!("unexpected: {other:?}"),
    };
    let mut session = Session::new("/tmp".to_owned(), prompt, None, launch_settings);
    let mut events = events.into_iter();
    let mut inputs = vec![SessionInput::Begin];
    while t.code.is_none() {
        let input = if inputs.is_empty() {
            SessionInput::Received(match events.next() {
                Some(event) => envelope(event),
                None => Received::Closed,
            })
        } else {
            inputs.remove(0)
        };
        for action in session.run_session(input) {
            match action {
                SessionAction::Send(command) => {
                    t.sent.push(command);
                    inputs.push(SessionInput::Sent);
                }
                SessionAction::Cancel(id) => t.cancelled.push(id),
                SessionAction::StartWatchdog
                | SessionAction::NoteActivity
                | SessionAction::FinishOutput => {}
                SessionAction::Emit(event) => {
                    emitter.emit_event(&event).expect("emits");
                    t.stdout.push_str(&emitter.take_output());
                }
                SessionAction::Report(line) => {
                    t.stderr.push_str(&line);
                    t.stderr.push('\n');
                }
                SessionAction::Exit(code) => t.code = Some(code),
            }
        }
    }
    t
}

#[test]
fn t16_happy_path_stream_json() {
    let session = "s-t16";
    let t = play(
        "ping",
        StreamJsonEmitter::new(),
        vec![
            initialized(),
            connected(session),
            chunk(session, "hi"),
            turn_complete(session, Some(TerminalReason::Completed)),
        ],
    );
    assert_eq!(t.code, Some(0));
    let stdout = t.stdout;
    let lines: Vec<_> = stdout.lines().collect();
    assert!(
        lines.first().is_some_and(|l| l.contains(r#""type":"system.init""#)),
        "expected system.init first; stdout:\n{stdout}"
    );
    assert!(
        lines.iter().any(|l| l.contains(r#""type":"system.session""#)),
        "expected system.session present; stdout:\n{stdout}"
    );
    assert!(
        lines.last().is_some_and(|l| l.contains(r#""type":"result.success""#)),
        "expected result.success last; stdout:\n{stdout}"
    );
    for line in &lines {
        assert!(line.contains(r#""v":1"#), "missing v:1 in line: {line}");
    }
}

#[test]
fn t17_happy_path_text() {
    let session = "s-t17";
    let t = play(
        "ping",
        TextEmitter::new(),
        vec![
            initialized(),
            connected(session),
            chunk(session, "hello world"),
            turn_complete(session, Some(TerminalReason::Completed)),
        ],
    );
    assert_eq!(t.code, Some(0));
    let stdout = t.stdout;
    assert!(stdout.contains("hello world"), "stdout missing prose; got: {stdout:?}");
    assert!(!stdout.contains(r#""type":"system.init""#));
}

#[test]
fn t19_rogue_permission_request_exit_2() {
    let session = "s-t19";
    let t = play(
        "ping",
        StreamJsonEmitter::new(),
        vec![
            initialized(),
            connected(session),
            BridgeEvent::PermissionRequest { session_id: session.into() },
        ],
    );
    assert_eq!(t.code, Some(2));
    assert_eq!(t.cancelled, vec![session.to_owned()]);
    assert_eq!(t.stdout.lines().count(), 2);
}

#[test]
fn t20_no_prompt_with_empty_stdin_exits_64() {
    let step = run_print(&args(Some("")), false, None, false, Stdin::Unread);
    assert!(matches!(step, PrintStep::Refuse { code: 64, .. }));
    let step = run_print(&args(None), false, None, false, Stdin::Read(String::new()));
    assert!(matches!(step, PrintStep::Refuse { code: 64, .. }));
}

#[test]
fn t21_terminal_reason_max_turns_exit_1() {
    let session = "s-t21";
    let t = play(
        "ping",
        StreamJsonEmitter::new(),
        vec![
            initialized(),
            connected(session),
            turn_complete(session, Some(TerminalReason::MaxTurns)),
        ],
    );
    assert_eq!(t.code, Some(1));
    let (stdout, stderr) = (t.stdout, t.stderr);
    assert!(
        stdout.contains(r#""type":"result.terminated""#),
        "expected result.terminated NDJSON line; stdout: {stdout}"
    );
    assert!(
        stdout.contains(r#""terminal_reason":"max_turns""#),
        "expected max_turns reason in NDJSON; stdout: {stdout}"
    );
    assert!(stderr.contains("max_turns"), "expected max_turns mention on stderr; stderr: {stderr}");
}

#[test]
fn commands_go_out_in_order_with_what_was_asked() {
    let t = play(
        "  ping  ",
        StreamJsonEmitter::new(),
        vec![initialized(), connected("s"), turn_complete("s", None)],
    );
    assert_eq!(
        t.sent,
        vec![
            BridgeCommand::Initialize { cwd: "/tmp".to_owned() },
            BridgeCommand::CreateSession {
                cwd: "/tmp".to_owned(),
                resume: None,
                launch_settings: build_launch_settings("bypassPermissions", None, None),
            },
            BridgeCommand::Prompt {
                session_id: "s".to_owned(),
                chunks: vec![PromptChunk {
                    kind: "text".to_owned(),
                    value: Json::Text("ping".to_owned()),
                }],
            },
        ]
    );
    assert!(t.stderr.is_empty());
}

#[test]
fn bridges_that_go_away_exit_5() {
    for events in [
        Vec::new(),
        vec![initialized()],
        vec![initialized(), connected("s"), chunk("s", "partial")],
    ] {
        assert_eq!(play("ping", StreamJsonEmitter::new(), events).code, Some(5));
    }
}

fn session() -> Session {
    Session::new(
        "/tmp".to_owned(),
        "ping".to_owned(),
        Some("old".to_owned()),
        build_launch_settings("plan", None, None),
    )
}

#[test]
fn commands_that_cannot_be_sent_exit_4() {
    let mut s = session();
    s.run_session(SessionInput::Begin);
    assert_eq!(
        s.run_session(SessionInput::SendFailed("gone".to_owned())),
        vec![
            SessionAction::Report("error: failed to send initialize: gone".to_owned()),
            SessionAction::Exit(4),
        ]
    );
    assert_eq!(s.phase, SessionPhase::Ended);
    let mut s = session();
    s.phase = SessionPhase::Creating;
    assert_eq!(
        s.run_session(SessionInput::SendFailed("gone".to_owned()))[0],
        SessionAction::Report("error: failed to send create_session: gone".to_owned())
    );
    let mut s = session();
    s.phase = SessionPhase::Prompting("s".to_owned());
    assert_eq!(
        s.run_session(SessionInput::SendFailed("gone".to_owned()))[0],
        SessionAction::Report("error: failed to send prompt: gone".to_owned())
    );
}

#[test]
fn write_trouble_is_not_bridge_trouble() {
    let mut s = session();
    s.phase = SessionPhase::Creating;
    let failed = |broken_pipe| SessionInput::EmitFailed {
        broken_pipe,
        message: "disk full".to_owned(),
    };
    assert_eq!(
        s.run_session(failed(false)),
        vec![SessionAction::Report("error: failed to write output: disk full".to_owned())]
    );
    assert!(s.emitting);
    s.phase = SessionPhase::Streaming("s".to_owned());
    assert_eq!(s.run_session(failed(false)), Vec::new());
    assert!(s.emitting);
    assert_eq!(s.run_session(failed(true)), Vec::new());
    assert!(!s.emitting);
    assert_eq!(
        s.run_session(SessionInput::Received(envelope(chunk("s", "x")))),
        vec![SessionAction::NoteActivity]
    );
    assert_eq!(
        s.run_session(SessionInput::Received(envelope(turn_complete("s", None)))),
        vec![SessionAction::NoteActivity, SessionAction::FinishOutput, SessionAction::Exit(0)]
    );
    assert_eq!(s.run_session(SessionInput::Tick(WatchdogTick::HardExpired)), Vec::new());
}

#[test]
fn timers_cut_a_turn_short() {
    let mut s = session();
    s.phase = SessionPhase::Streaming("s".to_owned());
    assert_eq!(s.run_session(SessionInput::Tick(WatchdogTick::Continue)), Vec::new());
    assert_eq!(
        s.run_session(SessionInput::Tick(WatchdogTick::IdleExpired)),
        vec![
            SessionAction::Cancel("s".to_owned()),
            SessionAction::FinishOutput,
            SessionAction::Exit(124),
        ]
    );
}

#[test]
fn phases_that_fail_exit_with_their_code() {
    let mut s = session();
    s.phase = SessionPhase::AwaitingInit;
    assert_eq!(
        s.run_session(SessionInput::Received(Received::TimedOut)),
        vec![SessionAction::Exit(4)]
    );
    let mut s = session();
    s.phase = SessionPhase::AwaitingConnect;
    let auth = BridgeEvent::AuthRequired { method_name: "m".into(), method_description: "d".into() };
    assert_eq!(s.run_session(SessionInput::Received(envelope(chunk("s", "early")))), Vec::new());
    assert_eq!(
        s.run_session(SessionInput::Received(envelope(auth))),
        vec![SessionAction::Exit(3)]
    );
}

#[test]
fn unknown_reasons_are_reported_as_such() {
    let mut s = session();
    s.phase = SessionPhase::Streaming("s".to_owned());
    let error = BridgeEvent::TurnError {
        session_id: "s".into(),
        message: "m".into(),
        error_kind: None,
        terminal_reason: None,
    };
    let actions = s.run_session(SessionInput::Received(envelope(error)));
    assert!(actions
        .contains(&SessionAction::Report("error: terminal_reason=unknown".to_owned())));
    assert_eq!(actions.last(), Some(&SessionAction::Exit(1)));
}

#[test]
fn print_mode_refuses_what_it_cannot_follow() {
    let refused = |step: PrintStep| match step {
        PrintStep::Refuse { messages, code } => {
            assert_eq!(code, 64);
            messages
        }
        other => panic!("unexpected: {other:?}"),
    };
    let messages = refused(run_print(&args(Some("hi")), false, None, true, Stdin::Unread));
    assert_eq!(messages.len(), 2);
    assert!(messages[0].starts_with("error: --permission-mode required by org policy"));
    let messages = refused(run_print(&args(None), true, None, true, Stdin::Terminal));
    assert_eq!(
        messages,
        vec![
            "error: stdin is a TTY and no positional prompt was provided",
            "hint: lingxi-ascendc -p \"your prompt here\"",
        ]
    );
    let failed = Stdin::ReadFailed("gone".to_owned());
    let messages = refused(run_print(&args(None), true, None, false, failed));
    assert_eq!(messages, vec!["error: failed to read prompt from stdin: gone"]);
    let messages = refused(run_print(&args(Some(" \n")), true, None, false, Stdin::Unread));
    assert_eq!(messages, vec!["error: prompt is empty"]);
}

#[test]
fn print_mode_reads_the_prompt_where_there_is_one() {
    assert_eq!(run_print(&args(None), true, None, false, Stdin::Unread), PrintStep::ReadStdin);
    let step = run_print(&args(None), false, None, false, Stdin::Read(" hi\n".to_owned()));
    match step {
        PrintStep::Launch { messages, prompt, launch_settings } => {
            assert_eq!(messages.len(), 1);
            assert!(messages[0].starts_with("warning: --permission-mode not set"));
            assert_eq!(prompt, "hi");
            assert_eq!(
                launch_settings,
                build_launch_settings("bypassPermissions", None, None)
            );
        }
        other => panic!("unexpected: {other:?}"),
    }
}

#[test]
fn bridges_that_do_not_start_exit_4() {
    assert_eq!(
        BridgeStartError::Resolve("x".to_owned()).report(),
        ("error: failed to resolve bridge: x".to_owned(), 4)
    );
    assert_eq!(
        BridgeStartError::Spawn("x".to_owned()).report(),
        ("error: failed to spawn bridge: x".to_owned(), 4)
    );
}

#[test]
fn a_whole_session_writes_what_its_phases_accept() {
    let mut session = session();
    let stray = || envelope(chunk("s1", "stray"));
    let inputs = vec![
        SessionInput::Begin,
        SessionInput::Received(stray()),
        SessionInput::Sent,
        SessionInput::Received(stray()),
        SessionInput::Received(envelope(initialized())),
        SessionInput::Sent,
        SessionInput::Received(envelope(initialized())),
        SessionInput::Received(envelope(connected("s1"))),
        SessionInput::EmitFailed { broken_pipe: false, message: "disk full".to_owned() },
        SessionInput::Sent,
        SessionInput::Received(envelope(chunk("s1", "one"))),
        SessionInput::Received(envelope(connected("s1"))),
        SessionInput::Tick(WatchdogTick::Continue),
        SessionInput::Received(envelope(chunk("s1", "two"))),
        SessionInput::Tick(WatchdogTick::HardExpired),
        SessionInput::Tick(WatchdogTick::HardExpired),
        SessionInput::Received(envelope(chunk("s1", "late"))),
    ];
    let mut written = Vec::new();
    let mut cancelled = Vec::new();
    let mut exits = Vec::new();
    for input in inputs {
        for action in session.run_session(input) {
            match action {
                SessionAction::Emit(event) => written.push(event),
                SessionAction::Cancel(id) => cancelled.push(id),
                SessionAction::Exit(code) => exits.push(code),
                _ => {}
            }
        }
    }
    assert_eq!(
        written,
        vec![
            initialized(),
            connected("s1"),
            chunk("s1", "one"),
            connected("s1"),
            chunk("s1", "two"),
        ]
    );
    assert_eq!(cancelled, vec!["s1".to_owned()]);
    assert_eq!(exits, vec![124]);
}

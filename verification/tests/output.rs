use lingxi_ascendc::agent::types::{InitializeResult, TerminalReason};
use lingxi_ascendc::agent::wire::BridgeEvent;
use lingxi_ascendc::headless::output::{
    event_to_json, Emitter, StreamJsonEmitter, TextEmitter,
};
use lingxi_ascendc::json::{parse, render, Json, JsonNumber, RenderError};

fn lines(buf: &str) -> Vec<serde_json::Value> {
    buf.lines()
        .filter(|l| !l.is_empty())
        .map(|l| serde_json::from_str::<serde_json::Value>(l).expect("valid json"))
        .collect()
}

fn emitted(ev: &BridgeEvent) -> String {
    let mut e = StreamJsonEmitter::new();
    e.emit_event(ev).unwrap();
    e.take_output()
}

fn fraction(f: f64) -> Json {
    Json::Number(JsonNumber::Float(serde_json::Number::from_f64(f).expect("finite")))
}

fn text(t: &str) -> Json {
    Json::Text(t.to_owned())
}

fn sample_initialize_result() -> InitializeResult {
    let off = || Json::Bool(false);
    InitializeResult {
        agent_name: "lingxi".into(),
        agent_version: "0.1".into(),
        capabilities: Json::Object(vec![
            ("prompt_image".to_owned(), off()),
            ("prompt_embedded_context".to_owned(), off()),
            ("supports_session_listing".to_owned(), off()),
            ("supports_resume_session".to_owned(), off()),
        ]),
    }
}

#[test]
fn stream_json_initialized_emits_system_init_v1() {
    let out = emitted(&BridgeEvent::Initialized { result: sample_initialize_result() });
    let l = lines(&out);
    assert_eq!(l.len(), 1);
    assert_eq!(l[0]["type"], "system.init");
    assert_eq!(l[0]["v"], 1);
    assert_eq!(l[0]["agent_name"], "lingxi");
}

#[test]
fn turn_complete_completed_emits_result_success() {
    let out = emitted(&BridgeEvent::TurnComplete {
        session_id: "s1".into(),
        terminal_reason: Some(TerminalReason::Completed),
    });
    let l = lines(&out);
    assert_eq!(l[0]["type"], "result.success");
    assert_eq!(l[0]["terminal_reason"], "completed");
}

#[test]
fn turn_complete_max_turns_emits_result_terminated() {
    let out = emitted(&BridgeEvent::TurnComplete {
        session_id: "s1".into(),
        terminal_reason: Some(TerminalReason::MaxTurns),
    });
    let l = lines(&out);
    assert_eq!(l[0]["type"], "result.terminated");
    assert_eq!(l[0]["terminal_reason"], "max_turns");
}

#[test]
fn slash_error_emits_error_event_kind_slash_error() {
    let out =
        emitted(&BridgeEvent::SlashError { session_id: "s1".into(), message: "bad".into() });
    let l = lines(&out);
    assert_eq!(l[0]["type"], "error_event");
    assert_eq!(l[0]["kind"], "slash_error");
}

#[test]
fn lines_never_embed_newlines() {
    let out = emitted(&BridgeEvent::SlashError {
        session_id: "s1".into(),
        message: "line1\nline2".into(),
    });
    // exactly one newline (the line terminator)
    let newlines = out.bytes().fold(0u32, |acc, b| acc + u32::from(b == b'\n'));
    assert_eq!(newlines, 1);
}

#[test]
fn keys_are_written_in_order_at_every_depth() {
    let out = emitted(&BridgeEvent::Initialized { result: sample_initialize_result() });
    assert_eq!(
        out,
        concat_lines(&[
            r#"{"agent_name":"lingxi","agent_version":"0.1","#,
            r#""capabilities":{"prompt_embedded_context":false,"prompt_image":false,"#,
            r#""supports_resume_session":false,"supports_session_listing":false},"#,
            r#""type":"system.init","v":1}"#,
            "\n",
        ])
    );
}

fn concat_lines(parts: &[&str]) -> String {
    parts.concat()
}

#[test]
fn every_event_has_its_form() {
    let model = || Json::Object(vec![("b".to_owned(), Json::Null), ("a".to_owned(), text("x"))]);
    let cases = vec![
        (
            BridgeEvent::Connected {
                session_id: "s".into(),
                cwd: "/w".into(),
                current_model: model(),
            },
            r#"{"cwd":"/w","model":{"a":"x","b":null},"session_id":"s","type":"system.session","v":1}"#,
        ),
        (
            BridgeEvent::SessionReplaced {
                session_id: "s".into(),
                cwd: "/w".into(),
                current_model: Json::Null,
            },
            r#"{"cwd":"/w","model":null,"session_id":"s","type":"system.session","v":1}"#,
        ),
        (
            BridgeEvent::SessionUpdate {
                session_id: "s".into(),
                update: Json::List(vec![Json::Number(JsonNumber::Signed(-3)), model()]),
            },
            r#"{"session_id":"s","type":"session_update","update":[-3,{"a":"x","b":null}],"v":1}"#,
        ),
        (
            BridgeEvent::RuntimeReloadFailed { session_id: "s".into(), message: "m".into() },
            r#"{"kind":"runtime_reload_failed","message":"m","session_id":"s","type":"error_event","v":1}"#,
        ),
        (
            BridgeEvent::TurnComplete { session_id: "s".into(), terminal_reason: None },
            r#"{"session_id":"s","terminal_reason":"completed","type":"result.success","v":1}"#,
        ),
        (
            BridgeEvent::TurnError {
                session_id: "s".into(),
                message: "m".into(),
                error_kind: None,
                terminal_reason: Some(TerminalReason::ModelError),
            },
            r#"{"error_kind":null,"message":"m","session_id":"s","terminal_reason":"model_error","type":"result.error","v":1}"#,
        ),
        (
            BridgeEvent::AuthRequired { method_name: "n".into(), method_description: "d".into() },
            r#"{"method_description":"d","method_name":"n","type":"result.auth_required","v":1}"#,
        ),
        (
            BridgeEvent::ConnectionFailed { message: "m".into() },
            r#"{"message":"m","type":"result.connection_failed","v":1}"#,
        ),
        (
            BridgeEvent::PermissionRequest { session_id: "secret".into() },
            r#"{"raw_event":"permission_request","type":"session_update","v":1}"#,
        ),
        (
            BridgeEvent::Other { name: "brand_new".into() },
            r#"{"raw_event":"brand_new","type":"session_update","v":1}"#,
        ),
    ];
    for (event, expected) in cases {
        assert_eq!(emitted(&event), format!("{expected}\n"));
        assert_eq!(parse(expected), Some(event_to_json(&event)));
    }
}

#[test]
fn the_stream_holds_no_warnings_and_grows_line_by_line() {
    let mut e = StreamJsonEmitter::new();
    let ev = BridgeEvent::ConnectionFailed { message: "m".into() };
    e.emit_event(&ev).unwrap();
    e.emit_warning("w").unwrap();
    e.emit_error("e").unwrap();
    e.emit_event(&ev).unwrap();
    assert_eq!(lines(&e.out).len(), 2);
    assert_eq!(e.take_errors(), "");
    assert_eq!(lines(&e.take_output()).len(), 2);
    assert_eq!(e.take_output(), "");
}

#[test]
fn documents_that_are_none_are_not_written() {
    let twice = Json::Object(vec![("a".to_owned(), Json::Null), ("a".to_owned(), Json::Null)]);
    let mut e = StreamJsonEmitter::new();
    assert_eq!(e.write_line(twice), Err(RenderError::NotADocument));
    assert_eq!(e.out, "");
    assert_eq!(render(fraction(1.5)).unwrap(), "1.5");
    assert_eq!(render(Json::Number(JsonNumber::Signed(5))).unwrap(), "5");
}

#[test]
fn documents_are_read_as_they_stand() {
    let json = parse(r#" {"b":[1,-2,2.5,true,null],"a":{"x":"\u00e9\n"}} "#).expect("document");
    assert_eq!(
        json,
        Json::Object(vec![
            (
                "b".to_owned(),
                Json::List(vec![
                    Json::Number(JsonNumber::Unsigned(1)),
                    Json::Number(JsonNumber::Signed(-2)),
                    fraction(2.5),
                    Json::Bool(true),
                    Json::Null,
                ])
            ),
            ("a".to_owned(), Json::Object(vec![("x".to_owned(), text("\u{e9}\n"))])),
        ])
    );
    assert_eq!(parse("{"), None);
    let printed = render(json.copy()).unwrap();
    assert_eq!(printed, "{\"b\":[1,-2,2.5,true,null],\"a\":{\"x\":\"\u{e9}\\n\"}}");
    assert_eq!(parse(&printed), Some(json));
}

#[test]
fn fractions_are_handed_on_as_they_were_read() {
    for line in ["0.1", "1e300", "-2.5e-7", "123456789012345678901234567890", "0.30000000000000004"] {
        let value: serde_json::Value = serde_json::from_str(line).expect("number");
        let json = parse(line).expect("number");
        assert_eq!(render(json.copy()).unwrap(), value.to_string());
        assert_eq!(json.scalar_to_string(), Some(value.to_string()));
    }
    let number = |n: JsonNumber| (n.text(), n.count());
    assert_eq!(number(JsonNumber::Float(7u64.into())), ("7".to_owned(), Some(7)));
    assert_eq!(number(JsonNumber::Signed(7)), ("7".to_owned(), Some(7)));
    assert_eq!(number(JsonNumber::Signed(-7)), ("-7".to_owned(), None));
    assert_eq!(
        number(JsonNumber::Float(serde_json::Number::from_f64(7.0).expect("finite"))),
        ("7.0".to_owned(), None)
    );
}

#[test]
fn text_output_is_the_agents_words() {
    let mut e = TextEmitter::new();
    let chunk = |kind: &str, t: &str| BridgeEvent::SessionUpdate {
        session_id: "s".into(),
        update: Json::Object(vec![
            ("type".to_owned(), text(kind)),
            (
                "content".to_owned(),
                Json::Object(vec![
                    ("type".to_owned(), text("text")),
                    ("text".to_owned(), text(t)),
                ]),
            ),
        ]),
    };
    e.emit_event(&chunk("agent_message_chunk", "hello ")).unwrap();
    e.emit_event(&chunk("agent_thought_chunk", "hm")).unwrap();
    e.emit_event(&chunk("agent_message_chunk", "world")).unwrap();
    e.emit_event(&BridgeEvent::TurnComplete { session_id: "s".into(), terminal_reason: None })
        .unwrap();
    e.emit_warning("careful").unwrap();
    e.emit_error("oops").unwrap();
    assert_eq!(e.take_output(), "hello world");
    assert_eq!(e.take_output(), "");
    assert_eq!(e.take_errors(), "careful\noops\n");
}

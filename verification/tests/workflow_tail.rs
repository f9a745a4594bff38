use lingxi_ascendc::agent::run_target::shell_split;
use lingxi_ascendc::agent::workflow_tail::{
    extract_run_target, map_agent_stream_line, map_event_line, truncate_to, ActionStatus,
    FinalizeKind, SubagentPhase, WorkflowProgress,
};

fn cwd() -> &'static str {
    "/runs"
}

#[test]
fn extract_run_target_explicit_run_id() {
    let t = extract_run_target("lingxi-ascendc run --workflow gen --run-id op42", cwd())
        .expect("should detect run");
    assert_eq!(t.run_id.as_deref(), Some("op42"));
    assert_eq!(t.events_path(), "/runs/op42/events.jsonl");
    assert_eq!(t.agent_stream_path(), "/runs/op42/agent_stream.jsonl");
}

#[test]
fn extract_run_target_run_id_equals_form() {
    let t = extract_run_target("lingxi-ascendc run --run-id=op7 --workflow gen", cwd())
        .expect("should detect run");
    assert_eq!(t.run_id.as_deref(), Some("op7"));
    assert_eq!(t.run_dir, "/runs/op7");
}

#[test]
fn extract_run_target_absolute_binary_path() {
    let t =
        extract_run_target("./.local/bin/lingxi-ascendc run --workflow w --run-id r1", cwd())
            .expect("should detect run via path-qualified binary");
    assert_eq!(t.run_id.as_deref(), Some("r1"));
}

#[test]
fn extract_run_target_scenario_with_run_id() {
    let t = extract_run_target(
        "lingxi-ascendc generate --via cannbot --run-id demo1 --bench NPUKernelBench --select L1/1",
        cwd(),
    )
    .expect("scenario with explicit run id should resolve");
    assert_eq!(t.run_id.as_deref(), Some("demo1"));
    assert_eq!(t.events_path(), "/runs/demo1/events.jsonl");
}

#[test]
fn extract_run_target_scenario_without_run_id_is_skipped() {
    assert!(
        extract_run_target(
            "lingxi-ascendc generate --via cannbot --bench NPUKernelBench --select L1/1",
            cwd(),
        )
        .is_none()
    );
}

#[test]
fn extract_run_target_with_leading_env_and_pipe_still_finds_binary() {
    let t = extract_run_target(
        "PATH=/x:$PATH lingxi-ascendc run --run-id op9 --workflow gen",
        cwd(),
    )
    .expect("env-prefixed command should still resolve");
    assert_eq!(t.run_id.as_deref(), Some("op9"));
}

#[test]
fn extract_run_target_no_run_id_falls_back_to_cwd_watch() {
    let t = extract_run_target("lingxi-ascendc run --workflow gen", cwd())
        .expect("run without --run-id is still a run");
    assert_eq!(t.run_id, None);
    assert_eq!(t.run_dir, cwd());
}

#[test]
fn extract_run_target_quoted_run_id() {
    let t = extract_run_target("lingxi-ascendc run --run-id \"my run\" --workflow w", cwd())
        .expect("quoted run id");
    assert_eq!(t.run_id.as_deref(), Some("my run"));
}

#[test]
fn extract_run_target_rejects_non_run_subcommands() {
    assert!(extract_run_target("lingxi-ascendc verify-env --target ascendc", cwd()).is_none());
    assert!(
        extract_run_target("lingxi-ascendc batch --workflow w --select x", cwd()).is_none()
    );
    assert!(extract_run_target("lingxi-ascendc --version", cwd()).is_none());
}

#[test]
fn extract_run_target_rejects_resume_and_status() {
    assert!(
        extract_run_target("lingxi-ascendc run --resume op1 --workflow w", cwd()).is_none()
    );
    assert!(extract_run_target("lingxi-ascendc run --status --workflow w", cwd()).is_none());
}

#[test]
fn extract_run_target_rejects_unrelated_commands() {
    assert!(extract_run_target("echo hello && ls -la", cwd()).is_none());
    assert!(extract_run_target("python run.py --run-id x", cwd()).is_none());
}

#[test]
fn map_run_started() {
    let u = map_event_line(r#"{"type":"run_started","workflow":"gen","cwd":"/x","seq":1}"#)
        .expect("run_started maps");
    // No params/verbose present -> defaults (empty params, verbose false).
    assert_eq!(
        u,
        WorkflowProgress::Started {
            workflow: "gen".to_owned(),
            params: Vec::new(),
            verbose: false,
        }
    );
}

#[test]
fn map_run_started_parses_params_in_order_and_verbose() {
    // Keys intentionally NOT alphabetical: op, via, run_mode, model. A
    // BTreeMap would resort them; the visitor must preserve emit order.
    let line = r#"{"type":"run_started","workflow":"generate_ascendc",
        "params":{"op":"3_Add","via":"cannbot","run_mode":"user","model":"model.py"},
        "verbose":true}"#;
    match map_event_line(line).expect("run_started maps") {
        WorkflowProgress::Started { workflow, params, verbose } => {
            assert_eq!(workflow, "generate_ascendc");
            assert!(verbose);
            assert_eq!(
                params,
                vec![
                    ("op".to_owned(), "3_Add".to_owned()),
                    ("via".to_owned(), "cannbot".to_owned()),
                    ("run_mode".to_owned(), "user".to_owned()),
                    ("model".to_owned(), "model.py".to_owned()),
                ]
            );
        }
        other => panic!("unexpected: {other:?}"),
    }
}

#[test]
fn map_run_started_coerces_scalar_param_values_and_drops_nonscalars() {
    let line = r#"{"type":"run_started","workflow":"gen",
        "params":{"op":"5_Mul","retries":3,"deep":false,"junk":[1,2],"nil":null}}"#;
    match map_event_line(line).expect("maps") {
        WorkflowProgress::Started { params, verbose, .. } => {
            assert!(!verbose, "verbose defaults to false when absent");
            // Scalars stringified, in order; array/null dropped.
            assert_eq!(
                params,
                vec![
                    ("op".to_owned(), "5_Mul".to_owned()),
                    ("retries".to_owned(), "3".to_owned()),
                    ("deep".to_owned(), "false".to_owned()),
                ]
            );
        }
        other => panic!("unexpected: {other:?}"),
    }
}

#[test]
fn map_action_started_reads_nested_action() {
    let line = r#"{"type":"action_started","action_id":"act_1",
        "action":{"kind":"spawn_agent","name":"aog-kernel-worker","skill_args":{}}}"#;
    let u = map_event_line(line).expect("action_started maps");
    assert_eq!(
        u,
        WorkflowProgress::ActionStarted {
            action_id: "act_1".to_owned(),
            kind: "spawn_agent".to_owned(),
            name: "aog-kernel-worker".to_owned(),
            detail: None,
        }
    );
}

#[test]
fn map_action_started_extracts_action_detail() {
    let line = r#"{"type":"action_started","action_id":"act_1",
        "action":{
            "kind":"spawn_agent",
            "name":"cannbot-producer",
            "task":{"kind":"generate_ascendc_cannbot_split","task_scope":"full","max_retry_rounds":20},
            "expected_artifacts":["full_task/model_new_ascendc.py","verification.json","trace/files.json"]
        }}"#;
    let u = map_event_line(line).expect("action_started maps");
    match u {
        WorkflowProgress::ActionStarted { detail, .. } => {
            let detail = detail.expect("detail");
            assert!(detail.contains("scope=full"), "detail={detail}");
            assert!(detail.contains("rounds=20"), "detail={detail}");
            assert!(detail.contains("expected=3 artifacts"), "detail={detail}");
        }
        other => panic!("unexpected: {other:?}"),
    }
}

#[test]
fn map_action_completed_marker_outcome_ok() {
    let line = r#"{"type":"action_completed","action_id":"act_1",
        "action":{"kind":"spawn_agent","name":"w"},
        "result":{"marker":{"outcome":"clean"}}}"#;
    let u = map_event_line(line).expect("completed maps");
    match u {
        WorkflowProgress::ActionCompleted { action_id, status, outcome, .. } => {
            assert_eq!(action_id, "act_1");
            assert_eq!(status, ActionStatus::Success);
            assert_eq!(outcome, "clean");
        }
        other => panic!("unexpected: {other:?}"),
    }
}

#[test]
fn map_action_completed_error_category_is_fail() {
    let line = r#"{"type":"action_completed","action_id":"a2",
        "action":{"kind":"verify","name":"verify"},
        "result":{"error_category":"compile_error"}}"#;
    match map_event_line(line).expect("maps") {
        WorkflowProgress::ActionCompleted { status, outcome, .. } => {
            assert_eq!(status, ActionStatus::Fail);
            assert_eq!(outcome, "compile_error");
        }
        other => panic!("unexpected: {other:?}"),
    }
}

#[test]
fn map_action_completed_missing_artifacts_is_fail() {
    let line = r#"{"type":"action_completed","action_id":"a3",
        "action":{"kind":"run_workflow","name":"sub"},
        "result":{"missing_artifacts":["verification.json"]}}"#;
    match map_event_line(line).expect("maps") {
        WorkflowProgress::ActionCompleted { status, outcome, .. } => {
            assert_eq!(status, ActionStatus::Fail);
            assert!(outcome.contains("verification.json"), "outcome={outcome}");
        }
        other => panic!("unexpected: {other:?}"),
    }
}

#[test]
fn map_action_completed_success_bool() {
    let line = r#"{"type":"action_completed","action_id":"a4",
        "action":{"kind":"spawn_agent","name":"w"},"result":{"success":true}}"#;
    match map_event_line(line).expect("maps") {
        WorkflowProgress::ActionCompleted { status, .. } => {
            assert_eq!(status, ActionStatus::Success);
        }
        other => panic!("unexpected: {other:?}"),
    }
}

#[test]
fn map_action_completed_retry_outcome() {
    let line = r#"{"type":"action_completed","action_id":"a5",
        "action":{"kind":"spawn_agent","name":"w"},
        "result":{"marker":{"outcome":"needs_retry"}}}"#;
    match map_event_line(line).expect("maps") {
        WorkflowProgress::ActionCompleted { status, .. } => {
            assert_eq!(status, ActionStatus::Retry);
        }
        other => panic!("unexpected: {other:?}"),
    }
}

#[test]
fn map_action_completed_benign_summary_not_miscolored_fail() {
    // A benign summary containing the substring "fail" must be colored by the
    // structured marker outcome (Ok), not scanned as Fail; the summary text
    // is still what gets displayed.
    let line = r#"{"type":"action_completed","action_id":"a6",
        "action":{"kind":"verify","name":"verify"},
        "result":{"summary":"no failures detected","marker":{"outcome":"clean"}}}"#;
    match map_event_line(line).expect("maps") {
        WorkflowProgress::ActionCompleted { status, outcome, .. } => {
            assert_eq!(status, ActionStatus::Success, "benign summary must not be Fail");
            assert_eq!(outcome, "no failures detected", "summary is the display text");
        }
        other => panic!("unexpected: {other:?}"),
    }
}

#[test]
fn map_workflow_done_with_outcome() {
    let line = r#"{"type":"workflow_done","reason":"all checks pass","outcome":"PASS"}"#;
    match map_event_line(line).expect("maps") {
        WorkflowProgress::Finalized { kind, summary } => {
            assert_eq!(kind, FinalizeKind::Done);
            assert!(summary.contains("PASS"), "summary={summary}");
            assert!(summary.contains("all checks pass"), "summary={summary}");
        }
        other => panic!("unexpected: {other:?}"),
    }
}

#[test]
fn map_workflow_aborted_carries_category() {
    let line = r#"{"type":"workflow_aborted","category":"env","reason":"no NPU",
        "user_remediation":"free a slot","details":null}"#;
    match map_event_line(line).expect("maps") {
        WorkflowProgress::Finalized { kind, summary } => {
            assert_eq!(kind, FinalizeKind::Aborted);
            assert!(summary.contains("env"), "summary={summary}");
            assert!(summary.contains("no NPU"), "summary={summary}");
        }
        other => panic!("unexpected: {other:?}"),
    }
}

#[test]
fn map_workflow_escalated() {
    let line = r#"{"type":"workflow_escalated","reason":"await user","outcome":null}"#;
    match map_event_line(line).expect("maps") {
        WorkflowProgress::Finalized { kind, .. } => assert_eq!(kind, FinalizeKind::Escalated),
        other => panic!("unexpected: {other:?}"),
    }
}

#[test]
fn map_ignores_internal_and_unknown_events() {
    assert!(map_event_line(r#"{"type":"internal_event","action_name":"x"}"#).is_none());
    assert!(map_event_line(r#"{"type":"workflow_route_intake","missing":[]}"#).is_none());
    assert!(map_event_line(r#"{"type":"brand_new_future_event"}"#).is_none());
}

#[test]
fn map_ignores_blank_and_malformed_lines() {
    assert!(map_event_line("").is_none());
    assert!(map_event_line("   ").is_none());
    assert!(map_event_line("not json").is_none());
    assert!(map_event_line("{ partial").is_none());
}

#[test]
fn map_agent_stream_tool_use() {
    let line = r#"{"ts":1,"action_id":"act_1","agent_name":"aog-kernel-worker",
        "tool_call_id":"tc_9","kind":"tool_use","name":"Bash"}"#;
    let e = map_agent_stream_line(line).expect("tool_use maps");
    assert_eq!(e.action_id, "act_1");
    assert_eq!(e.agent_name, "aog-kernel-worker");
    assert_eq!(e.tool_call_id, "tc_9");
    assert_eq!(e.phase, SubagentPhase::ToolUse);
    assert_eq!(e.name, "Bash");
    assert!(e.detail.is_none());
    assert!(e.status.is_none());
}

#[test]
fn map_agent_stream_tool_use_carries_detail() {
    let line = r#"{"ts":1,"action_id":"act_1","agent_name":"w","tool_call_id":"tc_9",
        "kind":"tool_use","name":"Bash","detail":"deploy + build kernel"}"#;
    let e = map_agent_stream_line(line).expect("tool_use maps");
    assert_eq!(e.detail.as_deref(), Some("deploy + build kernel"));
}

#[test]
fn map_agent_stream_empty_detail_becomes_none() {
    let line = r#"{"ts":1,"action_id":"act_1","agent_name":"w","tool_call_id":"tc_9",
        "kind":"tool_use","name":"Read","detail":""}"#;
    let e = map_agent_stream_line(line).expect("tool_use maps");
    assert!(e.detail.is_none(), "empty detail should normalize to None");
}

#[test]
fn map_agent_stream_tool_result_with_status() {
    let line = r#"{"ts":2,"action_id":"act_1","agent_name":"w","tool_call_id":"tc_9",
        "kind":"tool_result","name":"Bash","status":"ok"}"#;
    let e = map_agent_stream_line(line).expect("tool_result maps");
    assert_eq!(e.phase, SubagentPhase::ToolResult);
    assert_eq!(e.status.as_deref(), Some("ok"));
}

#[test]
fn map_agent_stream_rejects_unknown_kind_and_missing_action_id() {
    assert!(
        map_agent_stream_line(r#"{"action_id":"a","kind":"thinking","name":"x"}"#).is_none()
    );
    assert!(map_agent_stream_line(r#"{"kind":"tool_use","name":"Bash"}"#).is_none());
    assert!(map_agent_stream_line("").is_none());
    assert!(map_agent_stream_line("{bad").is_none());
}

#[test]
fn real_run_command_is_detected_and_paths_resolved() {
    let cmd =
        "lingxi-ascendc run --workflow generate_ascendc_direct --select L1/4 --run-id abs4 -v";
    let t = extract_run_target(cmd, "/runs").expect("run detected");
    assert_eq!(t.run_id.as_deref(), Some("abs4"));
    assert_eq!(t.events_path(), "/runs/abs4/events.jsonl");
    assert_eq!(t.agent_stream_path(), "/runs/abs4/agent_stream.jsonl");
}

#[test]
fn shell_words_keep_quotes_and_escapes_together() {
    assert_eq!(shell_split("a b  c"), vec!["a", "b", "c"]);
    assert_eq!(shell_split("'a \"b' \"c 'd\" e\\ f"), vec!["a \"b", "c 'd", "e f"]);
    assert_eq!(shell_split("x'' '' \"\""), vec!["x", "", ""]);
    assert_eq!(shell_split("  "), Vec::<String>::new());
    assert_eq!(shell_split("a\\"), vec!["a"]);
    assert_eq!(shell_split("'\\'"), vec!["\\"]);
}

#[test]
fn run_ids_come_in_both_forms() {
    let a = extract_run_target("lingxi-ascendc run --run-id=x", "/w").unwrap();
    let b = extract_run_target("lingxi-ascendc run --run-id x", "/w/").unwrap();
    assert_eq!(a, b);
    assert_eq!(a.run_dir, "/w/x");
    let abs = extract_run_target("lingxi-ascendc run --run-id /elsewhere/x", "/w").unwrap();
    assert_eq!(abs.run_dir, "/elsewhere/x");
    let none = extract_run_target("lingxi-ascendc run --run-id", "/w").unwrap();
    assert_eq!(none.run_id, None);
}

#[test]
fn action_details_list_arguments_by_key_and_count_the_rest() {
    let line = r#"{"type":"action_started","action_id":"a","action":{"kind":"k","name":"n",
        "skill_args":{"e":5,"d":true,"c":"x","b":[1],"a":null,"f":-2},
        "expected_artifacts":["p","q"]}}"#;
    match map_event_line(line).expect("maps") {
        WorkflowProgress::ActionStarted { detail, .. } => {
            assert_eq!(detail.as_deref(), Some("args:c=x d=true +2 expected=p,q"));
        }
        other => panic!("unexpected: {other:?}"),
    }
}

#[test]
fn long_texts_are_cut_with_an_ellipsis() {
    assert_eq!(truncate_to("  abc  ", 3), "abc");
    assert_eq!(truncate_to("abcd", 3), "ab\u{2026}");
    assert_eq!(truncate_to("abcd", 0), "\u{2026}");
    let line = format!(
        r#"{{"type":"action_completed","action_id":"a","result":{{"error":"{}"}}}}"#,
        "x".repeat(200)
    );
    match map_event_line(&line).expect("maps") {
        WorkflowProgress::ActionCompleted { status, outcome, .. } => {
            assert_eq!(status, ActionStatus::Fail);
            assert_eq!(outcome.chars().count(), 80);
            assert!(outcome.ends_with('\u{2026}'));
        }
        other => panic!("unexpected: {other:?}"),
    }
}

#[test]
fn summaries_of_ended_workflows_are_exact() {
    let summary = |line: &str| match map_event_line(line).expect("maps") {
        WorkflowProgress::Finalized { summary, .. } => summary,
        other => panic!("unexpected: {other:?}"),
    };
    assert_eq!(
        summary(r#"{"type":"workflow_done","reason":"all checks pass","outcome":"PASS"}"#),
        "done (PASS): all checks pass"
    );
    assert_eq!(
        summary(r#"{"type":"workflow_done","reason":" ","outcome":{"marker":"m"}}"#),
        "done (m)"
    );
    assert_eq!(
        summary(r#"{"type":"workflow_escalated","outcome":{"outcome":3,"marker":"m"}}"#),
        "escalated"
    );
    assert_eq!(
        summary(r#"{"type":"workflow_aborted","category":"env","reason":" ","user_remediation":" wait "}"#),
        "aborted [env]: wait"
    );
    assert_eq!(summary(r#"{"type":"workflow_aborted"}"#), "aborted []");
}

#[test]
fn fields_of_the_wrong_shape_refuse_the_line() {
    assert!(map_event_line(r#"{"type":"run_started","workflow":3}"#).is_none());
    assert!(map_event_line(r#"{"type":"run_started","params":[]}"#).is_none());
    assert!(map_event_line(r#"{"type":"action_started","action":null}"#).is_none());
    assert!(map_event_line(r#"{"workflow":"gen"}"#).is_none());
    assert!(map_agent_stream_line(r#"{"action_id":"a","kind":"tool_use","detail":1}"#).is_none());
}

#[test]
fn events_can_list_their_fields_by_position() {
    assert_eq!(
        map_event_line(r#"["run_started","gen",{"a":1},true]"#),
        Some(WorkflowProgress::Started {
            workflow: "gen".to_owned(),
            params: vec![("a".to_owned(), "1".to_owned())],
            verbose: true,
        })
    );
    assert!(map_event_line(r#"["run_started","gen",{},true,1]"#).is_none());
}

#[test]
fn unknown_fields_make_no_difference() {
    let plain = map_event_line(r#"{"type":"workflow_done","reason":"r"}"#);
    let more = map_event_line(r#"{"seq":9,"type":"workflow_done","extra":{},"reason":"r","x":[]}"#);
    assert!(plain.is_some());
    assert_eq!(plain, more);
}

#[test]
fn fields_that_are_given_twice_refuse_the_line() {
    let started = r#"{"type":"run_started","workflow":"gen","x":1,"x":2}"#;
    assert!(map_event_line(started).is_some(), "nothing consumes x");
    for line in [
        r#"{"type":"run_started","workflow":"a","workflow":"b"}"#,
        r#"{"type":"run_started","type":"run_started"}"#,
        r#"{"type":"run_started","params":{},"params":{}}"#,
        r#"{"type":"action_started","action":{"kind":"k","kind":"k"}}"#,
        r#"{"type":"action_started","action":{"task":{"kind":"a","kind":"b"}}}"#,
        r#"{"type":"action_completed","result":1,"result":1}"#,
        r#"{"type":"workflow_done","outcome":"a","outcome":"b"}"#,
        r#"["action_started","a1",{"name":"a","name":"b"}]"#,
        r#"["action_completed","a1",["k","n",null,{"kind":"a","kind":"b"}]]"#,
    ] {
        assert!(map_event_line(line).is_none(), "line = {line}");
    }
    assert!(map_event_line(r#"{"type":"workflow_done","workflow":1,"workflow":2}"#).is_some());
    assert!(map_agent_stream_line(r#"{"action_id":"a","kind":"tool_use","kind":"tool_use"}"#)
        .is_none());
    assert!(map_agent_stream_line(r#"{"action_id":"a","kind":"tool_use","x":1,"x":2}"#).is_some());
}

#[test]
fn params_that_are_given_twice_are_both_shown() {
    let both = vec![
        ("a".to_owned(), "1".to_owned()),
        ("b".to_owned(), "x".to_owned()),
        ("a".to_owned(), "2".to_owned()),
    ];
    for line in [
        r#"{"type":"run_started","params":{"a":1,"b":"x","a":2}}"#,
        r#"["run_started","",{"a":1,"b":"x","a":2}]"#,
    ] {
        match map_event_line(line) {
            Some(WorkflowProgress::Started { params, .. }) => assert_eq!(params, both),
            other => panic!("unexpected: {other:?}"),
        }
    }
}

#[test]
fn in_values_the_last_of_the_same_keys_counts() {
    let line = r#"{"type":"action_started","action":{"skill_args":{"a":1,"a":2}}}"#;
    match map_event_line(line) {
        Some(WorkflowProgress::ActionStarted { detail, .. }) => {
            assert_eq!(detail.as_deref(), Some("args:a=2"));
        }
        other => panic!("unexpected: {other:?}"),
    }
    for line in [
        r#"{"type":"workflow_done","outcome":{"outcome":"A","outcome":"B"}}"#,
        r#"["workflow_done","",{"outcome":"A","outcome":"B"}]"#,
    ] {
        match map_event_line(line) {
            Some(WorkflowProgress::Finalized { summary, .. }) => assert_eq!(summary, "done (B)"),
            other => panic!("unexpected: {other:?}"),
        }
    }
    let line = r#"{"type":"action_completed","result":{"error":"x","error":"y"}}"#;
    match map_event_line(line) {
        Some(WorkflowProgress::ActionCompleted { outcome, .. }) => assert_eq!(outcome, "y"),
        other => panic!("unexpected: {other:?}"),
    }
}

#[test]
fn unread_fields_of_the_subagent_stream_are_not_looked_at() {
    let plain = map_agent_stream_line(r#"{"action_id":"a","kind":"tool_use","name":"Bash"}"#);
    assert!(plain.is_some());
    let deep = format!("{}{}", "[".repeat(500), "]".repeat(500));
    for unread in ["1e999", r#""\ud800""#, deep.as_str(), r#" { "a" : [ 1 , {} ] } "#] {
        let line =
            format!(r#"{{"x":{unread},"action_id":"a","kind":"tool_use","name":"Bash","y":{unread}}}"#);
        assert_eq!(map_agent_stream_line(&line), plain, "line = {line}");
        let line = format!(r#"{{"type":"workflow_done","x":{unread}}}"#);
        assert_eq!(map_event_line(&line).is_some(), unread.starts_with(' '), "line = {line}");
    }
    for line in [
        r#"{"action_id":"a","kind":"tool_use","name":1e999}"#,
        r#"{"action_id":"a","kind":"tool_use","name":"\ud800"}"#,
        r#"{"action_id":"a","kind":"tool_use","\ud800":1}"#,
        r#"{"action_id":"a","kind":"tool_use","x":[1,]}"#,
        r#"{"action_id":"a","kind":"tool_use","x":tru}"#,
    ] {
        assert!(map_agent_stream_line(line).is_none(), "line = {line}");
    }
}

#[test]
fn only_whole_documents_stand_on_a_line() {
    let event = r#"{ "action_id" : "a" , "kind" : "tool_use" }"#;
    assert!(map_agent_stream_line(event).is_some());
    assert!(map_agent_stream_line(r#"["a","","","tool_use"]"#).is_some());
    assert!(map_agent_stream_line(r#"[ "a" , "" , "" , "tool_use" , "" , null , null ]"#).is_some());
    for line in [
        r#"{"action_id":"a","kind":"tool_use",}"#,
        r#"{"action_id":"a","kind":"tool_use"} x"#,
        r#"{"action_id":"a","kind":"tool_use""#,
        r#"{"action_id":"a";"kind":"tool_use"}"#,
        r#"{"action_id" "a","kind":"tool_use"}"#,
        r#"{action_id:"a","kind":"tool_use"}"#,
        r#"{1:"a","action_id":"a","kind":"tool_use"}"#,
        r#"["a","","","tool_use",]"#,
        r#"["a","","","tool_use"}"#,
        r#"["a","","","tool_use","",null,null,1]"#,
        r#""tool_use""#,
        "{}",
        "[]",
        "17",
    ] {
        assert!(map_agent_stream_line(line).is_none(), "line = {line}");
    }
    assert!(map_event_line(r#"{"type":"workflow_done",}"#).is_none());
    assert!(map_event_line(r#"{"type":"workflow_done"} {}"#).is_none());
    assert!(map_event_line(r#" [ "workflow_done" ] "#).is_some());
}

use lingxi_ascendc::agent::workflow_tail::{
    ActionStatus, FinalizeKind, SubagentPhase, SubagentToolEvent, WorkflowProgress,
};
use lingxi_ascendc::app::events::workflow_progress::{
    apply_subagent_to_state, apply_to_state, apply_workflow_progress,
    apply_workflow_subagent_event, command_of, maybe_start_workflow_tail, Redraw,
};
use lingxi_ascendc::app::{
    App, ChatMessage, MessageBlock, ToolCallInfo, ToolCallPlace, ToolCallStatus,
    WorkflowActionStatus, WorkflowFinalizeKind, WorkflowProgressState,
};
use lingxi_ascendc::json::Json;

fn empty_state() -> WorkflowProgressState {
    WorkflowProgressState::new(7)
}

fn started(workflow: &str) -> WorkflowProgress {
    WorkflowProgress::Started { workflow: workflow.into(), params: Vec::new(), verbose: false }
}

#[test]
fn started_sets_workflow_once() {
    let mut s = empty_state();
    assert!(apply_to_state(&mut s, started("gen")));
    assert_eq!(s.workflow.as_deref(), Some("gen"));
    // Re-delivery of identical start is a no-op.
    assert!(!apply_to_state(&mut s, started("gen")));
}

#[test]
fn started_stores_params_and_verbose() {
    let mut s = empty_state();
    assert!(!s.verbose);
    assert!(s.params.is_empty());
    let upd = WorkflowProgress::Started {
        workflow: "generate_ascendc".into(),
        params: vec![("op".into(), "3_Add".into()), ("via".into(), "cannbot".into())],
        verbose: true,
    };
    assert!(apply_to_state(&mut s, upd));
    assert_eq!(s.workflow.as_deref(), Some("generate_ascendc"));
    assert!(s.verbose);
    assert_eq!(
        s.params,
        vec![("op".to_owned(), "3_Add".to_owned()), ("via".to_owned(), "cannbot".to_owned())]
    );
    // Re-delivery of the identical Started is a no-op even with params.
    let same = WorkflowProgress::Started {
        workflow: "generate_ascendc".into(),
        params: vec![("op".into(), "3_Add".into()), ("via".into(), "cannbot".into())],
        verbose: true,
    };
    assert!(!apply_to_state(&mut s, same));
}

#[test]
fn action_start_then_complete_updates_same_row() {
    let mut s = empty_state();
    apply_to_state(
        &mut s,
        WorkflowProgress::ActionStarted {
            action_id: "a1".into(),
            kind: "spawn_agent".into(),
            name: "worker".into(),
            detail: Some("scope=full".into()),
        },
    );
    assert_eq!(s.actions.len(), 1);
    assert_eq!(s.actions[0].detail.as_deref(), Some("scope=full"));
    assert!(s.actions[0].completed.is_none());

    apply_to_state(
        &mut s,
        WorkflowProgress::ActionCompleted {
            action_id: "a1".into(),
            status: ActionStatus::Success,
            outcome: "clean".into(),
            detail: None,
        },
    );
    assert_eq!(s.actions.len(), 1, "completion updates in place");
    let done = s.actions[0].completed.as_ref().unwrap();
    assert_eq!(done.status, WorkflowActionStatus::Success);
    assert_eq!(done.outcome, "clean");
}

#[test]
fn duplicate_action_started_is_deduped() {
    let mut s = empty_state();
    let mk = || WorkflowProgress::ActionStarted {
        action_id: "a1".into(),
        kind: "verify".into(),
        name: "verify".into(),
        detail: None,
    };
    assert!(apply_to_state(&mut s, mk()));
    assert!(!apply_to_state(&mut s, mk()));
    assert_eq!(s.actions.len(), 1);
}

#[test]
fn completion_without_start_synthesizes_row() {
    let mut s = empty_state();
    apply_to_state(
        &mut s,
        WorkflowProgress::ActionCompleted {
            action_id: "late".into(),
            status: ActionStatus::Fail,
            outcome: "boom".into(),
            detail: Some("args:target=ascendc".into()),
        },
    );
    assert_eq!(s.actions.len(), 1);
    assert_eq!(s.actions[0].action_id, "late");
    assert_eq!(s.actions[0].detail.as_deref(), Some("args:target=ascendc"));
    assert_eq!(s.actions[0].completed.as_ref().unwrap().status, WorkflowActionStatus::Fail);
}

fn started_action(s: &mut WorkflowProgressState, id: &str) {
    apply_to_state(
        s,
        WorkflowProgress::ActionStarted {
            action_id: id.into(),
            kind: "spawn_agent".into(),
            name: "worker".into(),
            detail: None,
        },
    );
}

fn sub_event(action_id: &str, tool_call_id: &str, phase: SubagentPhase) -> SubagentToolEvent {
    SubagentToolEvent {
        action_id: action_id.into(),
        agent_name: "worker".into(),
        tool_call_id: tool_call_id.into(),
        phase,
        name: "Bash".into(),
        detail: matches!(phase, SubagentPhase::ToolUse)
            .then(|| "deploy + build kernel".to_owned()),
        status: matches!(phase, SubagentPhase::ToolResult).then(|| "ok".to_owned()),
    }
}

#[test]
fn subagent_tool_use_then_result_nests_and_completes() {
    let mut s = empty_state();
    started_action(&mut s, "a1");
    assert!(apply_subagent_to_state(&mut s, &sub_event("a1", "t1", SubagentPhase::ToolUse)));
    assert_eq!(s.actions[0].subagent_tools.len(), 1);
    assert!(!s.actions[0].subagent_tools[0].completed);
    // detail from the tool_use is carried onto the row.
    assert_eq!(s.actions[0].subagent_tools[0].detail.as_deref(), Some("deploy + build kernel"));

    assert!(apply_subagent_to_state(&mut s, &sub_event("a1", "t1", SubagentPhase::ToolResult)));
    assert_eq!(s.actions[0].subagent_tools.len(), 1, "result updates in place");
    assert!(s.actions[0].subagent_tools[0].completed);
    assert_eq!(s.actions[0].subagent_tools[0].status.as_deref(), Some("ok"));
}

#[test]
fn subagent_event_for_unknown_action_is_dropped() {
    let mut s = empty_state();
    started_action(&mut s, "a1");
    // Event for a different action id -> no row anywhere, no change.
    assert!(!apply_subagent_to_state(
        &mut s,
        &sub_event("other", "t1", SubagentPhase::ToolUse)
    ));
    assert!(s.actions[0].subagent_tools.is_empty());
}

#[test]
fn subagent_result_without_use_synthesizes_completed_row() {
    let mut s = empty_state();
    started_action(&mut s, "a1");
    assert!(apply_subagent_to_state(
        &mut s,
        &sub_event("a1", "late", SubagentPhase::ToolResult)
    ));
    assert_eq!(s.actions[0].subagent_tools.len(), 1);
    assert!(s.actions[0].subagent_tools[0].completed);
}

#[test]
fn finalize_sets_summary_and_stops_tail() {
    let mut s = empty_state();
    assert!(s.stop.is_some());
    apply_to_state(
        &mut s,
        WorkflowProgress::Finalized { kind: FinalizeKind::Done, summary: "done (PASS)".into() },
    );
    let fin = s.finalized.as_ref().unwrap();
    assert_eq!(fin.kind, WorkflowFinalizeKind::Done);
    assert_eq!(fin.summary, "done (PASS)");
    assert!(s.stop.is_none(), "tail stop signal consumed on finalize");
}

fn shell_call(command: &str) -> ToolCallInfo {
    ToolCallInfo {
        id: "tc1".to_owned(),
        executes: true,
        status: ToolCallStatus::InProgress,
        raw_input: None,
        terminal_command: Some(command.to_owned()),
        terminal_output: None,
        workflow_progress: None,
        render_dirty: false,
        layout_dirty: false,
    }
}

fn app_with(call: ToolCallInfo) -> App {
    App {
        cwd_raw: "/runs".to_owned(),
        messages: vec![
            ChatMessage { blocks: Vec::new() },
            ChatMessage {
                blocks: vec![MessageBlock::Text("hi".to_owned()), MessageBlock::ToolCall(call)],
            },
        ],
        tool_call_index: vec![ToolCallPlace { id: "tc1".to_owned(), message: 1, block: 1 }],
    }
}

fn call_of(app: &App) -> &ToolCallInfo {
    app.tool_call_at(1, 1).expect("tool call")
}

#[test]
fn renamed_tool_call_starts_its_row_over() {
    let mut s = empty_state();
    started_action(&mut s, "a1");
    assert!(apply_subagent_to_state(&mut s, &sub_event("a1", "t1", SubagentPhase::ToolUse)));
    assert!(!apply_subagent_to_state(&mut s, &sub_event("a1", "t1", SubagentPhase::ToolUse)));
    let mut renamed = sub_event("a1", "t1", SubagentPhase::ToolUse);
    renamed.name = "Read".to_owned();
    renamed.detail = None;
    assert!(apply_subagent_to_state(&mut s, &renamed));
    assert_eq!(s.actions[0].subagent_tools.len(), 1, "no second row for one tool call");
    assert_eq!(s.actions[0].subagent_tools[0].name, "Read");
    assert_eq!(s.actions[0].subagent_tools[0].detail, None);
}

#[test]
fn completion_keeps_an_earlier_detail() {
    let mut s = empty_state();
    started_action(&mut s, "a1");
    let done = |detail: Option<&str>| WorkflowProgress::ActionCompleted {
        action_id: "a1".to_owned(),
        status: ActionStatus::Retry,
        outcome: "again".to_owned(),
        detail: detail.map(str::to_owned),
    };
    assert!(apply_to_state(&mut s, done(Some("first"))));
    assert!(!apply_to_state(&mut s, done(Some("second"))), "nothing new to show");
    assert_eq!(s.actions[0].detail.as_deref(), Some("first"));
    assert_eq!(s.actions[0].completed.as_ref().unwrap().status, WorkflowActionStatus::Retry);
}

#[test]
fn launches_with_a_run_id_are_tailed_once() {
    let mut app = app_with(shell_call("lingxi-ascendc run --workflow w --run-id r1"));
    let start = maybe_start_workflow_tail(&mut app, "tc1", 5).expect("starts");
    assert_eq!(start.run_id, "r1");
    assert_eq!(start.events_path, "/runs/r1/events.jsonl");
    assert_eq!(start.agent_stream_path, "/runs/r1/agent_stream.jsonl");
    assert_eq!(call_of(&app).workflow_progress, Some(WorkflowProgressState::new(5)));
    assert!(call_of(&app).render_dirty);
    assert_eq!(maybe_start_workflow_tail(&mut app, "tc1", 6), None);
    assert_eq!(call_of(&app).workflow_progress, Some(WorkflowProgressState::new(5)));
}

#[test]
fn other_tool_calls_are_not_tailed() {
    let run = "lingxi-ascendc run --run-id r1";
    let mut app = app_with(shell_call("lingxi-ascendc run --workflow w"));
    assert_eq!(maybe_start_workflow_tail(&mut app, "tc1", 1), None);
    let mut app = app_with(ToolCallInfo { executes: false, ..shell_call(run) });
    assert_eq!(maybe_start_workflow_tail(&mut app, "tc1", 1), None);
    let mut app = app_with(shell_call(run));
    assert_eq!(maybe_start_workflow_tail(&mut app, "other", 1), None);
    app.cwd_raw = String::new();
    assert_eq!(maybe_start_workflow_tail(&mut app, "tc1", 1), None);
    let mut app = app_with(shell_call(run));
    app.tool_call_index[0].block = 9;
    assert_eq!(maybe_start_workflow_tail(&mut app, "tc1", 1), None);
    app.tool_call_index[0].block = 0;
    assert_eq!(maybe_start_workflow_tail(&mut app, "tc1", 1), None);
}

#[test]
fn commands_come_from_the_terminal_or_the_input() {
    let mut call = shell_call("ls");
    assert_eq!(command_of(&call).as_deref(), Some("ls"));
    call.terminal_command = Some("  ".to_owned());
    assert_eq!(command_of(&call), None);
    call.raw_input =
        Some(Json::Object(vec![("command".to_owned(), Json::Text("pwd".to_owned()))]));
    assert_eq!(command_of(&call).as_deref(), Some("pwd"));
    call.raw_input = Some(Json::Object(vec![("command".to_owned(), Json::Null)]));
    assert_eq!(command_of(&call), None);
}

#[test]
fn updates_reach_the_tool_call_and_fire_the_stop_signal() {
    let mut call = shell_call("ls");
    call.workflow_progress = Some(WorkflowProgressState::new(9));
    let mut app = app_with(call);
    assert_eq!(
        apply_workflow_progress(&mut app, "tc1", started("gen")),
        Some(Redraw { message: 1, block: 1, stop: None })
    );
    assert!(call_of(&app).layout_dirty);
    assert_eq!(apply_workflow_progress(&mut app, "tc1", started("gen")), None);
    assert_eq!(apply_workflow_progress(&mut app, "nope", started("x")), None);
    let event = sub_event("a1", "t1", SubagentPhase::ToolUse);
    assert_eq!(apply_workflow_subagent_event(&mut app, "tc1", &event), None);
    let action = WorkflowProgress::ActionStarted {
        action_id: "a1".to_owned(),
        kind: "k".to_owned(),
        name: "n".to_owned(),
        detail: None,
    };
    assert!(apply_workflow_progress(&mut app, "tc1", action).is_some());
    assert_eq!(
        apply_workflow_subagent_event(&mut app, "tc1", &event),
        Some(Redraw { message: 1, block: 1, stop: None })
    );
    let end = || WorkflowProgress::Finalized {
        kind: FinalizeKind::Aborted,
        summary: "aborted".to_owned(),
    };
    assert_eq!(
        apply_workflow_progress(&mut app, "tc1", end()),
        Some(Redraw { message: 1, block: 1, stop: Some(9) })
    );
    assert_eq!(apply_workflow_progress(&mut app, "tc1", end()), None);
}

#[test]
fn what_is_delivered_twice_changes_nothing() {
    let mut s = empty_state();
    started_action(&mut s, "a1");
    let done = |outcome: &str| WorkflowProgress::ActionCompleted {
        action_id: "a1".to_owned(),
        status: ActionStatus::Success,
        outcome: outcome.to_owned(),
        detail: None,
    };
    assert!(apply_to_state(&mut s, done("clean")));
    assert!(!apply_to_state(&mut s, done("clean")));
    assert!(apply_to_state(&mut s, done("cleaner")));

    let result = sub_event("a1", "t1", SubagentPhase::ToolResult);
    assert!(apply_subagent_to_state(&mut s, &result));
    assert!(!apply_subagent_to_state(&mut s, &result));
    let other = SubagentToolEvent { status: Some("failed".to_owned()), ..result };
    assert!(apply_subagent_to_state(&mut s, &other));

    let end = |kind| WorkflowProgress::Finalized { kind, summary: "over".to_owned() };
    assert!(apply_to_state(&mut s, end(FinalizeKind::Done)));
    assert!(!apply_to_state(&mut s, end(FinalizeKind::Done)));
    assert!(apply_to_state(&mut s, end(FinalizeKind::Aborted)));
}

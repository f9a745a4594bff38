use lingxi_ascendc::app::{
    ToolCallInfo, ToolCallStatus, WorkflowActionCompletion, WorkflowActionRow,
    WorkflowActionStatus, WorkflowFinalizeKind, WorkflowFinalizeRow, WorkflowProgressState,
    WorkflowSubagentToolRow,
};
use lingxi_ascendc::ui::styled::{plain_span, Color, Line, Span, Style};
use lingxi_ascendc::ui::tool_call::execute::{
    action_label, border_prefix, render_execute_content, render_execute_with_borders,
    render_workflow_progress, subagent_label, title_budget, BorderParts, ExecuteParts,
};

fn render_text(lines: &[Line]) -> Vec<String> {
    lines
        .iter()
        .map(|l| l.spans.iter().map(|s| s.content.as_str()).collect::<String>())
        .collect()
}

fn plain_line(text: &str) -> Line {
    Line { spans: vec![plain_span(text.to_owned(), Color::White)] }
}

fn parts(output: &str) -> ExecuteParts {
    ExecuteParts {
        command_spans: Vec::new(),
        output_lines: output.lines().map(plain_line).collect(),
        failure_line: None,
        permission_lines: Vec::new(),
        question_lines: Vec::new(),
    }
}

fn render_content(tc: &ToolCallInfo) -> Vec<Line> {
    render_execute_content(tc, &parts(tc.terminal_output.as_deref().unwrap_or("")))
}

fn bash_with_progress(progress: WorkflowProgressState) -> ToolCallInfo {
    ToolCallInfo {
        id: "tc1".to_owned(),
        executes: true,
        status: ToolCallStatus::InProgress,
        raw_input: None,
        terminal_command: Some("lingxi-ascendc run --workflow gen --run-id op1".to_owned()),
        terminal_output: Some("this raw stdout should be suppressed".to_owned()),
        workflow_progress: Some(progress),
        render_dirty: false,
        layout_dirty: false,
    }
}

fn state() -> WorkflowProgressState {
    WorkflowProgressState::new(1)
}

#[test]
fn empty_progress_keeps_raw_stdout_visible() {
    // Before any event lands the progress box is empty; the raw Bash stdout
    // must stay visible instead of being hidden behind an empty box (e.g.
    // when events.jsonl never appears because the run dir did not match).
    let tc = bash_with_progress(state());
    let joined = render_text(&render_content(&tc)).join("\n");
    assert!(
        joined.contains("this raw stdout should be suppressed"),
        "empty progress must not hide stdout:\n{joined}"
    );
}

#[test]
fn running_progress_replaces_stdout_with_child_rows() {
    let mut s = state();
    s.workflow = Some("generate_ascendc".to_owned());
    s.actions.push(WorkflowActionRow {
        action_id: "a1".to_owned(),
        kind: "spawn_agent".to_owned(),
        name: "aog-kernel-worker".to_owned(),
        detail: Some("scope=full rounds=20 expected=3 artifacts".to_owned()),
        completed: Some(WorkflowActionCompletion {
            status: WorkflowActionStatus::Success,
            outcome: "clean".to_owned(),
        }),
        subagent_tools: Vec::new(),
    });
    s.actions.push(WorkflowActionRow {
        action_id: "a2".to_owned(),
        kind: "verify".to_owned(),
        name: "verify".to_owned(),
        detail: None,
        completed: None,
        subagent_tools: Vec::new(),
    });

    let tc = bash_with_progress(s);
    let text = render_text(&render_content(&tc));
    let joined = text.join("\n");

    // Command line is preserved; raw stdout is suppressed.
    assert!(joined.contains("lingxi-ascendc run"), "cmd missing:\n{joined}");
    assert!(
        !joined.contains("this raw stdout should be suppressed"),
        "raw stdout leaked:\n{joined}"
    );
    // Workflow header + both action rows present.
    assert!(joined.contains("generate_ascendc"), "header missing:\n{joined}");
    assert!(joined.contains("spawn_agent: aog-kernel-worker"), "row1:\n{joined}");
    assert!(joined.contains("scope=full rounds=20"), "detail:\n{joined}");
    assert!(joined.contains("clean"), "outcome:\n{joined}");
    assert!(joined.contains("verify: verify"), "row2:\n{joined}");
    assert!(joined.contains("running"), "running marker:\n{joined}");
}

#[test]
fn finalized_progress_shows_summary_line() {
    let mut s = state();
    s.workflow = Some("generate_ascendc".to_owned());
    s.actions.push(WorkflowActionRow {
        action_id: "a1".to_owned(),
        kind: "spawn_agent".to_owned(),
        name: "w".to_owned(),
        detail: None,
        completed: Some(WorkflowActionCompletion {
            status: WorkflowActionStatus::Success,
            outcome: "clean".to_owned(),
        }),
        subagent_tools: Vec::new(),
    });
    s.finalized = Some(WorkflowFinalizeRow {
        kind: WorkflowFinalizeKind::Done,
        summary: "done (PASS): all checks pass".to_owned(),
    });

    let tc = bash_with_progress(s);
    let joined = render_text(&render_content(&tc)).join("\n");
    assert!(joined.contains("done (PASS)"), "summary missing:\n{joined}");
    assert!(joined.contains("all checks pass"), "reason missing:\n{joined}");
    // Action breakdown is still shown under the summary.
    assert!(joined.contains("spawn_agent: w"), "action kept:\n{joined}");
}

fn action_with_subtools() -> WorkflowActionRow {
    WorkflowActionRow {
        action_id: "a1".to_owned(),
        kind: "spawn_agent".to_owned(),
        name: "worker".to_owned(),
        detail: None,
        completed: None,
        subagent_tools: vec![
            WorkflowSubagentToolRow {
                tool_call_id: "t1".to_owned(),
                name: "Read".to_owned(),
                detail: Some("op_kernel.cpp".to_owned()),
                completed: true,
                status: Some("ok".to_owned()),
            },
            WorkflowSubagentToolRow {
                tool_call_id: "t2".to_owned(),
                name: "Bash".to_owned(),
                detail: Some("deploy + build kernel".to_owned()),
                completed: false,
                status: None,
            },
            WorkflowSubagentToolRow {
                tool_call_id: "t3".to_owned(),
                name: "Bash".to_owned(),
                detail: None,
                completed: false,
                status: None,
            },
        ],
    }
}

#[test]
fn nested_subagent_tool_rows_render_under_action_when_verbose() {
    let mut s = state();
    s.workflow = Some("gen".to_owned());
    s.verbose = true;
    s.actions.push(action_with_subtools());

    let tc = bash_with_progress(s);
    let joined = render_text(&render_content(&tc)).join("\n");
    assert!(joined.contains("spawn_agent: worker"), "parent action:\n{joined}");
    // "<name>: <detail>" rendering.
    assert!(joined.contains("Read: op_kernel.cpp"), "subagent w/ detail:\n{joined}");
    assert!(joined.contains("Bash: deploy + build kernel"), "bash detail:\n{joined}");
    // detail None -> just the bare name.
    assert!(joined.contains("\u{2219} Bash"), "bare name row:\n{joined}");
}

#[test]
fn nested_subagent_tool_rows_hidden_when_not_verbose() {
    let mut s = state();
    s.workflow = Some("gen".to_owned());
    // verbose defaults to false.
    s.actions.push(action_with_subtools());

    let tc = bash_with_progress(s);
    let joined = render_text(&render_content(&tc)).join("\n");
    // Action row still shows.
    assert!(joined.contains("spawn_agent: worker"), "parent action:\n{joined}");
    // Nested tool rows are suppressed by default.
    assert!(!joined.contains("op_kernel.cpp"), "detail leaked:\n{joined}");
    assert!(!joined.contains("deploy + build kernel"), "detail leaked:\n{joined}");
}

#[test]
fn header_renders_ordered_params_after_workflow_name() {
    let mut s = state();
    s.workflow = Some("generate_ascendc".to_owned());
    s.params = vec![
        ("op".to_owned(), "3_Add".to_owned()),
        ("via".to_owned(), "cannbot".to_owned()),
        ("run_mode".to_owned(), "user".to_owned()),
    ];
    s.actions.push(WorkflowActionRow {
        action_id: "a1".to_owned(),
        kind: "verify".to_owned(),
        name: "verify".to_owned(),
        detail: None,
        completed: None,
        subagent_tools: Vec::new(),
    });

    let tc = bash_with_progress(s);
    let lines = render_text(&render_content(&tc));
    // Header line is the first workflow-progress line (after the $ cmd line).
    let header = lines.iter().find(|l| l.contains("generate_ascendc")).expect("header");
    assert!(header.contains("op=3_Add"), "param op:\n{header}");
    assert!(header.contains("via=cannbot"), "param via:\n{header}");
    assert!(header.contains("run_mode=user"), "param run_mode:\n{header}");
    assert!(header.contains("running"), "running marker:\n{header}");
    // Order: workflow name precedes params, params precede `running`.
    let w = header.find("generate_ascendc").unwrap();
    let p = header.find("op=3_Add").unwrap();
    let r = header.find("running").unwrap();
    assert!(w < p && p < r, "ordering wrong:\n{header}");
}

fn bash(status: ToolCallStatus, output: Option<&str>) -> ToolCallInfo {
    ToolCallInfo {
        status,
        terminal_command: Some("make".to_owned()),
        terminal_output: output.map(str::to_owned),
        workflow_progress: None,
        ..bash_with_progress(state())
    }
}

#[test]
fn long_output_is_capped_from_the_front() {
    let output = (1..=14).map(|n| format!("line {n}")).collect::<Vec<_>>().join("\n");
    let lines = render_text(&render_content(&bash(ToolCallStatus::Completed, Some(&output))));
    assert_eq!(lines.len(), 14);
    assert_eq!(lines[0], "$ make");
    assert_eq!(lines[1], "... 2 lines hidden ...");
    assert_eq!(lines[2], "line 3");
    assert_eq!(lines[13], "line 14");
}

#[test]
fn failed_commands_show_why() {
    let mut given = parts("a\nb");
    given.failure_line = Some("boom".to_owned());
    let failed = bash(ToolCallStatus::Failed, Some("a\nb"));
    assert_eq!(render_text(&render_execute_content(&failed, &given)), vec!["$ make", "boom"]);
    let killed = bash(ToolCallStatus::Killed, Some("a\nb"));
    assert_eq!(render_text(&render_execute_content(&killed, &given)), vec!["$ make", "boom"]);
    let fine = bash(ToolCallStatus::Completed, Some("a\nb"));
    assert_eq!(render_text(&render_execute_content(&fine, &given)), vec!["$ make", "a", "b"]);
}

#[test]
fn commands_without_output_are_running() {
    let running = render_content(&bash(ToolCallStatus::InProgress, None));
    assert_eq!(render_text(&running), vec!["$ make", "running..."]);
    assert_eq!(running[1].spans[0].style, Style { fg: Color::Dim, bold: false });
    assert_eq!(render_text(&render_content(&bash(ToolCallStatus::Completed, None))), vec!["$ make"]);
}

#[test]
fn controls_follow_output_and_progress_alike() {
    let mut given = parts("out");
    given.permission_lines = vec![plain_line("allow?")];
    given.question_lines = vec![plain_line("which?")];
    given.command_spans = vec![Span {
        content: "MAKE".to_owned(),
        style: Style { fg: Color::Palette(3), bold: false },
    }];
    let tc = bash(ToolCallStatus::Completed, Some("out"));
    assert_eq!(
        render_text(&render_execute_content(&tc, &given)),
        vec!["$ MAKE", "out", "allow?", "which?"]
    );
    let mut s = state();
    s.verbose = true;
    let tc = ToolCallInfo { workflow_progress: Some(s), ..tc };
    assert_eq!(
        render_text(&render_execute_content(&tc, &given)),
        vec!["$ MAKE", "\u{25b8} workflow running", "allow?", "which?"]
    );
}

#[test]
fn only_the_last_tool_rows_are_shown() {
    let mut s = state();
    s.verbose = true;
    let mut row = action_with_subtools();
    row.subagent_tools = (0..9)
        .map(|n| WorkflowSubagentToolRow {
            tool_call_id: format!("t{n}"),
            name: format!("Tool{n}"),
            detail: None,
            completed: true,
            status: Some("ok".to_owned()),
        })
        .collect();
    s.actions.push(row);
    let lines = render_text(&render_workflow_progress(&s));
    assert_eq!(lines.len(), 9);
    assert_eq!(lines[1], "  \u{2219} spawn_agent: worker  running");
    assert_eq!(lines[2], "      \u{2026} 3 earlier tool calls");
    assert_eq!(lines[3], "      \u{2713} Tool3  ok");
    assert_eq!(lines[8], "      \u{2713} Tool8  ok");
}

#[test]
fn labels_do_without_missing_parts() {
    assert_eq!(action_label("k", "n"), "k: n");
    assert_eq!(action_label("", "n"), "n");
    assert_eq!(action_label("k", ""), "k");
    assert_eq!(action_label("", ""), "action");
    assert_eq!(subagent_label("", &None), "tool");
    assert_eq!(subagent_label("Bash", &Some("  ".to_owned())), "Bash");
    assert_eq!(subagent_label("Bash", &Some(" x ".to_owned())), "Bash: x");
}

#[test]
fn the_box_fills_the_width() {
    let prefix = border_prefix("*", Color::Palette(0), "Bash");
    assert_eq!(
        prefix.iter().map(|s| s.content.as_str()).collect::<String>(),
        "  \u{256D}\u{2500} * Bash "
    );
    assert_eq!(title_budget(30, 12, 0), 16);
    assert_eq!(title_budget(10, 12, 0), 0);
    let border = BorderParts {
        prefix,
        prefix_width: 12,
        title: vec![plain_span("make".to_owned(), Color::White)],
        title_width: 4,
        badges: Vec::new(),
        badges_width: 0,
    };
    let lines = render_text(&render_execute_with_borders(&border, &vec![plain_line("out")], 30));
    assert_eq!(lines.len(), 3);
    assert_eq!(lines[0].chars().count(), 30);
    assert!(lines[0].ends_with("make\u{2500}\u{2500}\u{2500}\u{2500}\u{2500}\u{2500}\u{2500}\u{2500}\u{2500}\u{2500}\u{2500}\u{2500}\u{2500}\u{256E}"));
    assert_eq!(lines[1], "  \u{2502} out");
    assert_eq!(lines[2].chars().count(), 30);
    assert!(lines[2].starts_with("  \u{2570}\u{2500}") && lines[2].ends_with('\u{256F}'));
}

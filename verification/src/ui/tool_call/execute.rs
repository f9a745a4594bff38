//! Shell tool calls: their content, and the box around it.
//!
//! The content does not depend on the width of the terminal and can be kept; the
//! box is drawn around it for the width at hand.

use crate::app::{
    shows_something, ActionRowView, ProgressStateView, ToolCallInfo, ToolCallStatus,
    ToolCallView, ToolRowView, WorkflowActionRow, WorkflowActionStatus, WorkflowFinalizeKind,
    WorkflowProgressState, WorkflowSubagentToolRow,
};
use crate::text::{
    concat, decimal, decimal_of, join, joined, joining_one_more, trim, trimmed,
};
use crate::ui::styled::{
    add_line, add_lines, add_lines_from, add_span, add_spans, bold, bold_span, line_of, plain,
    plain_span, Color, Line, Span, SpanView, Style,
};
use vstd::prelude::*;

verus! {

/// The most lines of output that are shown.
pub const TERMINAL_MAX_LINES: usize = 12;

/// The most tool rows that are shown under an action.
pub const MAX_SUBAGENT_ROWS: usize = 6;

fn three(a: &str, b: &str, c: &str) -> (r: String)
    ensures
        r@ == a@ + b@ + c@,
{
    let mut out = a.to_owned();
    out.append(b);
    out.append(c);
    out
}

/// The label of an action: its kind and its name, as far as there are any.
pub open spec fn label_of_action(kind: Seq<char>, name: Seq<char>) -> Seq<char> {
    if kind.len() > 0 && name.len() > 0 {
        kind + ": "@ + name
    } else if name.len() > 0 {
        name
    } else if kind.len() > 0 {
        kind
    } else {
        "action"@
    }
}

/// [`label_of_action`]: the label of an action.
pub fn action_label(kind: &str, name: &str) -> (r: String)
    ensures
        r@ == label_of_action(kind@, name@),
{
    if !kind.is_empty() && !name.is_empty() {
        three(kind, ": ", name)
    } else if !name.is_empty() {
        name.to_owned()
    } else if !kind.is_empty() {
        kind.to_owned()
    } else {
        "action".to_owned()
    }
}

/// The words of a detail, where it is not blank.
pub open spec fn detail_words(detail: Option<Seq<char>>) -> Option<Seq<char>> {
    match detail {
        Some(text) => if trim(text).len() > 0 {
            Some(trim(text))
        } else {
            None
        },
        None => None,
    }
}

fn words_of_detail(detail: &Option<String>) -> (r: Option<String>)
    ensures
        r.deep_view() == detail_words(detail.deep_view()),
{
    match detail {
        Some(text) => {
            let t = trimmed(text.as_str());
            if t.as_str().is_empty() {
                None
            } else {
                Some(t)
            }
        },
        None => None,
    }
}

/// The label of a tool row: the tool's name, and the detail where there is one.
pub open spec fn label_of_tool(name: Seq<char>, detail: Option<Seq<char>>) -> Seq<char> {
    let shown = if name.len() > 0 {
        name
    } else {
        "tool"@
    };
    match detail_words(detail) {
        Some(words) => shown + ": "@ + words,
        None => shown,
    }
}

/// [`label_of_tool`]: the label of a tool row.
pub fn subagent_label(name: &str, detail: &Option<String>) -> (r: String)
    ensures
        r@ == label_of_tool(name@, detail.deep_view()),
{
    let shown = if name.is_empty() {
        "tool"
    } else {
        name
    };
    match words_of_detail(detail) {
        Some(words) => three(shown, ": ", words.as_str()),
        None => shown.to_owned(),
    }
}

/// The line of a tool row.
pub open spec fn tool_line(row: ToolRowView) -> Seq<SpanView> {
    let label = plain(label_of_tool(row.name, row.detail), Color::Dim);
    if row.completed {
        let head = seq![plain("      \u{2713} "@, Color::Green), label];
        match row.status {
            Some(status) => if status.len() > 0 {
                head.push(plain("  "@ + status, Color::Dim))
            } else {
                head
            },
            None => head,
        }
    } else {
        seq![plain("      \u{2219} "@, Color::Dim), label]
    }
}

/// [`tool_line`]: the line of a tool row.
pub fn render_subagent_row(sub: &WorkflowSubagentToolRow) -> (r: Line)
    ensures
        r.deep_view() == tool_line(sub.deep_view()),
{
    let label = subagent_label(sub.name.as_str(), &sub.detail);
    let mut spans: Vec<Span> = Vec::new();
    if sub.completed {
        add_span(&mut spans, plain_span("      \u{2713} ".to_owned(), Color::Green));
        add_span(&mut spans, plain_span(label, Color::Dim));
        if let Some(status) = &sub.status {
            if !status.as_str().is_empty() {
                add_span(&mut spans, plain_span(concat("  ", status.as_str()), Color::Dim));
            }
        }
    } else {
        add_span(&mut spans, plain_span("      \u{2219} ".to_owned(), Color::Dim));
        add_span(&mut spans, plain_span(label, Color::Dim));
    }
    assert(spans.deep_view() =~= tool_line(sub.deep_view()));
    Line { spans }
}

/// The span of an action's detail, where there is one.
pub open spec fn detail_spans(detail: Option<Seq<char>>) -> Seq<SpanView> {
    match detail_words(detail) {
        Some(words) => seq![plain("  ["@ + words + "]"@, Color::Dim)],
        None => Seq::empty(),
    }
}

/// Appends [`detail_spans`].
pub fn push_action_detail(spans: &mut Vec<Span>, detail: &Option<String>)
    ensures
        final(spans).deep_view() == old(spans).deep_view() + detail_spans(detail.deep_view()),
{
    let ghost before = spans.deep_view();
    match words_of_detail(detail) {
        Some(words) => {
            add_span(spans, plain_span(three("  [", words.as_str(), "]"), Color::Dim));
        },
        None => {},
    }
    assert(spans.deep_view() =~= before + detail_spans(detail.deep_view()));
}

/// The mark and the colour of an action's status.
pub open spec fn status_mark(status: WorkflowActionStatus) -> (Seq<char>, Color) {
    match status {
        WorkflowActionStatus::Success => ("  \u{2713} "@, Color::Green),
        WorkflowActionStatus::Retry => ("  \u{21bb} "@, Color::StatusWarning),
        WorkflowActionStatus::Fail => ("  \u{2717} "@, Color::StatusError),
    }
}

/// The line of an action: its mark, its label, its detail, and its outcome or
/// that it is running.
pub open spec fn action_line(row: ActionRowView) -> Seq<SpanView> {
    let label = plain(label_of_action(row.kind, row.name), Color::White);
    match row.completed {
        None => seq![plain("  \u{2219} "@, Color::Dim), label] + detail_spans(row.detail) + seq![
            plain("  running"@, Color::Dim),
        ],
        Some(done) => {
            let (mark, color) = status_mark(done.status);
            let outcome = if done.outcome.len() > 0 {
                seq![plain("  "@ + done.outcome, Color::Dim)]
            } else {
                Seq::empty()
            };
            seq![plain(mark, color), label] + detail_spans(row.detail) + outcome
        },
    }
}

/// [`action_line`]: the line of an action.
pub fn render_action_row(row: &WorkflowActionRow) -> (r: Line)
    ensures
        r.deep_view() == action_line(row.deep_view()),
{
    let label = action_label(row.kind.as_str(), row.name.as_str());
    let mut spans: Vec<Span> = Vec::new();
    match &row.completed {
        None => {
            add_span(&mut spans, plain_span("  \u{2219} ".to_owned(), Color::Dim));
            add_span(&mut spans, plain_span(label, Color::White));
            push_action_detail(&mut spans, &row.detail);
            add_span(&mut spans, plain_span("  running".to_owned(), Color::Dim));
        },
        Some(done) => {
            let (mark, color) = match done.status {
                WorkflowActionStatus::Success => ("  \u{2713} ", Color::Green),
                WorkflowActionStatus::Retry => ("  \u{21bb} ", Color::StatusWarning),
                WorkflowActionStatus::Fail => ("  \u{2717} ", Color::StatusError),
            };
            add_span(&mut spans, plain_span(mark.to_owned(), color));
            add_span(&mut spans, plain_span(label, Color::White));
            push_action_detail(&mut spans, &row.detail);
            if !done.outcome.as_str().is_empty() {
                add_span(&mut spans, plain_span(concat("  ", done.outcome.as_str()), Color::Dim));
            }
        },
    }
    assert(spans.deep_view() =~= action_line(row.deep_view()));
    Line { spans }
}

/// The lines of tool rows.
pub open spec fn tool_lines(tools: Seq<ToolRowView>) -> Seq<Seq<SpanView>> {
    tools.map_values(|row: ToolRowView| tool_line(row))
}

/// The lines below an action: its last tool rows, and above them how many came
/// before where there are more than can be shown.
pub open spec fn nested_lines(tools: Seq<ToolRowView>) -> Seq<Seq<SpanView>> {
    let total = tools.len();
    if total > MAX_SUBAGENT_ROWS {
        let hidden = (total - MAX_SUBAGENT_ROWS) as nat;
        seq![
            seq![
                plain(
                    "      \u{2026} "@ + decimal(hidden) + " earlier tool calls"@,
                    Color::Dim,
                ),
            ],
        ] + tool_lines(tools.skip(hidden as int))
    } else {
        tool_lines(tools)
    }
}

/// The lines of an action: its own and, where they are wanted, those below it.
pub open spec fn action_lines(row: ActionRowView, verbose: bool) -> Seq<Seq<SpanView>> {
    if verbose {
        seq![action_line(row)] + nested_lines(row.subagent_tools)
    } else {
        seq![action_line(row)]
    }
}

/// Appends [`action_lines`].
pub fn push_action_row(lines: &mut Vec<Line>, row: &WorkflowActionRow, verbose: bool)
    ensures
        final(lines).deep_view() == old(lines).deep_view() + action_lines(
            row.deep_view(),
            verbose,
        ),
{
    let ghost before = lines.deep_view();
    let ghost tools = row.deep_view().subagent_tools;
    add_line(lines, render_action_row(row));
    if !verbose {
        assert(lines.deep_view() =~= before + action_lines(row.deep_view(), verbose));
        return;
    }
    let total: usize = row.subagent_tools.len();
    let mut i: usize = 0;
    if total > MAX_SUBAGENT_ROWS {
        i = total - MAX_SUBAGENT_ROWS;
        add_line(
            lines,
            line_of(
                plain_span(
                    three(
                        "      \u{2026} ",
                        decimal_of(i as u64).as_str(),
                        " earlier tool calls",
                    ),
                    Color::Dim,
                ),
            ),
        );
    }
    let ghost head = lines.deep_view();
    let ghost from = i as int;
    assert(tools.skip(0) =~= tools);
    assert(head =~= head + tool_lines(tools.subrange(from, from)));
    while i < row.subagent_tools.len()
        invariant
            from <= i <= row.subagent_tools@.len(),
            0 <= from,
            tools == row.subagent_tools.deep_view(),
            lines.deep_view() == head + tool_lines(tools.subrange(from, i as int)),
        decreases row.subagent_tools@.len() - i,
    {
        assert(tools[i as int] == row.subagent_tools@[i as int].deep_view());
        add_line(lines, render_subagent_row(&row.subagent_tools[i]));
        assert(tool_lines(tools.subrange(from, i as int + 1)) =~= tool_lines(
            tools.subrange(from, i as int),
        ).push(tool_line(tools[i as int])));
        assert(lines.deep_view() =~= head + tool_lines(tools.subrange(from, i as int + 1)));
        i = i + 1;
    }
    assert(tools.subrange(from, i as int) =~= tools.skip(from));
    assert(lines.deep_view() =~= before + action_lines(row.deep_view(), verbose));
}

/// The header parameters as `key=value` texts.
pub open spec fn param_texts(params: Seq<(Seq<char>, Seq<char>)>) -> Seq<Seq<char>> {
    params.map_values(|p: (Seq<char>, Seq<char>)| p.0 + "="@ + p.1)
}

/// The span of the header parameters, where there are any.
pub open spec fn params_spans(params: Seq<(Seq<char>, Seq<char>)>) -> Seq<SpanView> {
    if params.len() == 0 {
        Seq::empty()
    } else {
        seq![plain(join(param_texts(params), " "@) + "  "@, Color::Dim)]
    }
}

/// The span of [`params_spans`], if there is one.
pub fn params_span(params: &Vec<(String, String)>) -> (r: Option<Span>)
    ensures
        match r {
            Some(span) => params_spans(params.deep_view()) == seq![span.deep_view()],
            None => params_spans(params.deep_view()).len() == 0,
        },
{
    if params.len() == 0 {
        return None;
    }
    let ghost all = params.deep_view();
    let mut texts: Vec<String> = Vec::new();
    let mut i: usize = 0;
    while i < params.len()
        invariant
            i <= params@.len(),
            all == params.deep_view(),
            texts.deep_view() == param_texts(all).take(i as int),
        decreases params@.len() - i,
    {
        let ghost before = texts.deep_view();
        assert(all[i as int] == (params@[i as int].0@, params@[i as int].1@));
        let text = three(params[i].0.as_str(), "=", params[i].1.as_str());
        let ghost added = text@;
        texts.push(text);
        assert(texts.deep_view() =~= before.push(added));
        assert(before.push(added) =~= param_texts(all).take(i as int + 1));
        i = i + 1;
    }
    assert(param_texts(all).take(i as int) =~= param_texts(all));
    let mut text = joined(&texts, " ");
    text.append("  ");
    Some(plain_span(text, Color::Dim))
}

/// The mark and the colour of a workflow's end.
pub open spec fn end_mark(kind: WorkflowFinalizeKind) -> (Seq<char>, Color) {
    match kind {
        WorkflowFinalizeKind::Done => ("\u{2713} "@, Color::Green),
        WorkflowFinalizeKind::Aborted => ("\u{2717} "@, Color::StatusError),
        WorkflowFinalizeKind::Escalated => ("\u{26a0} "@, Color::StatusWarning),
    }
}

/// The header of a workflow run: its name and parameters, and that it is running
/// or how it ended.
pub open spec fn header_line(state: ProgressStateView) -> Seq<SpanView> {
    let workflow = match state.workflow {
        Some(name) => name,
        None => "workflow"@,
    };
    match state.finalized {
        Some(end) => {
            let (mark, color) = end_mark(end.kind);
            seq![plain(mark, color), bold(workflow + " "@, Color::White)] + params_spans(
                state.params,
            ) + seq![plain(end.summary, color)]
        },
        None => seq![bold("\u{25b8} "@ + workflow + " "@, Color::RustOrange)] + params_spans(
            state.params,
        ) + seq![plain("running"@, Color::Dim)],
    }
}

/// The lines of the actions, one after the other.
pub open spec fn all_action_lines(actions: Seq<ActionRowView>, verbose: bool) -> Seq<
    Seq<SpanView>,
>
    decreases actions.len(),
{
    if actions.len() == 0 {
        Seq::empty()
    } else {
        all_action_lines(actions.drop_last(), verbose) + action_lines(actions.last(), verbose)
    }
}

/// The lines of a workflow run: the header and the actions below it.
pub open spec fn progress_lines(state: ProgressStateView) -> Seq<Seq<SpanView>> {
    seq![header_line(state)] + all_action_lines(state.actions, state.verbose)
}

/// [`progress_lines`]: the lines of a workflow run.
pub fn render_workflow_progress(progress: &WorkflowProgressState) -> (r: Vec<Line>)
    ensures
        r.deep_view() == progress_lines(progress.deep_view()),
{
    let ghost state = progress.deep_view();
    let workflow = match &progress.workflow {
        Some(name) => name.as_str(),
        None => "workflow",
    };
    let mut header: Vec<Span> = Vec::new();
    match &progress.finalized {
        Some(end) => {
            let (mark, color) = match end.kind {
                WorkflowFinalizeKind::Done => ("\u{2713} ", Color::Green),
                WorkflowFinalizeKind::Aborted => ("\u{2717} ", Color::StatusError),
                WorkflowFinalizeKind::Escalated => ("\u{26a0} ", Color::StatusWarning),
            };
            let mut name = workflow.to_owned();
            name.append(" ");
            add_span(&mut header, plain_span(mark.to_owned(), color));
            add_span(&mut header, bold_span(name, Color::White));
            match params_span(&progress.params) {
                Some(params) => {
                    add_span(&mut header, params);
                },
                None => {},
            }
            add_span(&mut header, plain_span(end.summary.clone(), color));
        },
        None => {
            add_span(
                &mut header,
                bold_span(three("\u{25b8} ", workflow, " "), Color::RustOrange),
            );
            match params_span(&progress.params) {
                Some(params) => {
                    add_span(&mut header, params);
                },
                None => {},
            }
            add_span(&mut header, plain_span("running".to_owned(), Color::Dim));
        },
    }
    assert(header.deep_view() =~= header_line(state));
    let mut lines: Vec<Line> = Vec::new();
    add_line(&mut lines, Line { spans: header });
    let mut i: usize = 0;
    assert(state.actions.take(0) =~= Seq::empty());
    assert(lines.deep_view() =~= seq![header_line(state)] + all_action_lines(
        state.actions.take(0),
        state.verbose,
    ));
    while i < progress.actions.len()
        invariant
            i <= progress.actions@.len(),
            state == progress.deep_view(),
            lines.deep_view() == seq![header_line(state)] + all_action_lines(
                state.actions.take(i as int),
                state.verbose,
            ),
        decreases progress.actions@.len() - i,
    {
        proof {
            assert(state.actions[i as int] == progress.actions@[i as int].deep_view());
            assert(state.actions.take(i as int + 1).drop_last() =~= state.actions.take(i as int));
        }
        push_action_row(&mut lines, &progress.actions[i], progress.verbose);
        assert(lines.deep_view() =~= seq![header_line(state)] + all_action_lines(
            state.actions.take(i as int + 1),
            state.verbose,
        ));
        i = i + 1;
    }
    assert(state.actions.take(i as int) =~= state.actions);
    lines
}

/// What the other parts of the view make of a tool call.
#[derive(Debug, PartialEq, Eq)]
pub struct ExecuteParts {
    /// The command in the colours of the shell, where they could be told.
    pub command_spans: Vec<Span>,
    /// The lines of the output.
    pub output_lines: Vec<Line>,
    /// The line that tells why a failed command failed, where the output has one.
    pub failure_line: Option<String>,
    /// The controls of a pending permission.
    pub permission_lines: Vec<Line>,
    /// The controls of a pending question.
    pub question_lines: Vec<Line>,
}

/// The content of [`ExecuteParts`].
pub struct PartsView {
    pub command_spans: Seq<SpanView>,
    pub output_lines: Seq<Seq<SpanView>>,
    pub failure_line: Option<Seq<char>>,
    pub permission_lines: Seq<Seq<SpanView>>,
    pub question_lines: Seq<Seq<SpanView>>,
}

impl DeepView for ExecuteParts {
    type V = PartsView;

    open spec fn deep_view(&self) -> PartsView {
        PartsView {
            command_spans: self.command_spans.deep_view(),
            output_lines: self.output_lines.deep_view(),
            failure_line: self.failure_line.deep_view(),
            permission_lines: self.permission_lines.deep_view(),
            question_lines: self.question_lines.deep_view(),
        }
    }
}

/// The line of the command, where there is one.
pub open spec fn command_lines(tc: ToolCallView, parts: PartsView) -> Seq<Seq<SpanView>> {
    match tc.terminal_command {
        Some(command) => {
            let shown = if parts.command_spans.len() > 0 {
                parts.command_spans
            } else {
                seq![plain(command, Color::Yellow)]
            };
            seq![seq![bold("$ "@, Color::RustOrange)] + shown]
        },
        None => Seq::empty(),
    }
}

/// The last lines of an output, and above them how many were left out where
/// there are more than can be shown.
pub open spec fn capped(lines: Seq<Seq<SpanView>>) -> Seq<Seq<SpanView>> {
    if lines.len() > TERMINAL_MAX_LINES {
        let hidden = (lines.len() - TERMINAL_MAX_LINES) as nat;
        seq![seq![plain("... "@ + decimal(hidden) + " lines hidden ..."@, Color::Dim)]]
            + lines.skip(hidden as int)
    } else {
        lines
    }
}

/// The lines of the output: of a failed command the line that tells why, else the
/// capped output; while there is none, that the command is running.
pub open spec fn body_lines(tc: ToolCallView, parts: PartsView) -> Seq<Seq<SpanView>> {
    let failed = tc.status == ToolCallStatus::Failed || tc.status == ToolCallStatus::Killed;
    if tc.terminal_output is Some {
        if failed && parts.failure_line is Some {
            seq![seq![plain(parts.failure_line->0, Color::StatusError)]]
        } else {
            capped(parts.output_lines)
        }
    } else if tc.status == ToolCallStatus::InProgress {
        seq![seq![plain("running..."@, Color::Dim)]]
    } else {
        Seq::empty()
    }
}

/// The content of a shell tool call. The progress of a workflow run takes the
/// place of the output as soon as there is something to show of it.
pub open spec fn content_lines(tc: ToolCallView, parts: PartsView) -> Seq<Seq<SpanView>> {
    let body = match tc.workflow_progress {
        Some(state) => if shows_something(state) {
            progress_lines(state)
        } else {
            body_lines(tc, parts)
        },
        None => body_lines(tc, parts),
    };
    command_lines(tc, parts) + body + parts.permission_lines + parts.question_lines
}

/// [`content_lines`]: the content of a shell tool call, without a box.
pub fn render_execute_content(tc: &ToolCallInfo, parts: &ExecuteParts) -> (r: Vec<Line>)
    ensures
        r.deep_view() == content_lines(tc.deep_view(), parts.deep_view()),
{
    let ghost call = tc.deep_view();
    let ghost given = parts.deep_view();
    let mut lines: Vec<Line> = Vec::new();
    if let Some(command) = &tc.terminal_command {
        let mut spans: Vec<Span> = Vec::new();
        add_span(&mut spans, bold_span("$ ".to_owned(), Color::RustOrange));
        if parts.command_spans.len() > 0 {
            add_spans(&mut spans, &parts.command_spans);
        } else {
            add_span(&mut spans, plain_span(command.clone(), Color::Yellow));
        }
        assert(spans.deep_view() =~= command_lines(call, given)[0]);
        add_line(&mut lines, Line { spans });
    }
    assert(lines.deep_view() =~= command_lines(call, given));
    let ghost head = lines.deep_view();
    let progress = match &tc.workflow_progress {
        Some(state) => if state.has_content() {
            Some(state)
        } else {
            None
        },
        None => None,
    };
    if let Some(state) = progress {
        add_lines(&mut lines, &render_workflow_progress(state));
        assert(lines.deep_view() =~= head + progress_lines(state.deep_view()));
    } else {
        if tc.terminal_output.is_some() {
            let failed = match tc.status {
                ToolCallStatus::Failed => true,
                ToolCallStatus::Killed => true,
                _ => false,
            };
            match (failed, &parts.failure_line) {
                (true, Some(first)) => {
                    add_line(&mut lines, line_of(plain_span(first.clone(), Color::StatusError)));
                },
                _ => {
                    let total: usize = parts.output_lines.len();
                    if total > TERMINAL_MAX_LINES {
                        let skipped: usize = total - TERMINAL_MAX_LINES;
                        let note = three(
                            "... ",
                            decimal_of(skipped as u64).as_str(),
                            " lines hidden ...",
                        );
                        add_line(&mut lines, line_of(plain_span(note, Color::Dim)));
                        add_lines_from(&mut lines, &parts.output_lines, skipped);
                    } else {
                        add_lines(&mut lines, &parts.output_lines);
                    }
                },
            }
        } else {
            match tc.status {
                ToolCallStatus::InProgress => {
                    add_line(&mut lines, line_of(plain_span("running...".to_owned(), Color::Dim)));
                },
                _ => {},
            }
        }
        assert(lines.deep_view() =~= head + body_lines(call, given));
    }
    add_lines(&mut lines, &parts.permission_lines);
    add_lines(&mut lines, &parts.question_lines);
    lines
}

/// The parts of the upper border that the rest of the view makes, with their
/// widths in columns.
#[derive(Debug, PartialEq, Eq)]
pub struct BorderParts {
    /// What [`border_prefix`] made.
    pub prefix: Vec<Span>,
    pub prefix_width: usize,
    /// The title, cut to the width that [`title_budget`] leaves it.
    pub title: Vec<Span>,
    pub title_width: usize,
    pub badges: Vec<Span>,
    pub badges_width: usize,
}

/// The left end of the upper border: the corner, the status icon and the tool's name.
pub fn border_prefix(icon: &str, icon_color: Color, tool_label: &str) -> (r: Vec<Span>)
    ensures
        r.deep_view() == seq![
            plain("  \u{256D}\u{2500}"@, Color::Dim),
            plain(" "@ + icon@ + " "@, icon_color),
            bold(tool_label@ + " "@, Color::White),
        ],
{
    let mut spans: Vec<Span> = Vec::new();
    let mut label = tool_label.to_owned();
    label.append(" ");
    add_span(&mut spans, plain_span("  \u{256D}\u{2500}".to_owned(), Color::Dim));
    add_span(&mut spans, plain_span(three(" ", icon, " "), icon_color));
    add_span(&mut spans, bold_span(label, Color::White));
    assert(spans.deep_view() =~= seq![
        plain("  \u{256D}\u{2500}"@, Color::Dim),
        plain(" "@ + icon@ + " "@, icon_color),
        bold(tool_label@ + " "@, Color::White),
    ]);
    spans
}

/// What is left of `whole` once `part` is taken away, or nothing.
pub open spec fn rest_of(whole: int, part: int) -> nat {
    if part < whole {
        (whole - part) as nat
    } else {
        0
    }
}

/// The columns left for the title in the upper border, with one column kept for
/// the corner and one so that the border looks continuous.
pub fn title_budget(width: u16, prefix_width: usize, badges_width: usize) -> (r: usize)
    requires
        prefix_width + badges_width + 2 <= usize::MAX,
    ensures
        r == rest_of(width as int, prefix_width + badges_width + 2),
        prefix_width + badges_width + 2 <= width ==> prefix_width + badges_width + r + 2 == width,
        prefix_width + badges_width + 2 > width ==> r == 0,
{
    let used: usize = prefix_width + badges_width + 2;
    let whole: usize = width as usize;
    if used < whole {
        whole - used
    } else {
        0
    }
}

/// A horizontal rule of so many columns.
pub open spec fn rule(columns: nat) -> Seq<char> {
    Seq::new(columns, |i: int| '\u{2500}')
}

fn push_rule(text: &mut String, columns: usize)
    ensures
        final(text)@ == old(text)@ + rule(columns as nat),
{
    let ghost before = text@;
    let mut i: usize = 0;
    assert(text@ =~= before + rule(0));
    while i < columns
        invariant
            i <= columns,
            text@ == before + rule(i as nat),
        decreases columns - i,
    {
        text.push('\u{2500}');
        i = i + 1;
        assert(text@ =~= before + rule(i as nat));
    }
}

/// The content of [`BorderParts`].
pub struct BorderView {
    pub prefix: Seq<SpanView>,
    pub prefix_width: nat,
    pub title: Seq<SpanView>,
    pub title_width: nat,
    pub badges: Seq<SpanView>,
    pub badges_width: nat,
}

impl DeepView for BorderParts {
    type V = BorderView;

    open spec fn deep_view(&self) -> BorderView {
        BorderView {
            prefix: self.prefix.deep_view(),
            prefix_width: self.prefix_width as nat,
            title: self.title.deep_view(),
            title_width: self.title_width as nat,
            badges: self.badges.deep_view(),
            badges_width: self.badges_width as nat,
        }
    }
}

/// The columns of the upper border that the rule fills.
pub open spec fn fill_width(parts: BorderView, width: u16) -> nat {
    rest_of(
        width as int,
        parts.prefix_width as int + parts.title_width as int + parts.badges_width as int + 1,
    )
}

/// The upper border.
pub open spec fn top_line(parts: BorderView, width: u16) -> Seq<SpanView> {
    parts.prefix + parts.title + parts.badges + seq![
        plain(rule(fill_width(parts, width)).push('\u{256E}'), Color::Dim),
    ]
}

/// A content line with the left side of the box before it.
pub open spec fn boxed_line(line: Seq<SpanView>) -> Seq<SpanView> {
    seq![plain("  \u{2502} "@, Color::Dim)] + line
}

/// The lower border.
pub open spec fn bottom_line(width: u16) -> Seq<SpanView> {
    seq![
        plain(
            ("  \u{2570}"@ + rule(rest_of(width as int, 4))).push('\u{256F}'),
            Color::Dim,
        ),
    ]
}

/// The box around the content lines.
pub open spec fn boxed(
    parts: BorderView,
    content: Seq<Seq<SpanView>>,
    width: u16,
) -> Seq<Seq<SpanView>> {
    seq![top_line(parts, width)] + content.map_values(|line: Seq<SpanView>| boxed_line(line))
        + seq![bottom_line(width)]
}

/// [`boxed`]: draws the box around the content lines.
pub fn render_execute_with_borders(parts: &BorderParts, content: &Vec<Line>, width: u16) -> (r: Vec<
    Line,
>)
    requires
        parts.prefix_width + parts.title_width + parts.badges_width + 1 <= usize::MAX,
    ensures
        r.deep_view() == boxed(parts.deep_view(), content.deep_view(), width),
{
    let ghost given = parts.deep_view();
    let ghost inner = content.deep_view().map_values(|line: Seq<SpanView>| boxed_line(line));
    let mut out: Vec<Line> = Vec::new();
    let budget: usize = width as usize;
    let used: usize = parts.prefix_width + parts.title_width + parts.badges_width + 1;
    let fill: usize = if used < budget {
        budget - used
    } else {
        0
    };
    let mut top_fill = String::new();
    push_rule(&mut top_fill, fill);
    assert(top_fill@ =~= rule(fill as nat));
    top_fill.push('\u{256E}');
    let mut top: Vec<Span> = Vec::new();
    add_spans(&mut top, &parts.prefix);
    add_spans(&mut top, &parts.title);
    add_spans(&mut top, &parts.badges);
    add_span(&mut top, plain_span(top_fill, Color::Dim));
    assert(top.deep_view() =~= top_line(given, width));
    add_line(&mut out, Line { spans: top });
    let mut i: usize = 0;
    assert(out.deep_view() =~= seq![top_line(given, width)] + inner.take(0));
    while i < content.len()
        invariant
            i <= content@.len(),
            inner == content.deep_view().map_values(|line: Seq<SpanView>| boxed_line(line)),
            out.deep_view() == seq![top_line(given, width)] + inner.take(i as int),
        decreases content@.len() - i,
    {
        let mut spans: Vec<Span> = Vec::new();
        add_span(&mut spans, plain_span("  \u{2502} ".to_owned(), Color::Dim));
        add_spans(&mut spans, &content[i].spans);
        assert(content.deep_view()[i as int] == content@[i as int].deep_view());
        assert(spans.deep_view() =~= inner[i as int]);
        add_line(&mut out, Line { spans });
        assert(out.deep_view() =~= seq![top_line(given, width)] + inner.take(i as int + 1));
        i = i + 1;
    }
    assert(inner.take(i as int) =~= inner);
    let bottom: usize = if budget > 4 {
        budget - 4
    } else {
        0
    };
    let mut line = "  \u{2570}".to_owned();
    push_rule(&mut line, bottom);
    line.push('\u{256F}');
    add_line(&mut out, line_of(plain_span(line, Color::Dim)));
    assert(out.deep_view() =~= boxed(given, content.deep_view(), width));
    out
}

/// Until an event has left its trace, the output of the command stays visible;
/// from then on the progress takes its place.
pub proof fn progress_replaces_output_once_there_is_some(
    tc: ToolCallView,
    parts: PartsView,
    state: ProgressStateView,
)
    requires
        tc.workflow_progress == Some(state),
    ensures
        !shows_something(state) ==> content_lines(tc, parts) == content_lines(
            ToolCallView { workflow_progress: None, ..tc },
            parts,
        ),
        shows_something(state) ==> content_lines(tc, parts) == content_lines(
            ToolCallView { terminal_output: None, ..tc },
            PartsView { output_lines: Seq::empty(), failure_line: None, ..parts },
        ),
{
}

/// Without the wish for more, a run shows its header and one line per action.
pub proof fn quiet_run_shows_one_line_per_action(state: ProgressStateView)
    requires
        !state.verbose,
    ensures
        progress_lines(state).len() == 1 + state.actions.len(),
        forall|i: int|
            0 <= i < state.actions.len() ==> #[trigger] progress_lines(state)[i + 1] == action_line(
                state.actions[i],
            ),
{
    quiet_action_lines(state.actions);
}

proof fn quiet_action_lines(actions: Seq<ActionRowView>)
    ensures
        all_action_lines(actions, false) == actions.map_values(
            |row: ActionRowView| action_line(row),
        ),
    decreases actions.len(),
{
    let shown = actions.map_values(|row: ActionRowView| action_line(row));
    if actions.len() > 0 {
        quiet_action_lines(actions.drop_last());
        assert(all_action_lines(actions, false) =~= shown);
    } else {
        assert(all_action_lines(actions, false) =~= shown);
    }
}

/// The box stays bounded: no more output lines than allowed and the note above
/// them, no more tool rows than allowed and the note above them.
pub proof fn shown_lines_are_bounded(lines: Seq<Seq<SpanView>>, tools: Seq<ToolRowView>)
    ensures
        capped(lines).len() <= TERMINAL_MAX_LINES + 1,
        nested_lines(tools).len() <= MAX_SUBAGENT_ROWS + 1,
{
}

/// The upper border fills the width exactly, with at least one column of rule,
/// where the title keeps to its budget and the rest leaves room for it.
pub proof fn top_border_fills_the_width(parts: BorderView, width: u16)
    requires
        parts.prefix_width + parts.badges_width + 2 <= width,
        parts.title_width <= rest_of(
            width as int,
            parts.prefix_width as int + parts.badges_width as int + 2,
        ),
    ensures
        fill_width(parts, width) >= 1,
        parts.prefix_width + parts.title_width + parts.badges_width + fill_width(parts, width) + 1
            == width,
{
}

proof fn marks_differ()
    ensures
        "  \u{2713} "@ != "  \u{21bb} "@,
        "  \u{2713} "@ != "  \u{2717} "@,
        "  \u{21bb} "@ != "  \u{2717} "@,
        "  \u{2219} "@ != "  \u{2713} "@,
        "  \u{2219} "@ != "  \u{21bb} "@,
        "  \u{2219} "@ != "  \u{2717} "@,
        "\u{2713} "@ != "\u{2717} "@,
        "\u{2713} "@ != "\u{26a0} "@,
        "\u{2717} "@ != "\u{26a0} "@,
{
    reveal_strlit("  \u{2713} ");
    reveal_strlit("  \u{21bb} ");
    reveal_strlit("  \u{2717} ");
    reveal_strlit("  \u{2219} ");
    reveal_strlit("\u{2713} ");
    reveal_strlit("\u{2717} ");
    reveal_strlit("\u{26a0} ");
    assert("  \u{2713} "@[2] == '\u{2713}');
    assert("  \u{21bb} "@[2] == '\u{21bb}');
    assert("  \u{2717} "@[2] == '\u{2717}');
    assert("  \u{2219} "@[2] == '\u{2219}');
    assert("\u{2713} "@[0] == '\u{2713}');
    assert("\u{2717} "@[0] == '\u{2717}');
    assert("\u{26a0} "@[0] == '\u{26a0}');
}

/// The first span of a completed action's line tells its status: the check mark in green
/// exactly where it is a success, the turning arrow in the colour of warnings exactly where it
/// is a retry, and the cross in the colour of errors exactly where it is a failure.
pub proof fn marks_tell_the_status(row: ActionRowView)
    requires
        row.completed is Some,
    ensures
        ({
            let status = row.completed->0.status;
            let first = action_line(row)[0];
            &&& status == WorkflowActionStatus::Success <==> first.content == "  \u{2713} "@
            &&& status == WorkflowActionStatus::Success <==> first.style.fg == Color::Green
            &&& status == WorkflowActionStatus::Retry <==> first.content == "  \u{21bb} "@
            &&& status == WorkflowActionStatus::Retry <==> first.style.fg == Color::StatusWarning
            &&& status == WorkflowActionStatus::Fail <==> first.content == "  \u{2717} "@
            &&& status == WorkflowActionStatus::Fail <==> first.style.fg == Color::StatusError
            &&& !first.style.bold
        }),
{
    marks_differ();
}

/// Actions of different status never bear the same mark nor the same colour, and one that is
/// running bears the mark of none of them.
pub proof fn different_statuses_look_different(a: ActionRowView, b: ActionRowView)
    requires
        a.completed is Some,
        b.completed matches Some(done) ==> done.status != a.completed->0.status,
    ensures
        action_line(a)[0].content != action_line(b)[0].content,
        action_line(a)[0].style.fg != action_line(b)[0].style.fg,
{
    marks_differ();
}

/// Behind its mark, the line of an action names its kind and its name, as far as there are any,
/// in white; then its detail in brackets where it is not blank; and it ends with the outcome
/// where there is one, or with the word that it is running.
pub proof fn action_lines_say_what_is_known(row: ActionRowView)
    ensures
        ({
            let line = action_line(row);
            let label = line[1];
            let detailed = row.detail matches Some(text) && trim(text).len() > 0;
            let d: int = if detailed {
                1
            } else {
                0
            };
            &&& label.style.fg == Color::White
            &&& row.kind.len() > 0 && row.name.len() > 0 ==> label.content == row.kind + ": "@
                + row.name
            &&& row.kind.len() == 0 && row.name.len() > 0 ==> label.content == row.name
            &&& row.kind.len() > 0 && row.name.len() == 0 ==> label.content == row.kind
            &&& row.kind.len() == 0 && row.name.len() == 0 ==> label.content == "action"@
            &&& detailed ==> line[2].content == "  ["@ + trim(row.detail->0) + "]"@
                && line[2].style.fg == Color::Dim
            &&& row.completed is None ==> {
                &&& line.len() == 3 + d
                &&& line[0].content == "  \u{2219} "@
                &&& line[0].style.fg == Color::Dim
                &&& line[2 + d].content == "  running"@
                &&& line[2 + d].style.fg == Color::Dim
            }
            &&& row.completed matches Some(done) ==> if done.outcome.len() > 0 {
                &&& line.len() == 3 + d
                &&& line[2 + d].content == "  "@ + done.outcome
                &&& line[2 + d].style.fg == Color::Dim
            } else {
                line.len() == 2 + d
            }
        }),
{
}

/// The line of a tool row bears a check mark in green where the call has ended and a dot where
/// it has not; it names the tool, with the detail where it is not blank; and it ends with the
/// status of a call that has ended with one.
pub proof fn tool_lines_say_what_is_known(row: ToolRowView)
    ensures
        ({
            let line = tool_line(row);
            let name = if row.name.len() > 0 {
                row.name
            } else {
                "tool"@
            };
            &&& row.completed <==> line[0].style.fg == Color::Green
            &&& row.completed ==> line[0].content == "      \u{2713} "@
            &&& !row.completed ==> line[0].content == "      \u{2219} "@
            &&& line[1].style.fg == Color::Dim
            &&& line[1].content == if row.detail matches Some(text) && trim(text).len() > 0 {
                name + ": "@ + trim(row.detail->0)
            } else {
                name
            }
            &&& if row.completed && (row.status matches Some(status) && status.len() > 0) {
                &&& line.len() == 3
                &&& line[2].content == "  "@ + row.status->0
                &&& line[2].style.fg == Color::Dim
            } else {
                line.len() == 2
            }
        }),
{
}

/// Below an action stand the lines of its last six tool rows, in their order; where there are
/// more, a note above them counts the earlier ones.
pub proof fn the_last_tool_rows_are_shown(tools: Seq<ToolRowView>)
    ensures
        ({
            let shown = nested_lines(tools);
            let n = tools.len() as int;
            &&& n <= 6 ==> shown.len() == n && forall|i: int|
                0 <= i < n ==> #[trigger] shown[i] == tool_line(tools[i])
            &&& n > 6 ==> {
                &&& shown.len() == 7
                &&& shown[0].len() == 1
                &&& shown[0][0].content == "      \u{2026} "@ + decimal((n - 6) as nat)
                    + " earlier tool calls"@
                &&& shown[0][0].style.fg == Color::Dim
                &&& forall|i: int|
                    0 <= i < 6 ==> #[trigger] shown[i + 1] == tool_line(tools[n - 6 + i])
            }
        }),
{
    let n = tools.len() as int;
    let shown = nested_lines(tools);
    if n > 6 {
        assert forall|i: int| 0 <= i < 6 implies #[trigger] shown[i + 1] == tool_line(
            tools[n - 6 + i],
        ) by {
            assert(tools.skip(n - 6)[i] == tools[n - 6 + i]);
        }
    }
}

/// A run shows its header, then each action with its own line and, where the run is verbose,
/// the lines of its tool rows right below it, in the order of the actions.
pub proof fn actions_follow_the_header(state: ProgressStateView, row: ActionRowView)
    ensures
        ({
            let more = ProgressStateView { actions: state.actions.push(row), ..state };
            let none = ProgressStateView { actions: Seq::empty(), ..state };
            &&& progress_lines(none) == seq![header_line(state)]
            &&& progress_lines(more) == progress_lines(state) + seq![action_line(row)]
                + if state.verbose {
                nested_lines(row.subagent_tools)
            } else {
                Seq::empty()
            }
        }),
{
    let more = state.actions.push(row);
    assert(more.drop_last() =~= state.actions);
    let below = if state.verbose {
        nested_lines(row.subagent_tools)
    } else {
        Seq::empty()
    };
    assert(action_lines(row, state.verbose) =~= seq![action_line(row)] + below);
    assert(seq![header_line(state)] + (all_action_lines(state.actions, state.verbose)
        + action_lines(row, state.verbose)) =~= (seq![header_line(state)] + all_action_lines(
        state.actions,
        state.verbose,
    )) + seq![action_line(row)] + below);
    assert(seq![header_line(state)] + all_action_lines(Seq::empty(), state.verbose) =~= seq![
        header_line(state),
    ]);
}

/// The header of a run that goes on names the workflow in the accent colour and ends with the
/// word that it is running. That of a run that has ended begins with a mark and ends with the
/// summary, both in the colour of the end: green with a check mark where it is done, the colour
/// of errors with a cross where it was aborted, and the colour of warnings with a warning sign
/// where it was escalated.
pub proof fn headers_say_how_a_run_stands(state: ProgressStateView)
    ensures
        ({
            let line = header_line(state);
            let name = match state.workflow {
                Some(workflow) => workflow,
                None => "workflow"@,
            };
            let p: int = if state.params.len() > 0 {
                1
            } else {
                0
            };
            &&& state.finalized is None ==> {
                &&& line.len() == 2 + p
                &&& line[0].content == "\u{25b8} "@ + name + " "@
                &&& line[0].style.fg == Color::RustOrange
                &&& line[0].style.bold
                &&& line[1 + p].content == "running"@
                &&& line[1 + p].style.fg == Color::Dim
            }
            &&& state.finalized matches Some(end) ==> {
                let (first, last) = (line[0], line[2 + p]);
                &&& line.len() == 3 + p
                &&& end.kind == WorkflowFinalizeKind::Done <==> first.content == "\u{2713} "@
                &&& end.kind == WorkflowFinalizeKind::Done <==> first.style.fg == Color::Green
                &&& end.kind == WorkflowFinalizeKind::Aborted <==> first.content == "\u{2717} "@
                &&& end.kind == WorkflowFinalizeKind::Aborted <==> first.style.fg
                    == Color::StatusError
                &&& end.kind == WorkflowFinalizeKind::Escalated <==> first.content == "\u{26a0} "@
                &&& end.kind == WorkflowFinalizeKind::Escalated <==> first.style.fg
                    == Color::StatusWarning
                &&& line[1].content == name + " "@
                &&& line[1].style.fg == Color::White
                &&& line[1].style.bold
                &&& last.content == end.summary
                &&& last.style.fg == first.style.fg
            }
        }),
{
    marks_differ();
}

/// The header lists the parameters in their order as keys and values, with spaces between them,
/// before the word or the summary at its end.
pub proof fn headers_list_the_parameters(
    state: ProgressStateView,
    one: (Seq<char>, Seq<char>),
    two: (Seq<char>, Seq<char>),
)
    ensures
        ({
            let a = one.0 + "="@ + one.1;
            let b = two.0 + "="@ + two.1;
            let at: int = if state.finalized is Some {
                2
            } else {
                1
            };
            let single = header_line(ProgressStateView { params: seq![one], ..state });
            let both = header_line(ProgressStateView { params: seq![one, two], ..state });
            &&& single[at].content == a + "  "@
            &&& both[at].content == a + " "@ + b + "  "@
            &&& both[at].style.fg == Color::Dim
        }),
{
    let a = one.0 + "="@ + one.1;
    let b = two.0 + "="@ + two.1;
    assert(param_texts(seq![one]) =~= seq![a]);
    assert(param_texts(seq![one, two]) =~= seq![a].push(b));
    joining_one_more(seq![a], " "@, b);
    joining_one_more(seq![a], " "@, a);
}

/// Of a long output the last twelve lines are shown as they are, below a note that counts the
/// ones that are not; a shorter one is shown whole.
pub proof fn the_last_lines_are_shown(lines: Seq<Seq<SpanView>>)
    ensures
        ({
            let shown = capped(lines);
            let n = lines.len() as int;
            &&& n <= 12 ==> shown == lines
            &&& n > 12 ==> {
                &&& shown.len() == 13
                &&& shown[0].len() == 1
                &&& shown[0][0].content == "... "@ + decimal((n - 12) as nat)
                    + " lines hidden ..."@
                &&& shown[0][0].style.fg == Color::Dim
                &&& forall|i: int| 0 <= i < 12 ==> #[trigger] shown[i + 1] == lines[n - 12 + i]
            }
        }),
{
    let n = lines.len() as int;
    let shown = capped(lines);
    if n > 12 {
        assert forall|i: int| 0 <= i < 12 implies #[trigger] shown[i + 1] == lines[n - 12 + i] by {
            assert(lines.skip(n - 12)[i] == lines[n - 12 + i]);
        }
    }
}

/// The command stands on the first line behind a prompt sign: in the colours of the shell where
/// they are known, else in yellow.
pub proof fn commands_come_first(tc: ToolCallView, parts: PartsView, command: Seq<char>)
    requires
        tc.terminal_command == Some(command),
    ensures
        ({
            let line = content_lines(tc, parts)[0];
            &&& line[0].content == "$ "@
            &&& line[0].style.fg == Color::RustOrange
            &&& line[0].style.bold
            &&& parts.command_spans.len() > 0 ==> line.skip(1) == parts.command_spans
            &&& parts.command_spans.len() == 0 ==> {
                &&& line.len() == 2
                &&& line[1].content == command
                &&& line[1].style.fg == Color::Yellow
            }
        }),
{
    let line = content_lines(tc, parts)[0];
    assert(line == command_lines(tc, parts)[0]);
    if parts.command_spans.len() > 0 {
        assert(line.skip(1) =~= parts.command_spans);
    }
}

/// Without progress to show, what follows the command is: of a command that failed or was
/// killed, the line that tells why, in the colour of errors, where the output has one; else the
/// output, capped; while there is none, that the command is running, if it is; and nothing
/// otherwise. The controls of a permission and those of a question come last, in this order.
pub proof fn outputs_follow_the_command(tc: ToolCallView, parts: PartsView)
    requires
        tc.workflow_progress matches Some(state) ==> !shows_something(state),
        tc.terminal_command is None,
    ensures
        ({
            let content = content_lines(tc, parts);
            let tail = parts.permission_lines + parts.question_lines;
            let failed = tc.status == ToolCallStatus::Failed || tc.status == ToolCallStatus::Killed;
            &&& tc.terminal_output is Some && failed && parts.failure_line is Some ==> content
                == seq![
                seq![
                    SpanView {
                        content: parts.failure_line->0,
                        style: Style { fg: Color::StatusError, bold: false },
                    },
                ],
            ] + tail
            &&& tc.terminal_output is Some && !(failed && parts.failure_line is Some) ==> content
                == capped(parts.output_lines) + tail
            &&& tc.terminal_output is None && tc.status == ToolCallStatus::InProgress ==> content
                == seq![
                seq![
                    SpanView {
                        content: "running..."@,
                        style: Style { fg: Color::Dim, bold: false },
                    },
                ],
            ] + tail
            &&& tc.terminal_output is None && tc.status != ToolCallStatus::InProgress ==> content
                == tail
        }),
{
    let tail = parts.permission_lines + parts.question_lines;
    let body = body_lines(tc, parts);
    assert(content_lines(tc, parts) =~= body + tail);
    assert(Seq::<Seq<SpanView>>::empty() + tail =~= tail);
}

/// Progress that shows something stands between the command and the controls, in place of the
/// output.
pub proof fn progress_follows_the_command(
    tc: ToolCallView,
    parts: PartsView,
    state: ProgressStateView,
)
    requires
        tc.workflow_progress == Some(state),
        state.workflow is Some || state.params.len() > 0 || state.verbose || state.actions.len() > 0
            || state.finalized is Some,
        tc.terminal_command is None,
    ensures
        content_lines(tc, parts) == progress_lines(state) + parts.permission_lines
            + parts.question_lines,
{
    assert(content_lines(tc, parts) =~= progress_lines(state) + parts.permission_lines
        + parts.question_lines);
}

/// The box has the content between its borders, line by line and in order, each line behind the
/// left side of the box.
pub proof fn boxes_hold_their_content(
    parts: BorderView,
    content: Seq<Seq<SpanView>>,
    width: u16,
)
    ensures
        ({
            let shown = boxed(parts, content, width);
            let n = content.len() as int;
            &&& shown.len() == n + 2
            &&& forall|i: int|
                0 <= i < n ==> {
                    &&& (#[trigger] shown[i + 1]).len() == content[i].len() + 1
                    &&& shown[i + 1][0].content == "  \u{2502} "@
                    &&& shown[i + 1][0].style.fg == Color::Dim
                    &&& shown[i + 1].skip(1) == content[i]
                }
            &&& shown[0].last().style.fg == Color::Dim
            &&& shown[n + 1][0].style.fg == Color::Dim
            &&& parts.prefix.is_prefix_of(shown[0])
            &&& (parts.prefix + parts.title + parts.badges).is_prefix_of(shown[0])
            &&& shown[0].len() == parts.prefix.len() + parts.title.len() + parts.badges.len() + 1
            &&& shown[0].last().content.last() == '\u{256E}'
            &&& shown[n + 1].len() == 1
            &&& shown[n + 1][0].content.last() == '\u{256F}'
        }),
{
    let shown = boxed(parts, content, width);
    let n = content.len() as int;
    assert forall|i: int| 0 <= i < n implies {
        &&& (#[trigger] shown[i + 1]).len() == content[i].len() + 1
        &&& shown[i + 1][0].content == "  \u{2502} "@
        &&& shown[i + 1][0].style.fg == Color::Dim
        &&& shown[i + 1].skip(1) == content[i]
    } by {
        assert(shown[i + 1] == boxed_line(content[i]));
        assert(shown[i + 1].skip(1) =~= content[i]);
    }
    let all = parts.prefix + parts.title + parts.badges;
    assert(shown[0] == top_line(parts, width));
    assert(shown[0].subrange(0, parts.prefix.len() as int) =~= parts.prefix);
    assert(shown[0].subrange(0, all.len() as int) =~= all);
}

/// The lower border is as wide as the box, and nothing but a rule stands between its corners.
pub proof fn lower_borders_fill_the_width(width: u16)
    requires
        width >= 4,
    ensures
        ({
            let text = bottom_line(width)[0].content;
            &&& text.len() == width
            &&& text[2] == '\u{2570}'
            &&& forall|i: int| 3 <= i < width - 1 ==> #[trigger] text[i] == '\u{2500}'
            &&& text[width - 1] == '\u{256F}'
        }),
{
    reveal_strlit("  \u{2570}");
}

} // verus!

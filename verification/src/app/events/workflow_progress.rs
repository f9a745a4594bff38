//! Live progress of a workflow run on the tool call that launched it.
//!
//! [`maybe_start_workflow_tail`] looks at a new shell tool call and, where its
//! command launches a workflow, attaches progress state to it and says which
//! files to tail. [`apply_workflow_progress`] and
//! [`apply_workflow_subagent_event`] put each update that comes back onto the
//! rows below that tool call.

use crate::agent::run_target::{extract_run_target, run_target_of};
use crate::agent::workflow_tail::{
    ActionStatus, FinalizeKind, ProgressView, SubagentPhase, SubagentToolEvent, SubagentView,
    WorkflowProgress,
};
use crate::app::{
    fresh_progress, tool_call_at, with_tool_call, ActionRowView, App, AppView, BlockView,
    CompletionView,
    FinalizeView, MessageBlock, ProgressStateView, ToolCallInfo, ToolCallView, ToolRowView,
    WorkflowActionCompletion, WorkflowActionRow, WorkflowActionStatus, WorkflowFinalizeKind,
    WorkflowFinalizeRow, WorkflowProgressState, WorkflowSubagentToolRow,
};
use crate::json::{get, text_of, Tree};
use crate::paths::path_join;
use crate::text::{copied, same, trim, trims_to_nothing};
use vstd::prelude::*;

verus! {

/// The class under which a status is shown.
pub open spec fn shown_status(status: ActionStatus) -> WorkflowActionStatus {
    match status {
        ActionStatus::Success => WorkflowActionStatus::Success,
        ActionStatus::Retry => WorkflowActionStatus::Retry,
        ActionStatus::Fail => WorkflowActionStatus::Fail,
    }
}

/// [`shown_status`]: the class under which a status is shown.
pub fn map_status(status: ActionStatus) -> (r: WorkflowActionStatus)
    ensures
        r == shown_status(status),
{
    match status {
        ActionStatus::Success => WorkflowActionStatus::Success,
        ActionStatus::Retry => WorkflowActionStatus::Retry,
        ActionStatus::Fail => WorkflowActionStatus::Fail,
    }
}

/// The class under which a workflow's end is shown.
pub open spec fn shown_end(kind: FinalizeKind) -> WorkflowFinalizeKind {
    match kind {
        FinalizeKind::Done => WorkflowFinalizeKind::Done,
        FinalizeKind::Aborted => WorkflowFinalizeKind::Aborted,
        FinalizeKind::Escalated => WorkflowFinalizeKind::Escalated,
    }
}

/// [`shown_end`]: the class under which a workflow's end is shown.
pub fn map_finalize(kind: FinalizeKind) -> (r: WorkflowFinalizeKind)
    ensures
        r == shown_end(kind),
{
    match kind {
        FinalizeKind::Done => WorkflowFinalizeKind::Done,
        FinalizeKind::Aborted => WorkflowFinalizeKind::Aborted,
        FinalizeKind::Escalated => WorkflowFinalizeKind::Escalated,
    }
}

/// The position of the first row of an action, or the number of rows where it has none.
pub open spec fn action_row(actions: Seq<ActionRowView>, id: Seq<char>) -> int
    decreases actions.len(),
{
    if actions.len() == 0 || actions[0].action_id == id {
        0
    } else {
        1 + action_row(actions.drop_first(), id)
    }
}

/// The position of the first row of a tool call, or the number of rows where it has none.
pub open spec fn tool_row(tools: Seq<ToolRowView>, id: Seq<char>) -> int
    decreases tools.len(),
{
    if tools.len() == 0 || tools[0].tool_call_id == id {
        0
    } else {
        1 + tool_row(tools.drop_first(), id)
    }
}

/// What [`action_row`] finds: the first row with the id, or the end.
pub proof fn action_row_is_first(actions: Seq<ActionRowView>, id: Seq<char>)
    ensures
        0 <= action_row(actions, id) <= actions.len(),
        action_row(actions, id) < actions.len() ==> actions[action_row(
            actions,
            id,
        )].action_id == id,
        forall|j: int| 0 <= j < action_row(actions, id) ==> (#[trigger] actions[j]).action_id != id,
    decreases actions.len(),
{
    if actions.len() > 0 && actions[0].action_id != id {
        let rest = actions.drop_first();
        action_row_is_first(rest, id);
        assert forall|j: int| 0 <= j < action_row(actions, id) implies (
        #[trigger] actions[j]).action_id != id by {
            if j > 0 {
                assert(rest[j - 1].action_id != id);
            }
        }
    }
}

/// What [`tool_row`] finds: the first row with the id, or the end.
pub proof fn tool_row_is_first(tools: Seq<ToolRowView>, id: Seq<char>)
    ensures
        0 <= tool_row(tools, id) <= tools.len(),
        tool_row(tools, id) < tools.len() ==> tools[tool_row(tools, id)].tool_call_id == id,
        forall|j: int| 0 <= j < tool_row(tools, id) ==> (#[trigger] tools[j]).tool_call_id != id,
    decreases tools.len(),
{
    if tools.len() > 0 && tools[0].tool_call_id != id {
        let rest = tools.drop_first();
        tool_row_is_first(rest, id);
        assert forall|j: int| 0 <= j < tool_row(tools, id) implies (
        #[trigger] tools[j]).tool_call_id != id by {
            if j > 0 {
                assert(rest[j - 1].tool_call_id != id);
            }
        }
    }
}

/// A text, unless it is empty.
pub open spec fn named(text: Seq<char>) -> Option<Seq<char>> {
    if text.len() > 0 {
        Some(text)
    } else {
        None
    }
}

/// The state after an update, and whether anything changed.
///
/// A start sets the header. An action gets one row when it starts; a second
/// start of it changes nothing. Its completion goes onto that row, or onto a row
/// of its own where the start was missed. The end of the workflow is noted and
/// uses up the stop signal. What is delivered once more as it was changes nothing.
pub open spec fn updated(state: ProgressStateView, update: ProgressView) -> (
    ProgressStateView,
    bool,
) {
    match update {
        ProgressView::Started { workflow, params, verbose } => {
            let next = ProgressStateView { workflow: named(workflow), params, verbose, ..state };
            (next, next != state)
        },
        ProgressView::ActionStarted { action_id, kind, name, detail } => {
            if action_row(state.actions, action_id) < state.actions.len() {
                (state, false)
            } else {
                let row = ActionRowView {
                    action_id,
                    kind,
                    name,
                    detail,
                    completed: None,
                    subagent_tools: Seq::empty(),
                };
                (ProgressStateView { actions: state.actions.push(row), ..state }, true)
            }
        },
        ProgressView::ActionCompleted { action_id, status, outcome, detail } => {
            let done = CompletionView { status: shown_status(status), outcome };
            let at = action_row(state.actions, action_id);
            let actions = if at < state.actions.len() {
                let row = state.actions[at];
                state.actions.update(
                    at,
                    ActionRowView {
                        detail: if row.detail is None {
                            detail
                        } else {
                            row.detail
                        },
                        completed: Some(done),
                        ..row
                    },
                )
            } else {
                state.actions.push(
                    ActionRowView {
                        action_id,
                        kind: Seq::empty(),
                        name: Seq::empty(),
                        detail,
                        completed: Some(done),
                        subagent_tools: Seq::empty(),
                    },
                )
            };
            let next = ProgressStateView { actions, ..state };
            (next, next != state)
        },
        ProgressView::Finalized { kind, summary } => {
            let next = ProgressStateView {
                finalized: Some(FinalizeView { kind: shown_end(kind), summary }),
                stop: None,
                ..state
            };
            (next, next != state)
        },
    }
}

/// The tool rows of an action after a subagent event, and whether anything
/// changed. The start of a call adds its row; where the call has a row
/// already, that row starts over if the tool's name is another and stays as it is
/// otherwise. The end of a call completes its row, or adds a completed one where
/// the start was missed.
pub open spec fn updated_tools(tools: Seq<ToolRowView>, event: SubagentView) -> (
    Seq<ToolRowView>,
    bool,
) {
    let at = tool_row(tools, event.tool_call_id);
    let known = at < tools.len();
    match event.phase {
        SubagentPhase::ToolUse => {
            let row = ToolRowView {
                tool_call_id: event.tool_call_id,
                name: event.name,
                detail: event.detail,
                completed: false,
                status: None,
            };
            if !known {
                (tools.push(row), true)
            } else if tools[at].name == event.name {
                (tools, false)
            } else {
                (tools.update(at, row), true)
            }
        },
        SubagentPhase::ToolResult => {
            if known {
                let next = tools.update(
                    at,
                    ToolRowView { completed: true, status: event.status, ..tools[at] },
                );
                (next, next != tools)
            } else {
                (
                    tools.push(
                        ToolRowView {
                            tool_call_id: event.tool_call_id,
                            name: event.name,
                            detail: event.detail,
                            completed: true,
                            status: event.status,
                        },
                    ),
                    true,
                )
            }
        },
    }
}

/// The state after a subagent event, and whether anything changed. An
/// event of an action that has no row is dropped.
pub open spec fn updated_by_subagent(state: ProgressStateView, event: SubagentView) -> (
    ProgressStateView,
    bool,
) {
    let at = action_row(state.actions, event.action_id);
    if at < state.actions.len() {
        let row = state.actions[at];
        let (tools, changed) = updated_tools(row.subagent_tools, event);
        (
            ProgressStateView {
                actions: state.actions.update(
                    at,
                    ActionRowView { subagent_tools: tools, ..row },
                ),
                ..state
            },
            changed,
        )
    } else {
        (state, false)
    }
}

fn find_action(actions: &Vec<WorkflowActionRow>, id: &str) -> (r: usize)
    ensures
        r == action_row(actions.deep_view(), id@),
        r <= actions@.len(),
{
    let ghost all = actions.deep_view();
    let mut i: usize = 0;
    assert(all.skip(0) =~= all);
    while i < actions.len()
        invariant
            i <= actions@.len(),
            all == actions.deep_view(),
            action_row(all, id@) == i + action_row(all.skip(i as int), id@),
        decreases actions@.len() - i,
    {
        assert(all.skip(i as int)[0] == actions@[i as int].deep_view());
        if same(actions[i].action_id.as_str(), id) {
            return i;
        }
        assert(all.skip(i as int).drop_first() =~= all.skip(i as int + 1));
        i = i + 1;
    }
    i
}

fn find_tool(tools: &Vec<WorkflowSubagentToolRow>, id: &str) -> (r: usize)
    ensures
        r == tool_row(tools.deep_view(), id@),
        r <= tools@.len(),
{
    let ghost all = tools.deep_view();
    let mut i: usize = 0;
    assert(all.skip(0) =~= all);
    while i < tools.len()
        invariant
            i <= tools@.len(),
            all == tools.deep_view(),
            tool_row(all, id@) == i + tool_row(all.skip(i as int), id@),
        decreases tools@.len() - i,
    {
        assert(all.skip(i as int)[0] == tools@[i as int].deep_view());
        if same(tools[i].tool_call_id.as_str(), id) {
            return i;
        }
        assert(all.skip(i as int).drop_first() =~= all.skip(i as int + 1));
        i = i + 1;
    }
    i
}

fn same_optional(a: &Option<String>, b: &Option<String>) -> (r: bool)
    ensures
        r == (a.deep_view() == b.deep_view()),
{
    match (a, b) {
        (Some(x), Some(y)) => same(x.as_str(), y.as_str()),
        (None, None) => true,
        _ => false,
    }
}

fn same_params(a: &Vec<(String, String)>, b: &Vec<(String, String)>) -> (r: bool)
    ensures
        r == (a.deep_view() == b.deep_view()),
{
    if a.len() != b.len() {
        assert(a.deep_view().len() != b.deep_view().len());
        return false;
    }
    let mut i: usize = 0;
    while i < a.len()
        invariant
            a@.len() == b@.len(),
            i <= a@.len(),
            forall|j: int| 0 <= j < i ==> #[trigger] a.deep_view()[j] == b.deep_view()[j],
        decreases a@.len() - i,
    {
        assert(a.deep_view()[i as int] == (a@[i as int].0@, a@[i as int].1@));
        assert(b.deep_view()[i as int] == (b@[i as int].0@, b@[i as int].1@));
        if !same(a[i].0.as_str(), b[i].0.as_str()) || !same(a[i].1.as_str(), b[i].1.as_str()) {
            return false;
        }
        i = i + 1;
    }
    assert(a.deep_view() =~= b.deep_view());
    true
}

fn is_completion(
    completed: &Option<WorkflowActionCompletion>,
    completion: &WorkflowActionCompletion,
) -> (r: bool)
    ensures
        r == (completed.deep_view() == Some(completion.deep_view())),
{
    match completed {
        Some(held) => {
            let same_status = match (held.status, completion.status) {
                (WorkflowActionStatus::Success, WorkflowActionStatus::Success) => true,
                (WorkflowActionStatus::Retry, WorkflowActionStatus::Retry) => true,
                (WorkflowActionStatus::Fail, WorkflowActionStatus::Fail) => true,
                _ => false,
            };
            same_status && same(held.outcome.as_str(), completion.outcome.as_str())
        },
        None => false,
    }
}

fn is_end(finalized: &Option<WorkflowFinalizeRow>, end: &WorkflowFinalizeRow) -> (r: bool)
    ensures
        r == (finalized.deep_view() == Some(end.deep_view())),
{
    match finalized {
        Some(held) => {
            let same_kind = match (held.kind, end.kind) {
                (WorkflowFinalizeKind::Done, WorkflowFinalizeKind::Done) => true,
                (WorkflowFinalizeKind::Aborted, WorkflowFinalizeKind::Aborted) => true,
                (WorkflowFinalizeKind::Escalated, WorkflowFinalizeKind::Escalated) => true,
                _ => false,
            };
            same_kind && same(held.summary.as_str(), end.summary.as_str())
        },
        None => false,
    }
}

/// [`updated`]: takes an update in and tells whether anything changed.
pub fn apply_to_state(state: &mut WorkflowProgressState, update: WorkflowProgress) -> (r: bool)
    ensures
        (final(state).deep_view(), r) == updated(old(state).deep_view(), update.deep_view()),
{
    let ghost before = state.deep_view();
    match update {
        WorkflowProgress::Started { workflow, params, verbose } => {
            let new = if workflow.as_str().is_empty() {
                None
            } else {
                Some(workflow)
            };
            if same_optional(&state.workflow, &new) && same_params(&state.params, &params)
                && state.verbose == verbose {
                return false;
            }
            state.workflow = new;
            state.params = params;
            state.verbose = verbose;
            true
        },
        WorkflowProgress::ActionStarted { action_id, kind, name, detail } => {
            let at: usize = find_action(&state.actions, action_id.as_str());
            if at < state.actions.len() {
                return false;
            }
            let row = WorkflowActionRow {
                action_id,
                kind,
                name,
                detail,
                completed: None,
                subagent_tools: Vec::new(),
            };
            assert(row.subagent_tools.deep_view() =~= Seq::empty());
            let ghost added = row.deep_view();
            state.actions.push(row);
            assert(state.actions.deep_view() =~= before.actions.push(added));
            true
        },
        WorkflowProgress::ActionCompleted { action_id, status, outcome, detail } => {
            let completion = WorkflowActionCompletion { status: map_status(status), outcome };
            let at: usize = find_action(&state.actions, action_id.as_str());
            if at < state.actions.len() {
                let ghost row = before.actions[at as int];
                assert(row == state.actions@[at as int].deep_view());
                let fills = state.actions[at].detail.is_none() && detail.is_some();
                let changed = fills || !is_completion(
                    &state.actions[at].completed,
                    &completion,
                );
                if fills {
                    state.actions[at].detail = detail;
                }
                state.actions[at].completed = Some(completion);
                proof {
                    let after = state.actions@[at as int].deep_view();
                    assert(state.actions.deep_view() =~= before.actions.update(at as int, after));
                    if !changed {
                        assert(after == row);
                        assert(before.actions.update(at as int, row) =~= before.actions);
                    } else {
                        assert(after != row);
                        assert(before.actions.update(at as int, after)[at as int] == after);
                    }
                }
                changed
            } else {
                let row = WorkflowActionRow {
                    action_id,
                    kind: String::new(),
                    name: String::new(),
                    detail,
                    completed: Some(completion),
                    subagent_tools: Vec::new(),
                };
                assert(row.subagent_tools.deep_view() =~= Seq::empty());
                assert(row.kind@ =~= Seq::empty());
                assert(row.name@ =~= Seq::empty());
                let ghost added = row.deep_view();
                state.actions.push(row);
                assert(state.actions.deep_view() =~= before.actions.push(added));
                assert(before.actions.push(added).len() != before.actions.len());
                true
            }
        },
        WorkflowProgress::Finalized { kind, summary } => {
            let end = WorkflowFinalizeRow { kind: map_finalize(kind), summary };
            let changed = state.stop.is_some() || !is_end(&state.finalized, &end);
            state.finalized = Some(end);
            state.stop_tail();
            changed
        },
    }
}

fn apply_to_tools(tools: &mut Vec<WorkflowSubagentToolRow>, event: &SubagentToolEvent) -> (r: bool)
    ensures
        (final(tools).deep_view(), r) == updated_tools(old(tools).deep_view(), event.deep_view()),
{
    let ghost before = tools.deep_view();
    let at: usize = find_tool(tools, event.tool_call_id.as_str());
    let known = at < tools.len();
    proof {
        if known {
            assert(before[at as int] == tools@[at as int].deep_view());
        }
    }
    match event.phase {
        SubagentPhase::ToolUse => {
            if known && same(tools[at].name.as_str(), event.name.as_str()) {
                return false;
            }
            let row = WorkflowSubagentToolRow {
                tool_call_id: event.tool_call_id.clone(),
                name: event.name.clone(),
                detail: copied(&event.detail),
                completed: false,
                status: None,
            };
            let ghost added = row.deep_view();
            if known {
                tools.set(at, row);
                assert(tools.deep_view() =~= before.update(at as int, added));
            } else {
                tools.push(row);
                assert(tools.deep_view() =~= before.push(added));
            }
            true
        },
        SubagentPhase::ToolResult => {
            if known {
                let changed = !tools[at].completed || !same_optional(
                    &tools[at].status,
                    &event.status,
                );
                tools[at].completed = true;
                tools[at].status = copied(&event.status);
                proof {
                    let after = tools@[at as int].deep_view();
                    assert(tools.deep_view() =~= before.update(at as int, after));
                    if !changed {
                        assert(after == before[at as int]);
                        assert(before.update(at as int, after) =~= before);
                    } else {
                        assert(after != before[at as int]);
                        assert(before.update(at as int, after)[at as int] == after);
                    }
                }
                changed
            } else {
                let row = WorkflowSubagentToolRow {
                    tool_call_id: event.tool_call_id.clone(),
                    name: event.name.clone(),
                    detail: copied(&event.detail),
                    completed: true,
                    status: copied(&event.status),
                };
                let ghost added = row.deep_view();
                tools.push(row);
                assert(tools.deep_view() =~= before.push(added));
                true
            }
        },
    }
}

/// [`updated_by_subagent`]: takes a subagent event in and tells whether anything
/// changed.
pub fn apply_subagent_to_state(
    state: &mut WorkflowProgressState,
    event: &SubagentToolEvent,
) -> (r: bool)
    ensures
        (final(state).deep_view(), r) == updated_by_subagent(
            old(state).deep_view(),
            event.deep_view(),
        ),
{
    let ghost before = state.deep_view();
    let at: usize = find_action(&state.actions, event.action_id.as_str());
    if at >= state.actions.len() {
        return false;
    }
    assert(before.actions[at as int] == state.actions@[at as int].deep_view());
    let changed = apply_to_tools(&mut state.actions[at].subagent_tools, event);
    assert(state.actions.deep_view() =~= before.actions.update(
        at as int,
        state.actions@[at as int].deep_view(),
    ));
    changed
}

/// What has to be drawn again after an update: the render cache of the block is
/// to be synced, the size of the message measured anew and its layout discarded.
#[derive(Debug, Clone, Copy, PartialEq, Eq)]
pub struct Redraw {
    pub message: usize,
    pub block: usize,
    /// The stop signal to fire, where the update used it up.
    pub stop: Option<u64>,
}

/// The application after an update of a tool call's workflow, and what has to be
/// drawn again. Updates for a tool call that is not there or has no progress
/// state change nothing.
pub open spec fn progress_applied(app: AppView, id: Seq<char>, update: ProgressView) -> (
    AppView,
    Option<Redraw>,
) {
    match tool_call_at(app, id) {
        Some((message, block, tc)) => match tc.workflow_progress {
            Some(state) => {
                let (next, changed) = updated(state, update);
                if changed {
                    (
                        with_tool_call(
                            app,
                            message as int,
                            block as int,
                            ToolCallView {
                                workflow_progress: Some(next),
                                layout_dirty: true,
                                ..tc
                            },
                        ),
                        Some(
                            Redraw {
                                message,
                                block,
                                stop: if next.stop is None {
                                    state.stop
                                } else {
                                    None
                                },
                            },
                        ),
                    )
                } else {
                    (app, None)
                }
            },
            None => (app, None),
        },
        None => (app, None),
    }
}

/// The application after a subagent event of a tool call's workflow, and what has
/// to be drawn again.
pub open spec fn subagent_event_applied(app: AppView, id: Seq<char>, event: SubagentView) -> (
    AppView,
    Option<Redraw>,
) {
    match tool_call_at(app, id) {
        Some((message, block, tc)) => match tc.workflow_progress {
            Some(state) => {
                let (next, changed) = updated_by_subagent(state, event);
                if changed {
                    (
                        with_tool_call(
                            app,
                            message as int,
                            block as int,
                            ToolCallView {
                                workflow_progress: Some(next),
                                layout_dirty: true,
                                ..tc
                            },
                        ),
                        Some(Redraw { message, block, stop: None }),
                    )
                } else {
                    (app, None)
                }
            },
            None => (app, None),
        },
        None => (app, None),
    }
}

/// Puts an update onto the tool call with the id. See [`progress_applied`].
pub fn apply_workflow_progress(
    app: &mut App,
    tool_call_id: &str,
    update: WorkflowProgress,
) -> (r: Option<Redraw>)
    ensures
        (final(app).deep_view(), r) == progress_applied(
            old(app).deep_view(),
            tool_call_id@,
            update.deep_view(),
        ),
{
    let ghost before = app.deep_view();
    let (message, block) = match app.lookup_tool_call(tool_call_id) {
        Some(place) => place,
        None => {
            return None;
        },
    };
    if message >= app.messages.len() {
        return None;
    }
    assert(before.messages[message as int] == app.messages@[message as int].blocks.deep_view());
    if block >= app.messages[message].blocks.len() {
        return None;
    }
    assert(before.messages[message as int][block as int]
        == app.messages@[message as int].blocks@[block as int].deep_view());
    let mut redraw: Option<Redraw> = None;
    match &mut app.messages[message].blocks[block] {
        MessageBlock::ToolCall(tc) => {
            match &mut tc.workflow_progress {
                Some(state) => {
                    let held = state.stop;
                    if apply_to_state(state, update) {
                        let stop = if state.stop.is_none() {
                            held
                        } else {
                            None
                        };
                        redraw = Some(Redraw { message, block, stop });
                    }
                },
                None => {},
            }
            if redraw.is_some() {
                tc.layout_dirty = true;
            }
        },
        MessageBlock::Text(_) => {},
    }
    proof {
        let after = app.messages@[message as int].blocks;
        assert(after.deep_view() =~= before.messages[message as int].update(
            block as int,
            after@[block as int].deep_view(),
        ));
        assert(app.messages.deep_view() =~= before.messages.update(
            message as int,
            after.deep_view(),
        ));
        if redraw is None {
            assert(before.messages[message as int].update(
                block as int,
                before.messages[message as int][block as int],
            ) =~= before.messages[message as int]);
            assert(before.messages.update(message as int, before.messages[message as int])
                =~= before.messages);
        }
    }
    redraw
}

/// Puts a subagent event onto the tool call with the id. See
/// [`subagent_event_applied`].
pub fn apply_workflow_subagent_event(
    app: &mut App,
    tool_call_id: &str,
    event: &SubagentToolEvent,
) -> (r: Option<Redraw>)
    ensures
        (final(app).deep_view(), r) == subagent_event_applied(
            old(app).deep_view(),
            tool_call_id@,
            event.deep_view(),
        ),
{
    let ghost before = app.deep_view();
    let (message, block) = match app.lookup_tool_call(tool_call_id) {
        Some(place) => place,
        None => {
            return None;
        },
    };
    if message >= app.messages.len() {
        return None;
    }
    assert(before.messages[message as int] == app.messages@[message as int].blocks.deep_view());
    if block >= app.messages[message].blocks.len() {
        return None;
    }
    assert(before.messages[message as int][block as int]
        == app.messages@[message as int].blocks@[block as int].deep_view());
    let mut redraw: Option<Redraw> = None;
    match &mut app.messages[message].blocks[block] {
        MessageBlock::ToolCall(tc) => {
            match &mut tc.workflow_progress {
                Some(state) => {
                    proof {
                        unchanged_by_subagent(state.deep_view(), event.deep_view());
                    }
                    if apply_subagent_to_state(state, event) {
                        redraw = Some(Redraw { message, block, stop: None });
                    }
                },
                None => {},
            }
            if redraw.is_some() {
                tc.layout_dirty = true;
            }
        },
        MessageBlock::Text(_) => {},
    }
    proof {
        let after = app.messages@[message as int].blocks;
        assert(after.deep_view() =~= before.messages[message as int].update(
            block as int,
            after@[block as int].deep_view(),
        ));
        assert(app.messages.deep_view() =~= before.messages.update(
            message as int,
            after.deep_view(),
        ));
        if redraw is None {
            assert(before.messages[message as int].update(
                block as int,
                before.messages[message as int][block as int],
            ) =~= before.messages[message as int]);
            assert(before.messages.update(message as int, before.messages[message as int])
                =~= before.messages);
        }
    }
    redraw
}

/// The shell command of a tool call: the one that the terminal ran or, where that
/// is blank or missing, the one in the tool's input.
pub open spec fn command_in(tc: ToolCallView) -> Option<Seq<char>> {
    let input = match tc.raw_input {
        Some(tree) => text_of(get(tree, "command"@)),
        None => None,
    };
    if tc.terminal_command matches Some(command) && trim(command).len() > 0 {
        tc.terminal_command
    } else if input matches Some(command) && trim(command).len() > 0 {
        input
    } else {
        None
    }
}

/// [`command_in`]: the shell command of a tool call.
pub fn command_of(tc: &ToolCallInfo) -> (r: Option<String>)
    ensures
        r.deep_view() == command_in(tc.deep_view()),
{
    if let Some(command) = &tc.terminal_command {
        if !trims_to_nothing(command.as_str()) {
            return Some(command.clone());
        }
    }
    match &tc.raw_input {
        Some(input) => match input.text_at("command") {
            Some(command) => if trims_to_nothing(command.as_str()) {
                None
            } else {
                Some(command)
            },
            None => None,
        },
        None => None,
    }
}

/// The files to tail for a tool call.
#[derive(Debug, PartialEq, Eq)]
pub struct TailStart {
    pub run_id: String,
    pub events_path: String,
    pub agent_stream_path: String,
}

/// The content of a [`TailStart`].
pub struct TailStartView {
    pub run_id: Seq<char>,
    pub events_path: Seq<char>,
    pub agent_stream_path: Seq<char>,
}

impl DeepView for TailStart {
    type V = TailStartView;

    open spec fn deep_view(&self) -> TailStartView {
        TailStartView {
            run_id: self.run_id@,
            events_path: self.events_path@,
            agent_stream_path: self.agent_stream_path@,
        }
    }
}

/// The files that a tool call's workflow run will write. There are some where the
/// tool runs shell commands, no progress is attached yet, and the command is a
/// fresh launch with an explicit run id: without one the directory is not known.
pub open spec fn files_to_tail(tc: ToolCallView, cwd: Seq<char>) -> Option<TailStartView> {
    if !tc.executes || tc.workflow_progress is Some || cwd.len() == 0 {
        None
    } else {
        match command_in(tc) {
            Some(command) => match run_target_of(command, cwd) {
                Some(target) => match target.run_id {
                    Some(run_id) => Some(
                        TailStartView {
                            run_id,
                            events_path: path_join(target.run_dir, "events.jsonl"@),
                            agent_stream_path: path_join(target.run_dir, "agent_stream.jsonl"@),
                        },
                    ),
                    None => None,
                },
                None => None,
            },
            None => None,
        }
    }
}

/// The application once a new tool call was looked at, and the files to tail.
pub open spec fn tail_started(app: AppView, id: Seq<char>, stop: u64) -> (
    AppView,
    Option<TailStartView>,
) {
    match tool_call_at(app, id) {
        Some((message, block, tc)) => match files_to_tail(tc, app.cwd_raw) {
            Some(files) => (
                with_tool_call(
                    app,
                    message as int,
                    block as int,
                    ToolCallView {
                        workflow_progress: Some(fresh_progress(stop)),
                        render_dirty: true,
                        ..tc
                    },
                ),
                Some(files),
            ),
            None => (app, None),
        },
        None => (app, None),
    }
}

/// [`files_to_tail`]: the files that a tool call's workflow run will write.
pub fn tail_files(tc: &ToolCallInfo, cwd: &str) -> (r: Option<TailStart>)
    ensures
        r.deep_view() == files_to_tail(tc.deep_view(), cwd@),
{
    if !tc.executes || tc.workflow_progress.is_some() || cwd.is_empty() {
        return None;
    }
    match command_of(tc) {
        Some(command) => match extract_run_target(command.as_str(), cwd) {
            Some(target) => match &target.run_id {
                Some(run_id) => Some(
                    TailStart {
                        run_id: run_id.clone(),
                        events_path: target.events_path(),
                        agent_stream_path: target.agent_stream_path(),
                    },
                ),
                None => None,
            },
            None => None,
        },
        None => None,
    }
}

/// Looks at a new tool call. Where its command is a fresh workflow launch with a
/// run id, attaches progress state whose stop signal has the number `stop`, and
/// returns the files to tail.
pub fn maybe_start_workflow_tail(app: &mut App, tool_call_id: &str, stop: u64) -> (r: Option<
    TailStart,
>)
    ensures
        (final(app).deep_view(), r.deep_view()) == tail_started(
            old(app).deep_view(),
            tool_call_id@,
            stop,
        ),
{
    let ghost before = app.deep_view();
    let (message, block) = match app.lookup_tool_call(tool_call_id) {
        Some(place) => place,
        None => {
            return None;
        },
    };
    let files = match app.tool_call_at(message, block) {
        Some(tc) => tail_files(tc, app.cwd_raw.as_str()),
        None => {
            return None;
        },
    };
    if files.is_none() {
        return None;
    }
    assert(before.messages[message as int] == app.messages@[message as int].blocks.deep_view());
    assert(before.messages[message as int][block as int]
        == app.messages@[message as int].blocks@[block as int].deep_view());
    match &mut app.messages[message].blocks[block] {
        MessageBlock::ToolCall(tc) => {
            tc.workflow_progress = Some(WorkflowProgressState::new(stop));
            tc.render_dirty = true;
        },
        MessageBlock::Text(_) => {},
    }
    proof {
        let after = app.messages@[message as int].blocks;
        assert(after.deep_view() =~= before.messages[message as int].update(
            block as int,
            after@[block as int].deep_view(),
        ));
        assert(app.messages.deep_view() =~= before.messages.update(
            message as int,
            after.deep_view(),
        ));
    }
    files
}

proof fn tools_change_exactly_when_told(tools: Seq<ToolRowView>, event: SubagentView)
    ensures
        updated_tools(tools, event).1 <==> updated_tools(tools, event).0 != tools,
{
    tool_row_is_first(tools, event.tool_call_id);
    let at = tool_row(tools, event.tool_call_id);
    let next = updated_tools(tools, event).0;
    if at == tools.len() {
        assert(next.len() == tools.len() + 1);
    } else if event.phase == SubagentPhase::ToolUse && tools[at].name != event.name {
        assert(next[at].name == event.name);
    }
}

/// A subagent event is said to have changed something exactly where the state is
/// another one.
pub proof fn unchanged_by_subagent(state: ProgressStateView, event: SubagentView)
    ensures
        updated_by_subagent(state, event).1 <==> updated_by_subagent(state, event).0 != state,
{
    let at = action_row(state.actions, event.action_id);
    action_row_is_first(state.actions, event.action_id);
    if at < state.actions.len() {
        let row = state.actions[at];
        let next = updated_by_subagent(state, event).0;
        tools_change_exactly_when_told(row.subagent_tools, event);
        assert(next.actions[at].subagent_tools == updated_tools(row.subagent_tools, event).0);
        if updated_tools(row.subagent_tools, event).0 == row.subagent_tools {
            assert(next.actions =~= state.actions);
        }
    }
}

/// An update is said to have changed something exactly where the state is another
/// one.
pub proof fn unchanged_by_update(state: ProgressStateView, update: ProgressView)
    ensures
        updated(state, update).1 <==> updated(state, update).0 != state,
{
    match update {
        ProgressView::ActionStarted { action_id, .. } => {
            action_row_is_first(state.actions, action_id);
            if action_row(state.actions, action_id) == state.actions.len() {
                assert(updated(state, update).0.actions.len() == state.actions.len() + 1);
            }
        },
        _ => {},
    }
}

/// What is delivered once more as it was changes nothing: an end of a workflow, a
/// completion, a start.
pub proof fn redelivered_update_is_ignored(state: ProgressStateView, update: ProgressView)
    ensures
        updated(updated(state, update).0, update) == (updated(state, update).0, false),
{
    match update {
        ProgressView::ActionCompleted { action_id, status, outcome, detail } => {
            action_row_is_first(state.actions, action_id);
            let at = action_row(state.actions, action_id);
            let mid = updated(state, update).0;
            action_row_is_first(mid.actions, action_id);
            assert(mid.actions[at].action_id == action_id);
            assert(forall|j: int|
                0 <= j < at ==> (#[trigger] mid.actions[j]).action_id
                    == state.actions[j].action_id);
            assert(action_row(mid.actions, action_id) == at);
            assert(updated(mid, update).0.actions =~= mid.actions);
        },
        ProgressView::Finalized { .. } => {},
        _ => {
            redelivered_start_is_ignored(state, update);
        },
    }
}

/// A result of a tool call that is delivered once more as it was changes nothing.
pub proof fn redelivered_result_is_ignored(state: ProgressStateView, event: SubagentView)
    requires
        event.phase == SubagentPhase::ToolResult,
    ensures
        updated_by_subagent(updated_by_subagent(state, event).0, event) == (
            updated_by_subagent(state, event).0,
            false,
        ),
{
    action_row_is_first(state.actions, event.action_id);
    let at = action_row(state.actions, event.action_id);
    if at < state.actions.len() {
        let mid = updated_by_subagent(state, event).0;
        action_row_is_first(mid.actions, event.action_id);
        assert(mid.actions[at].action_id == event.action_id);
        assert(forall|j: int|
            0 <= j < at ==> (#[trigger] mid.actions[j]).action_id == state.actions[j].action_id);
        assert(action_row(mid.actions, event.action_id) == at);
        let id = event.tool_call_id;
        let tools = state.actions[at].subagent_tools;
        let once = updated_tools(tools, event).0;
        assert(mid.actions[at].subagent_tools == once);
        tool_row_is_first(tools, id);
        tool_row_is_first(once, id);
        let k = tool_row(tools, id);
        assert(once[k].tool_call_id == id);
        assert(forall|j: int|
            0 <= j < k ==> (#[trigger] once[j]).tool_call_id == tools[j].tool_call_id);
        assert(tool_row(once, id) == k);
        assert(updated_tools(once, event).0 =~= once);
        assert(updated_by_subagent(mid, event).0.actions =~= mid.actions);
    }
}

/// Whether no two actions have the same id and no two tool rows of an action do.
pub open spec fn rows_are_unique(state: ProgressStateView) -> bool {
    &&& forall|i: int, j: int|
        0 <= i < j < state.actions.len() ==> (#[trigger] state.actions[i]).action_id != (
        #[trigger] state.actions[j]).action_id
    &&& forall|i: int| 0 <= i < state.actions.len() ==> tools_are_unique(
        (#[trigger] state.actions[i]).subagent_tools,
    )
}

/// Whether no two tool rows have the same id.
pub open spec fn tools_are_unique(tools: Seq<ToolRowView>) -> bool {
    forall|i: int, j: int|
        0 <= i < j < tools.len() ==> (#[trigger] tools[i]).tool_call_id != (
        #[trigger] tools[j]).tool_call_id
}

/// Progress starts without rows, so that no two have the same id.
pub proof fn fresh_rows_are_unique(stop: u64)
    ensures
        rows_are_unique(fresh_progress(stop)),
{
}

/// Every update keeps one row per action and one row per tool call.
pub proof fn updates_keep_rows_unique(state: ProgressStateView, update: ProgressView)
    requires
        rows_are_unique(state),
    ensures
        rows_are_unique(updated(state, update).0),
{
    match update {
        ProgressView::ActionStarted { action_id, .. } => {
            action_row_is_first(state.actions, action_id);
        },
        ProgressView::ActionCompleted { action_id, .. } => {
            action_row_is_first(state.actions, action_id);
        },
        _ => {},
    }
}

/// Every subagent event keeps one row per action and one row per tool call.
pub proof fn subagent_events_keep_rows_unique(state: ProgressStateView, event: SubagentView)
    requires
        rows_are_unique(state),
    ensures
        rows_are_unique(updated_by_subagent(state, event).0),
{
    action_row_is_first(state.actions, event.action_id);
    let at = action_row(state.actions, event.action_id);
    if at < state.actions.len() {
        let tools = state.actions[at].subagent_tools;
        tool_row_is_first(tools, event.tool_call_id);
        assert(tools_are_unique(tools));
        assert(tools_are_unique(updated_tools(tools, event).0));
    }
}

/// Rows keep their places: an update changes no action's id and drops no row.
pub proof fn updates_keep_rows_in_place(state: ProgressStateView, update: ProgressView, i: int)
    requires
        0 <= i < state.actions.len(),
    ensures
        i < updated(state, update).0.actions.len(),
        updated(state, update).0.actions[i].action_id == state.actions[i].action_id,
        updated(state, update).0.actions[i].subagent_tools == state.actions[i].subagent_tools,
{
    match update {
        ProgressView::ActionCompleted { action_id, .. } => {
            action_row_is_first(state.actions, action_id);
        },
        _ => {},
    }
}

proof fn pushed_row_is_found(actions: Seq<ActionRowView>, row: ActionRowView)
    ensures
        action_row(actions.push(row), row.action_id) < actions.push(row).len(),
{
    let all = actions.push(row);
    action_row_is_first(all, row.action_id);
    if action_row(all, row.action_id) == all.len() {
        assert(all[actions.len() as int].action_id != row.action_id);
    }
}

/// A start that is delivered again is a no-op, whether of the run or of an action.
pub proof fn redelivered_start_is_ignored(state: ProgressStateView, update: ProgressView)
    requires
        update is Started || update is ActionStarted,
    ensures
        updated(updated(state, update).0, update) == (updated(state, update).0, false),
{
    match update {
        ProgressView::ActionStarted { action_id, kind, name, detail } => {
            action_row_is_first(state.actions, action_id);
            let row = ActionRowView {
                action_id,
                kind,
                name,
                detail,
                completed: None,
                subagent_tools: Seq::empty(),
            };
            pushed_row_is_found(state.actions, row);
        },
        _ => {},
    }
}

/// The completion of an action that has a row updates that row in place: no row
/// is added, and its kind and name stay.
pub proof fn completion_updates_in_place(
    state: ProgressStateView,
    action_id: Seq<char>,
    status: ActionStatus,
    outcome: Seq<char>,
    detail: Option<Seq<char>>,
)
    requires
        action_row(state.actions, action_id) < state.actions.len(),
    ensures
        ({
            let update = ProgressView::ActionCompleted { action_id, status, outcome, detail };
            let next = updated(state, update).0.actions;
            let at = action_row(state.actions, action_id);
            &&& next.len() == state.actions.len()
            &&& next[at].action_id == action_id
            &&& next[at].kind == state.actions[at].kind
            &&& next[at].name == state.actions[at].name
            &&& next[at].completed == Some(CompletionView { status: shown_status(status), outcome })
            &&& forall|j: int| 0 <= j < next.len() && j != at ==> next[j] == state.actions[j]
        }),
{
    action_row_is_first(state.actions, action_id);
}

/// The completion of an action whose start was missed gets a row of its own, so
/// that the outcome is still seen.
pub proof fn missed_start_gets_a_row(
    state: ProgressStateView,
    action_id: Seq<char>,
    status: ActionStatus,
    outcome: Seq<char>,
    detail: Option<Seq<char>>,
)
    requires
        action_row(state.actions, action_id) == state.actions.len(),
    ensures
        ({
            let update = ProgressView::ActionCompleted { action_id, status, outcome, detail };
            let next = updated(state, update).0.actions;
            &&& next.drop_last() == state.actions
            &&& next.last().action_id == action_id
            &&& next.last().completed == Some(
                CompletionView { status: shown_status(status), outcome },
            )
        }),
{
    let update = ProgressView::ActionCompleted { action_id, status, outcome, detail };
    assert(updated(state, update).0.actions.drop_last() =~= state.actions);
}

/// A subagent event of an action that has no row is dropped.
pub proof fn events_of_unknown_actions_are_dropped(state: ProgressStateView, event: SubagentView)
    requires
        forall|i: int|
            0 <= i < state.actions.len() ==> (#[trigger] state.actions[i]).action_id
                != event.action_id,
    ensures
        updated_by_subagent(state, event) == (state, false),
{
    action_row_is_first(state.actions, event.action_id);
}

/// The end of a workflow uses up the stop signal, and the application is told to
/// fire it where it was not used up before.
pub proof fn finalize_stops_the_tail(
    app: AppView,
    id: Seq<char>,
    kind: FinalizeKind,
    summary: Seq<char>,
)
    requires
        tool_call_at(app, id) matches Some(found) && found.2.workflow_progress is Some,
    ensures
        ({
            let update = ProgressView::Finalized { kind, summary };
            let found = tool_call_at(app, id)->0;
            let held = found.2.workflow_progress->0;
            &&& updated(held, update).0.stop is None
            &&& held.stop is Some ==> (progress_applied(app, id, update).1 matches Some(redraw)
                && redraw.stop == held.stop)
        }),
{
}

/// The start and the end of a tool call make one completed row, whatever came
/// before them.
pub proof fn use_and_result_make_one_row(
    tools: Seq<ToolRowView>,
    started: SubagentView,
    ended: SubagentView,
)
    requires
        started.phase == SubagentPhase::ToolUse,
        ended.phase == SubagentPhase::ToolResult,
        started.tool_call_id == ended.tool_call_id,
    ensures
        ({
            let id = started.tool_call_id;
            let after = updated_tools(updated_tools(tools, started).0, ended).0;
            let at = tool_row(after, id);
            &&& at < after.len()
            &&& after[at].completed
            &&& after[at].name == started.name
            &&& after[at].status == ended.status
            &&& after.len() <= tools.len() + 1
            &&& tool_row(tools, id) < tools.len() ==> after.len() == tools.len()
        }),
{
    let id = started.tool_call_id;
    tool_row_is_first(tools, id);
    let mid = updated_tools(tools, started).0;
    tool_row_is_first(mid, id);
    let at = tool_row(tools, id);
    assert(mid[at].tool_call_id == id);
    assert(forall|j: int| 0 <= j < at ==> (#[trigger] mid[j]).tool_call_id == tools[j].tool_call_id);
    assert(tool_row(mid, id) == at);
    let after = updated_tools(mid, ended).0;
    tool_row_is_first(after, id);
    assert(after[at].tool_call_id == id);
    assert(forall|j: int| 0 <= j < at ==> (#[trigger] after[j]).tool_call_id
        == tools[j].tool_call_id);
    assert(tool_row(after, id) == at);
}

/// A tool call gets at most one tail: once progress is attached, looking at the
/// tool call again starts nothing.
pub proof fn tail_starts_once(app: AppView, id: Seq<char>, stop: u64, again: u64)
    requires
        tail_started(app, id, stop).1 is Some,
    ensures
        tail_started(tail_started(app, id, stop).0, id, again) == (
            tail_started(app, id, stop).0,
            None::<TailStartView>,
        ),
{
}

/// Whether an action has no row.
pub open spec fn has_no_row(state: ProgressStateView, action_id: Seq<char>) -> bool {
    forall|i: int|
        0 <= i < state.actions.len() ==> (#[trigger] state.actions[i]).action_id != action_id
}

/// Whether two states are the same but for their rows.
pub open spec fn same_but_for_rows(a: ProgressStateView, b: ProgressStateView) -> bool {
    &&& a.workflow == b.workflow
    &&& a.params == b.params
    &&& a.verbose == b.verbose
    &&& a.finalized == b.finalized
    &&& a.stop == b.stop
}

/// When an action starts that has no row, the rows before it stay as they are and one row is
/// added at the end: with the id, the kind, the name and the detail of the update, not
/// completed and without tool rows. Nothing else changes.
pub proof fn a_started_action_gets_its_row(
    state: ProgressStateView,
    action_id: Seq<char>,
    kind: Seq<char>,
    name: Seq<char>,
    detail: Option<Seq<char>>,
)
    requires
        has_no_row(state, action_id),
    ensures
        ({
            let (next, changed) = updated(
                state,
                ProgressView::ActionStarted { action_id, kind, name, detail },
            );
            let n = state.actions.len() as int;
            &&& changed
            &&& same_but_for_rows(next, state)
            &&& next.actions.len() == n + 1
            &&& forall|i: int| 0 <= i < n ==> #[trigger] next.actions[i] == state.actions[i]
            &&& next.actions[n].action_id == action_id
            &&& next.actions[n].kind == kind
            &&& next.actions[n].name == name
            &&& next.actions[n].detail == detail
            &&& next.actions[n].completed is None
            &&& next.actions[n].subagent_tools.len() == 0
        }),
{
    action_row_is_first(state.actions, action_id);
}

/// When an action starts that has a row, nothing changes.
pub proof fn a_known_action_starts_once(
    state: ProgressStateView,
    action_id: Seq<char>,
    kind: Seq<char>,
    name: Seq<char>,
    detail: Option<Seq<char>>,
)
    requires
        !has_no_row(state, action_id),
    ensures
        updated(state, ProgressView::ActionStarted { action_id, kind, name, detail }) == (
            state,
            false,
        ),
{
    action_row_is_first(state.actions, action_id);
}

/// When an action ends, the first row with its id bears the status and the outcome of the
/// update, and its detail where the row had none; the id, the kind, the name and the tool rows
/// of the row stay, and so do all other rows. Where it had no row, one is added at the end
/// that bears no kind and no name. Nothing else changes.
pub proof fn an_ended_action_bears_its_outcome(
    state: ProgressStateView,
    at: int,
    action_id: Seq<char>,
    status: ActionStatus,
    outcome: Seq<char>,
    detail: Option<Seq<char>>,
)
    requires
        0 <= at <= state.actions.len(),
        forall|i: int| 0 <= i < at ==> (#[trigger] state.actions[i]).action_id != action_id,
        at < state.actions.len() ==> state.actions[at].action_id == action_id,
    ensures
        ({
            let next = updated(
                state,
                ProgressView::ActionCompleted { action_id, status, outcome, detail },
            ).0;
            let row = next.actions[at];
            let shown = match status {
                ActionStatus::Success => WorkflowActionStatus::Success,
                ActionStatus::Retry => WorkflowActionStatus::Retry,
                ActionStatus::Fail => WorkflowActionStatus::Fail,
            };
            &&& same_but_for_rows(next, state)
            &&& next.actions.len() == if at < state.actions.len() {
                state.actions.len()
            } else {
                state.actions.len() + 1
            }
            &&& forall|i: int|
                0 <= i < state.actions.len() && i != at ==> #[trigger] next.actions[i]
                    == state.actions[i]
            &&& row.action_id == action_id
            &&& row.completed is Some
            &&& row.completed->0.status == shown
            &&& row.completed->0.outcome == outcome
            &&& if at < state.actions.len() {
                let held = state.actions[at];
                &&& row.kind == held.kind
                &&& row.name == held.name
                &&& row.subagent_tools == held.subagent_tools
                &&& row.detail == if held.detail is Some {
                    held.detail
                } else {
                    detail
                }
            } else {
                &&& row.kind.len() == 0
                &&& row.name.len() == 0
                &&& row.subagent_tools.len() == 0
                &&& row.detail == detail
            }
        }),
{
    action_row_is_first(state.actions, action_id);
    let found = action_row(state.actions, action_id);
    if found < at {
        assert(state.actions[found].action_id != action_id);
    }
    if at < found {
        assert(state.actions[at].action_id != action_id);
    }
}

/// The start of a run sets the header: the workflow where it has a name, the parameters and
/// the flag. The rows, the end and the stop signal stay.
pub proof fn a_started_run_sets_the_header(
    state: ProgressStateView,
    workflow: Seq<char>,
    params: Seq<(Seq<char>, Seq<char>)>,
    verbose: bool,
)
    ensures
        ({
            let next = updated(state, ProgressView::Started { workflow, params, verbose }).0;
            &&& next.workflow == if workflow.len() > 0 {
                Some(workflow)
            } else {
                None
            }
            &&& next.params == params
            &&& next.verbose == verbose
            &&& next.actions == state.actions
            &&& next.finalized == state.finalized
            &&& next.stop == state.stop
        }),
{
}

/// The end of a run is noted with its kind and its summary, and uses up the stop signal. The
/// header and the rows stay.
pub proof fn an_ended_run_is_noted(
    state: ProgressStateView,
    kind: FinalizeKind,
    summary: Seq<char>,
)
    ensures
        ({
            let next = updated(state, ProgressView::Finalized { kind, summary }).0;
            let shown = match kind {
                FinalizeKind::Done => WorkflowFinalizeKind::Done,
                FinalizeKind::Aborted => WorkflowFinalizeKind::Aborted,
                FinalizeKind::Escalated => WorkflowFinalizeKind::Escalated,
            };
            &&& next.finalized is Some
            &&& next.finalized->0.kind == shown
            &&& next.finalized->0.summary == summary
            &&& next.stop is None
            &&& next.workflow == state.workflow
            &&& next.params == state.params
            &&& next.verbose == state.verbose
            &&& next.actions == state.actions
        }),
{
}

/// A subagent event changes the tool rows of the first row of its action, and nothing else.
pub proof fn a_subagent_event_stays_with_its_action(
    state: ProgressStateView,
    event: SubagentView,
    at: int,
)
    requires
        0 <= at < state.actions.len(),
        state.actions[at].action_id == event.action_id,
        forall|i: int| 0 <= i < at ==> (#[trigger] state.actions[i]).action_id != event.action_id,
    ensures
        ({
            let next = updated_by_subagent(state, event).0;
            let (row, held) = (next.actions[at], state.actions[at]);
            &&& same_but_for_rows(next, state)
            &&& next.actions.len() == state.actions.len()
            &&& forall|i: int|
                0 <= i < state.actions.len() && i != at ==> #[trigger] next.actions[i]
                    == state.actions[i]
            &&& row.action_id == held.action_id
            &&& row.kind == held.kind
            &&& row.name == held.name
            &&& row.detail == held.detail
            &&& row.completed == held.completed
            &&& row.subagent_tools == updated_tools(held.subagent_tools, event).0
        }),
{
    action_row_is_first(state.actions, event.action_id);
    let found = action_row(state.actions, event.action_id);
    if found < at {
        assert(state.actions[found].action_id != event.action_id);
    }
    if at < found {
        assert(state.actions[at].action_id != event.action_id);
    }
}

/// A tool call that has no row gets one at the end, with its id, its name and its detail: an
/// open one at its start, and one with its status at its end where the start was missed. The
/// other rows stay.
pub proof fn a_new_tool_call_gets_its_row(tools: Seq<ToolRowView>, event: SubagentView)
    requires
        forall|i: int|
            0 <= i < tools.len() ==> (#[trigger] tools[i]).tool_call_id != event.tool_call_id,
    ensures
        ({
            let (next, changed) = updated_tools(tools, event);
            let n = tools.len() as int;
            &&& changed
            &&& next.len() == n + 1
            &&& forall|i: int| 0 <= i < n ==> #[trigger] next[i] == tools[i]
            &&& next[n].tool_call_id == event.tool_call_id
            &&& next[n].name == event.name
            &&& next[n].detail == event.detail
            &&& event.phase == SubagentPhase::ToolUse ==> !next[n].completed && next[n].status
                is None
            &&& event.phase == SubagentPhase::ToolResult ==> next[n].completed && next[n].status
                == event.status
        }),
{
    tool_row_is_first(tools, event.tool_call_id);
}

/// A tool call that has a row keeps it in its place. Its end completes the row with its
/// status and leaves the name and the detail. Its start leaves the row as it is where the name
/// is the same, and else starts the row over with the new name and detail. The other rows stay.
pub proof fn a_known_tool_call_keeps_its_row(
    tools: Seq<ToolRowView>,
    event: SubagentView,
    at: int,
)
    requires
        0 <= at < tools.len(),
        tools[at].tool_call_id == event.tool_call_id,
        forall|i: int| 0 <= i < at ==> (#[trigger] tools[i]).tool_call_id != event.tool_call_id,
    ensures
        ({
            let next = updated_tools(tools, event).0;
            let (row, held) = (next[at], tools[at]);
            &&& next.len() == tools.len()
            &&& forall|i: int| 0 <= i < tools.len() && i != at ==> #[trigger] next[i] == tools[i]
            &&& row.tool_call_id == held.tool_call_id
            &&& event.phase == SubagentPhase::ToolResult ==> {
                &&& row.completed
                &&& row.status == event.status
                &&& row.name == held.name
                &&& row.detail == held.detail
            }
            &&& event.phase == SubagentPhase::ToolUse && event.name == held.name ==> row == held
            &&& event.phase == SubagentPhase::ToolUse && event.name != held.name ==> {
                &&& !row.completed
                &&& row.status is None
                &&& row.name == event.name
                &&& row.detail == event.detail
            }
        }),
{
    tool_row_is_first(tools, event.tool_call_id);
    let found = tool_row(tools, event.tool_call_id);
    if found < at {
        assert(tools[found].tool_call_id != event.tool_call_id);
    }
    if at < found {
        assert(tools[at].tool_call_id != event.tool_call_id);
    }
}

/// Whether nothing but one tool call differs between two conversations.
pub open spec fn differs_at_most_at(a: AppView, b: AppView, message: int, block: int) -> bool {
    &&& a.cwd_raw == b.cwd_raw
    &&& a.tool_call_index == b.tool_call_index
    &&& a.messages.len() == b.messages.len()
    &&& forall|m: int|
        0 <= m < a.messages.len() && m != message ==> #[trigger] a.messages[m] == b.messages[m]
    &&& a.messages[message].len() == b.messages[message].len()
    &&& forall|k: int|
        0 <= k < a.messages[message].len() && k != block ==> #[trigger] a.messages[message][k]
            == b.messages[message][k]
}

/// An update goes onto the progress of the tool call that it is meant for, whose layout is
/// then out of date, and the caller is told which block to draw again. Nothing else in the
/// conversation changes, and nothing at all where the update changes nothing.
pub proof fn updates_go_onto_their_tool_call(app: AppView, id: Seq<char>, update: ProgressView)
    requires
        tool_call_at(app, id) matches Some(found) && found.2.workflow_progress is Some,
    ensures
        ({
            let (message, block, tc) = tool_call_at(app, id)->0;
            let held = tc.workflow_progress->0;
            let (next, redraw) = progress_applied(app, id, update);
            let (state, changed) = updated(held, update);
            &&& !changed ==> next == app && redraw is None
            &&& changed ==> {
                &&& redraw is Some
                &&& redraw->0.message == message
                &&& redraw->0.block == block
                &&& update is Finalized ==> redraw->0.stop == held.stop
                &&& !(update is Finalized) && held.stop is Some ==> redraw->0.stop is None
                &&& differs_at_most_at(next, app, message as int, block as int)
                &&& next.messages[message as int][block as int] == BlockView::ToolCall(
                    ToolCallView { workflow_progress: Some(state), layout_dirty: true, ..tc },
                )
            }
        }),
{
}

/// A subagent event goes onto the progress of the tool call that it is meant for in the same
/// way, and uses no stop signal up.
pub proof fn subagent_events_go_onto_their_tool_call(
    app: AppView,
    id: Seq<char>,
    event: SubagentView,
)
    requires
        tool_call_at(app, id) matches Some(found) && found.2.workflow_progress is Some,
    ensures
        ({
            let (message, block, tc) = tool_call_at(app, id)->0;
            let held = tc.workflow_progress->0;
            let (next, redraw) = subagent_event_applied(app, id, event);
            let (state, changed) = updated_by_subagent(held, event);
            &&& !changed ==> next == app && redraw is None
            &&& changed ==> {
                &&& redraw is Some
                &&& redraw->0.message == message
                &&& redraw->0.block == block
                &&& redraw->0.stop is None
                &&& differs_at_most_at(next, app, message as int, block as int)
                &&& next.messages[message as int][block as int] == BlockView::ToolCall(
                    ToolCallView { workflow_progress: Some(state), layout_dirty: true, ..tc },
                )
            }
        }),
{
}

/// What is meant for a tool call that is not there, or that has no progress, changes nothing.
pub proof fn updates_without_progress_are_dropped(
    app: AppView,
    id: Seq<char>,
    update: ProgressView,
    event: SubagentView,
)
    requires
        !(tool_call_at(app, id) matches Some(found) && found.2.workflow_progress is Some),
    ensures
        progress_applied(app, id, update).0 == app,
        progress_applied(app, id, update).1 is None,
        subagent_event_applied(app, id, event).0 == app,
        subagent_event_applied(app, id, event).1 is None,
{
}

/// The shell command of a tool call is the one that its terminal ran, as it stands, unless
/// that is blank or missing; then it is the one in the input of the tool, unless that is.
pub proof fn terminals_know_the_command_best(tc: ToolCallView)
    ensures
        ({
            let says = |command: Option<Seq<char>>| command matches Some(c) && trim(c).len() > 0;
            let input = match tc.raw_input {
                Some(tree) => match get(tree, "command"@) {
                    Some(Tree::Text(command)) => Some(command),
                    _ => None,
                },
                None => None,
            };
            &&& says(tc.terminal_command) ==> command_in(tc) == tc.terminal_command
            &&& !says(tc.terminal_command) && says(input) ==> command_in(tc) == input
            &&& !says(tc.terminal_command) && !says(input) ==> command_in(tc) is None
        }),
{
}

/// A shell tool call whose command is a fresh launch with a run id, and that has no progress
/// yet, gets fresh progress with the stop signal, and the two files in the directory of the run
/// are tailed. Nothing else in the conversation changes.
pub proof fn launches_are_tailed(
    app: AppView,
    id: Seq<char>,
    stop: u64,
    command: Seq<char>,
    run_id: Seq<char>,
)
    requires
        tool_call_at(app, id) matches Some(found) && {
            &&& found.2.executes
            &&& found.2.workflow_progress is None
            &&& command_in(found.2) == Some(command)
        },
        app.cwd_raw.len() > 0,
        run_target_of(command, app.cwd_raw) matches Some(target) && target.run_id == Some(run_id),
    ensures
        ({
            let (message, block, tc) = tool_call_at(app, id)->0;
            let dir = run_target_of(command, app.cwd_raw)->0.run_dir;
            let (next, files) = tail_started(app, id, stop);
            &&& files is Some
            &&& files->0.run_id == run_id
            &&& files->0.events_path == path_join(dir, "events.jsonl"@)
            &&& files->0.agent_stream_path == path_join(dir, "agent_stream.jsonl"@)
            &&& differs_at_most_at(next, app, message as int, block as int)
            &&& next.messages[message as int][block as int] matches BlockView::ToolCall(after) && {
                &&& after.workflow_progress matches Some(state) && {
                    &&& state.stop == Some(stop)
                    &&& state.workflow is None
                    &&& state.params.len() == 0
                    &&& !state.verbose
                    &&& state.actions.len() == 0
                    &&& state.finalized is None
                }
                &&& after.render_dirty
                &&& after == ToolCallView {
                    workflow_progress: after.workflow_progress,
                    render_dirty: true,
                    ..tc
                }
            }
        }),
{
}

/// Any other tool call is left alone: one that runs no shell commands, one that has progress,
/// one without a command, one whose command is no launch with a run id, and every one where the
/// working directory is not known.
pub proof fn other_tool_calls_are_left_alone(app: AppView, id: Seq<char>, stop: u64)
    requires
        match tool_call_at(app, id) {
            Some(found) => {
                ||| !found.2.executes
                ||| found.2.workflow_progress is Some
                ||| app.cwd_raw.len() == 0
                ||| command_in(found.2) is None
                ||| run_target_of(command_in(found.2)->0, app.cwd_raw) is None
                ||| run_target_of(command_in(found.2)->0, app.cwd_raw)->0.run_id is None
            },
            None => true,
        },
    ensures
        tail_started(app, id, stop).0 == app,
        tail_started(app, id, stop).1 is None,
{
}

} // verus!

//! What the application knows of a conversation, as far as tool calls and the
//! workflow runs behind them go.

pub mod events;

use crate::json::{Json, Tree};
use crate::text::same;
use vstd::prelude::*;

verus! {

/// Class of a completed action, used for colouring.
#[derive(Debug, Clone, Copy, PartialEq, Eq)]
pub enum WorkflowActionStatus {
    Success,
    Retry,
    Fail,
}

/// Class of a workflow's end, used for colouring.
#[derive(Debug, Clone, Copy, PartialEq, Eq)]
pub enum WorkflowFinalizeKind {
    Done,
    Aborted,
    Escalated,
}

/// How an action ended.
#[derive(Debug, PartialEq, Eq)]
pub struct WorkflowActionCompletion {
    pub status: WorkflowActionStatus,
    pub outcome: String,
}

/// A tool call of a subagent, nested under an action.
#[derive(Debug, PartialEq, Eq)]
pub struct WorkflowSubagentToolRow {
    pub tool_call_id: String,
    pub name: String,
    pub detail: Option<String>,
    pub completed: bool,
    pub status: Option<String>,
}

/// An action of a workflow run.
#[derive(Debug, PartialEq, Eq)]
pub struct WorkflowActionRow {
    pub action_id: String,
    pub kind: String,
    pub name: String,
    pub detail: Option<String>,
    pub completed: Option<WorkflowActionCompletion>,
    pub subagent_tools: Vec<WorkflowSubagentToolRow>,
}

/// How a workflow run ended.
#[derive(Debug, PartialEq, Eq)]
pub struct WorkflowFinalizeRow {
    pub kind: WorkflowFinalizeKind,
    pub summary: String,
}

/// The live progress of the workflow run that a shell tool call launched.
#[derive(Debug, PartialEq, Eq)]
pub struct WorkflowProgressState {
    pub workflow: Option<String>,
    pub params: Vec<(String, String)>,
    pub verbose: bool,
    pub actions: Vec<WorkflowActionRow>,
    pub finalized: Option<WorkflowFinalizeRow>,
    /// The number of the signal that stops the tail tasks, until it is used up.
    pub stop: Option<u64>,
}

/// State of a tool call.
#[derive(Debug, Clone, Copy, PartialEq, Eq)]
pub enum ToolCallStatus {
    Pending,
    InProgress,
    Completed,
    Failed,
    Killed,
}

/// A tool call, as far as it matters for workflow runs.
#[derive(Debug, PartialEq, Eq)]
pub struct ToolCallInfo {
    pub id: String,
    /// Whether the tool runs shell commands.
    pub executes: bool,
    pub status: ToolCallStatus,
    pub raw_input: Option<Json>,
    pub terminal_command: Option<String>,
    pub terminal_output: Option<String>,
    pub workflow_progress: Option<WorkflowProgressState>,
    /// Whether the rendered form is out of date.
    pub render_dirty: bool,
    /// Whether the layout is out of date.
    pub layout_dirty: bool,
}

/// A part of a message.
#[derive(Debug, PartialEq, Eq)]
pub enum MessageBlock {
    Text(String),
    ToolCall(ToolCallInfo),
}

/// A message of the conversation.
#[derive(Debug, PartialEq, Eq)]
pub struct ChatMessage {
    pub blocks: Vec<MessageBlock>,
}

/// Where a tool call stands in the conversation.
#[derive(Debug, PartialEq, Eq)]
pub struct ToolCallPlace {
    pub id: String,
    pub message: usize,
    pub block: usize,
}

/// The conversation.
#[derive(Debug, PartialEq, Eq)]
pub struct App {
    /// The working directory that shell commands run in.
    pub cwd_raw: String,
    pub messages: Vec<ChatMessage>,
    /// Where the tool calls stand. An entry may be out of date.
    pub tool_call_index: Vec<ToolCallPlace>,
}

/// The content of a [`WorkflowActionCompletion`].
pub struct CompletionView {
    pub status: WorkflowActionStatus,
    pub outcome: Seq<char>,
}

/// The content of a [`WorkflowSubagentToolRow`].
pub struct ToolRowView {
    pub tool_call_id: Seq<char>,
    pub name: Seq<char>,
    pub detail: Option<Seq<char>>,
    pub completed: bool,
    pub status: Option<Seq<char>>,
}

/// The content of a [`WorkflowActionRow`].
pub struct ActionRowView {
    pub action_id: Seq<char>,
    pub kind: Seq<char>,
    pub name: Seq<char>,
    pub detail: Option<Seq<char>>,
    pub completed: Option<CompletionView>,
    pub subagent_tools: Seq<ToolRowView>,
}

/// The content of a [`WorkflowFinalizeRow`].
pub struct FinalizeView {
    pub kind: WorkflowFinalizeKind,
    pub summary: Seq<char>,
}

/// The content of a [`WorkflowProgressState`].
pub struct ProgressStateView {
    pub workflow: Option<Seq<char>>,
    pub params: Seq<(Seq<char>, Seq<char>)>,
    pub verbose: bool,
    pub actions: Seq<ActionRowView>,
    pub finalized: Option<FinalizeView>,
    pub stop: Option<u64>,
}

/// The content of a [`ToolCallInfo`].
pub struct ToolCallView {
    pub id: Seq<char>,
    pub executes: bool,
    pub status: ToolCallStatus,
    pub raw_input: Option<Tree>,
    pub terminal_command: Option<Seq<char>>,
    pub terminal_output: Option<Seq<char>>,
    pub workflow_progress: Option<ProgressStateView>,
    pub render_dirty: bool,
    pub layout_dirty: bool,
}

/// The content of a [`MessageBlock`].
pub enum BlockView {
    Text(Seq<char>),
    ToolCall(ToolCallView),
}

/// The content of a [`ToolCallPlace`].
pub struct PlaceView {
    pub id: Seq<char>,
    pub message: usize,
    pub block: usize,
}

/// The content of an [`App`]: the messages by their blocks.
pub struct AppView {
    pub cwd_raw: Seq<char>,
    pub messages: Seq<Seq<BlockView>>,
    pub tool_call_index: Seq<PlaceView>,
}

impl DeepView for WorkflowActionCompletion {
    type V = CompletionView;

    open spec fn deep_view(&self) -> CompletionView {
        CompletionView { status: self.status, outcome: self.outcome@ }
    }
}

impl DeepView for WorkflowSubagentToolRow {
    type V = ToolRowView;

    open spec fn deep_view(&self) -> ToolRowView {
        ToolRowView {
            tool_call_id: self.tool_call_id@,
            name: self.name@,
            detail: self.detail.deep_view(),
            completed: self.completed,
            status: self.status.deep_view(),
        }
    }
}

impl DeepView for WorkflowActionRow {
    type V = ActionRowView;

    open spec fn deep_view(&self) -> ActionRowView {
        ActionRowView {
            action_id: self.action_id@,
            kind: self.kind@,
            name: self.name@,
            detail: self.detail.deep_view(),
            completed: self.completed.deep_view(),
            subagent_tools: self.subagent_tools.deep_view(),
        }
    }
}

impl DeepView for WorkflowFinalizeRow {
    type V = FinalizeView;

    open spec fn deep_view(&self) -> FinalizeView {
        FinalizeView { kind: self.kind, summary: self.summary@ }
    }
}

impl DeepView for WorkflowProgressState {
    type V = ProgressStateView;

    open spec fn deep_view(&self) -> ProgressStateView {
        ProgressStateView {
            workflow: self.workflow.deep_view(),
            params: self.params.deep_view(),
            verbose: self.verbose,
            actions: self.actions.deep_view(),
            finalized: self.finalized.deep_view(),
            stop: self.stop,
        }
    }
}

impl DeepView for ToolCallInfo {
    type V = ToolCallView;

    open spec fn deep_view(&self) -> ToolCallView {
        ToolCallView {
            id: self.id@,
            executes: self.executes,
            status: self.status,
            raw_input: self.raw_input.deep_view(),
            terminal_command: self.terminal_command.deep_view(),
            terminal_output: self.terminal_output.deep_view(),
            workflow_progress: self.workflow_progress.deep_view(),
            render_dirty: self.render_dirty,
            layout_dirty: self.layout_dirty,
        }
    }
}

impl DeepView for MessageBlock {
    type V = BlockView;

    open spec fn deep_view(&self) -> BlockView {
        match self {
            MessageBlock::Text(t) => BlockView::Text(t@),
            MessageBlock::ToolCall(tc) => BlockView::ToolCall(tc.deep_view()),
        }
    }
}

impl DeepView for ChatMessage {
    type V = Seq<BlockView>;

    open spec fn deep_view(&self) -> Seq<BlockView> {
        self.blocks.deep_view()
    }
}

impl DeepView for ToolCallPlace {
    type V = PlaceView;

    open spec fn deep_view(&self) -> PlaceView {
        PlaceView { id: self.id@, message: self.message, block: self.block }
    }
}

impl DeepView for App {
    type V = AppView;

    open spec fn deep_view(&self) -> AppView {
        AppView {
            cwd_raw: self.cwd_raw@,
            messages: self.messages.deep_view(),
            tool_call_index: self.tool_call_index.deep_view(),
        }
    }
}

/// Progress of which nothing is known yet, with its stop signal.
pub open spec fn fresh_progress(stop: u64) -> ProgressStateView {
    ProgressStateView {
        workflow: None,
        params: Seq::empty(),
        verbose: false,
        actions: Seq::empty(),
        finalized: None,
        stop: Some(stop),
    }
}

/// Whether there is anything to show: an event has left its trace.
pub open spec fn shows_something(state: ProgressStateView) -> bool {
    ||| state.workflow is Some
    ||| state.params.len() > 0
    ||| state.verbose
    ||| state.actions.len() > 0
    ||| state.finalized is Some
}

impl WorkflowProgressState {
    /// Progress of which nothing is known yet. `stop` is the number of the signal
    /// that stops its tail tasks.
    pub fn new(stop: u64) -> (r: WorkflowProgressState)
        ensures
            r.deep_view() == fresh_progress(stop),
    {
        let r = WorkflowProgressState {
            workflow: None,
            params: Vec::new(),
            verbose: false,
            actions: Vec::new(),
            finalized: None,
            stop: Some(stop),
        };
        assert(r.params.deep_view() =~= Seq::empty());
        assert(r.actions.deep_view() =~= Seq::empty());
        r
    }

    /// [`shows_something`]: whether at least one event has left its trace.
    pub fn has_content(&self) -> (r: bool)
        ensures
            r == shows_something(self.deep_view()),
    {
        self.workflow.is_some() || self.params.len() > 0 || self.verbose || self.actions.len() > 0
            || self.finalized.is_some()
    }

    /// Uses up the stop signal and hands its number out.
    pub fn stop_tail(&mut self) -> (r: Option<u64>)
        ensures
            r == old(self).deep_view().stop,
            final(self).deep_view() == (ProgressStateView { stop: None, ..old(self).deep_view() }),
    {
        let signal = self.stop;
        self.stop = None;
        signal
    }
}

/// Where the index says that a tool call stands: by its first entry.
pub open spec fn place_of(index: Seq<PlaceView>, id: Seq<char>) -> Option<(usize, usize)>
    decreases index.len(),
{
    if index.len() == 0 {
        None
    } else if index[0].id == id {
        Some((index[0].message, index[0].block))
    } else {
        place_of(index.drop_first(), id)
    }
}

/// The block at a place, if there is one.
pub open spec fn block_at(messages: Seq<Seq<BlockView>>, message: int, block: int) -> Option<
    BlockView,
> {
    if 0 <= message < messages.len() && 0 <= block < messages[message].len() {
        Some(messages[message][block])
    } else {
        None
    }
}

/// The tool call with an id, where the index and the messages agree on it.
pub open spec fn tool_call_at(app: AppView, id: Seq<char>) -> Option<(usize, usize, ToolCallView)> {
    match place_of(app.tool_call_index, id) {
        Some((message, block)) => match block_at(app.messages, message as int, block as int) {
            Some(BlockView::ToolCall(tc)) => Some((message, block, tc)),
            _ => None,
        },
        None => None,
    }
}

/// The application with another tool call at a place.
pub open spec fn with_tool_call(app: AppView, message: int, block: int, tc: ToolCallView) -> AppView {
    AppView {
        messages: app.messages.update(
            message,
            app.messages[message].update(block, BlockView::ToolCall(tc)),
        ),
        ..app
    }
}

impl App {
    /// [`place_of`]: where the index says that a tool call stands.
    pub fn lookup_tool_call(&self, id: &str) -> (r: Option<(usize, usize)>)
        ensures
            r == place_of(self.deep_view().tool_call_index, id@),
    {
        let ghost all = self.deep_view().tool_call_index;
        let mut i: usize = 0;
        assert(all.skip(0) =~= all);
        while i < self.tool_call_index.len()
            invariant
                i <= self.tool_call_index@.len(),
                all == self.tool_call_index.deep_view(),
                place_of(all, id@) == place_of(all.skip(i as int), id@),
            decreases self.tool_call_index@.len() - i,
        {
            let place = &self.tool_call_index[i];
            assert(all.skip(i as int)[0] == place.deep_view());
            if same(place.id.as_str(), id) {
                return Some((place.message, place.block));
            }
            assert(all.skip(i as int).drop_first() =~= all.skip(i as int + 1));
            i = i + 1;
        }
        None
    }

    /// The tool call at a place, if one stands there.
    pub fn tool_call_at(&self, message: usize, block: usize) -> (r: Option<&ToolCallInfo>)
        ensures
            match r {
                Some(tc) => block_at(self.deep_view().messages, message as int, block as int)
                    == Some(BlockView::ToolCall(tc.deep_view())),
                None => !(block_at(
                    self.deep_view().messages,
                    message as int,
                    block as int,
                ) matches Some(BlockView::ToolCall(_))),
            },
    {
        if message >= self.messages.len() {
            return None;
        }
        let blocks = &self.messages[message].blocks;
        assert(self.deep_view().messages[message as int] == blocks.deep_view());
        if block >= blocks.len() {
            return None;
        }
        assert(blocks.deep_view()[block as int] == blocks@[block as int].deep_view());
        match &blocks[block] {
            MessageBlock::ToolCall(tc) => Some(tc),
            _ => None,
        }
    }
}

/// A tool call that is found stands where it is said to stand, and the index names that place
/// for its id, before any other.
pub proof fn found_tool_calls_stand_there(app: AppView, id: Seq<char>)
    ensures
        tool_call_at(app, id) matches Some(found) ==> {
            let (message, block, tc) = found;
            &&& message < app.messages.len()
            &&& block < app.messages[message as int].len()
            &&& app.messages[message as int][block as int] == BlockView::ToolCall(tc)
            &&& exists|i: int| is_first_place(app.tool_call_index, id, i, message, block)
        },
{
    if let Some((message, block, tc)) = tool_call_at(app, id) {
        let i = place_is_the_first(app.tool_call_index, id);
        assert(is_first_place(app.tool_call_index, id, i, message, block));
    }
}

/// Whether an entry of the index is the first with an id, and names a place.
pub open spec fn is_first_place(
    index: Seq<PlaceView>,
    id: Seq<char>,
    i: int,
    message: usize,
    block: usize,
) -> bool {
    &&& 0 <= i < index.len()
    &&& index[i].id == id
    &&& index[i].message == message
    &&& index[i].block == block
    &&& forall|j: int| 0 <= j < i ==> (#[trigger] index[j]).id != id
}

/// The first entry of the index with an id says where its tool call stands; without one
/// nothing does.
pub proof fn place_is_the_first(index: Seq<PlaceView>, id: Seq<char>) -> (at: int)
    ensures
        place_of(index, id) matches Some(place) ==> is_first_place(
            index,
            id,
            at,
            place.0,
            place.1,
        ),
        place_of(index, id) is None ==> forall|i: int|
            0 <= i < index.len() ==> (#[trigger] index[i]).id != id,
    decreases index.len(),
{
    if index.len() == 0 || index[0].id == id {
        0
    } else {
        let rest = index.drop_first();
        let below = place_is_the_first(rest, id);
        if place_of(rest, id) is Some {
            assert(rest[below] == index[below + 1]);
            assert forall|j: int| 0 <= j < below + 1 implies (#[trigger] index[j]).id != id by {
                if j > 0 {
                    assert(rest[j - 1].id != id);
                }
            }
        } else {
            assert forall|i: int| 0 <= i < index.len() implies (#[trigger] index[i]).id != id by {
                if i > 0 {
                    assert(rest[i - 1].id != id);
                }
            }
        }
        below + 1
    }
}

/// A tool call that stands where the first entry of the index says is found there.
pub proof fn standing_tool_calls_are_found(
    app: AppView,
    id: Seq<char>,
    i: int,
    message: usize,
    block: usize,
    tc: ToolCallView,
)
    requires
        is_first_place(app.tool_call_index, id, i, message, block),
        message < app.messages.len(),
        block < app.messages[message as int].len(),
        app.messages[message as int][block as int] == BlockView::ToolCall(tc),
    ensures
        tool_call_at(app, id) == Some((message, block, tc)),
{
    let k = place_is_the_first(app.tool_call_index, id);
    match place_of(app.tool_call_index, id) {
        Some(_) => {
            if k < i {
                assert(app.tool_call_index[k].id != id);
            }
            if i < k {
                assert(app.tool_call_index[i].id != id);
            }
        },
        None => {
            assert(app.tool_call_index[i].id != id);
        },
    }
}

/// Fresh progress shows nothing, and a header, a flag, a row or an end is enough to show.
pub proof fn any_trace_shows(stop: u64, state: ProgressStateView)
    ensures
        !shows_something(fresh_progress(stop)),
        state.workflow is Some || state.params.len() > 0 || state.verbose || state.actions.len() > 0
            || state.finalized is Some ==> shows_something(state),
        shows_something(state) <==> shows_something(ProgressStateView { stop: None, ..state }),
{
}

} // verus!

//! Following a file that grows line by line.
//!
//! The file may not exist when following begins, and its last line may still be
//! in the making. [`Follower`] decides what to do next after each thing that
//! happened; opening, reading and waiting are the caller's work.

use crate::agent::line_document::{event_document, stream_document};
use crate::agent::workflow_tail::{
    map_agent_stream_line, map_event_line, progress_in, subagent_event_in,
    ProgressView, SubagentToolEvent, WorkflowProgress,
};
use crate::text::chars_of;
use vstd::prelude::*;

verus! {

/// How long to wait before a missing file is tried again, or the end of an
/// existing one is read again, in milliseconds.
pub const POLL_INTERVAL_MILLIS: u64 = 150;

/// Whether to keep reading after a line.
#[derive(Debug, Clone, Copy, PartialEq, Eq)]
pub enum LineAction {
    Continue,
    Stop,
}

/// What happened since the follower last decided.
#[derive(Debug, PartialEq, Eq)]
pub enum FollowEvent {
    /// Following begins.
    Begin,
    /// The file was opened.
    Opened,
    /// The file could not be opened.
    OpenFailed,
    /// Text was read: up to and with the next line break, or up to the end of the file.
    Chunk(String),
    /// There is nothing more to read yet.
    EndOfFile,
    /// Reading failed.
    ReadFailed,
    /// A wait ended; the flag tells whether it ended because of the stop signal.
    Waited(bool),
    /// A line was handled.
    Handled(LineAction),
}

/// What the caller has to do next.
#[derive(Debug, PartialEq, Eq)]
pub enum FollowStep {
    /// Open the file.
    Open,
    /// Read on.
    Read,
    /// Wait one poll interval, or until the stop signal fires.
    Wait,
    /// Handle a whole line, with its line break.
    Handle(String),
    /// Nothing more is to be done.
    Finish,
}

/// The content of a [`FollowEvent`].
pub enum FollowEventView {
    Begin,
    Opened,
    OpenFailed,
    Chunk(Seq<char>),
    EndOfFile,
    ReadFailed,
    Waited(bool),
    Handled(LineAction),
}

/// The content of a [`FollowStep`].
pub enum FollowStepView {
    Open,
    Read,
    Wait,
    Handle(Seq<char>),
    Finish,
}

impl DeepView for FollowEvent {
    type V = FollowEventView;

    open spec fn deep_view(&self) -> FollowEventView {
        match self {
            FollowEvent::Begin => FollowEventView::Begin,
            FollowEvent::Opened => FollowEventView::Opened,
            FollowEvent::OpenFailed => FollowEventView::OpenFailed,
            FollowEvent::Chunk(text) => FollowEventView::Chunk(text@),
            FollowEvent::EndOfFile => FollowEventView::EndOfFile,
            FollowEvent::ReadFailed => FollowEventView::ReadFailed,
            FollowEvent::Waited(stopped) => FollowEventView::Waited(*stopped),
            FollowEvent::Handled(action) => FollowEventView::Handled(*action),
        }
    }
}

impl DeepView for FollowStep {
    type V = FollowStepView;

    open spec fn deep_view(&self) -> FollowStepView {
        match self {
            FollowStep::Open => FollowStepView::Open,
            FollowStep::Read => FollowStepView::Read,
            FollowStep::Wait => FollowStepView::Wait,
            FollowStep::Handle(line) => FollowStepView::Handle(line@),
            FollowStep::Finish => FollowStepView::Finish,
        }
    }
}

/// The state of following a file.
#[derive(Debug, PartialEq, Eq)]
pub struct Follower {
    /// Whether the file is open.
    pub open: bool,
    /// The start of a line whose end has not been read yet.
    pub pending: String,
}

/// The content of a [`Follower`].
pub struct FollowerView {
    pub open: bool,
    pub pending: Seq<char>,
}

impl DeepView for Follower {
    type V = FollowerView;

    open spec fn deep_view(&self) -> FollowerView {
        FollowerView { open: self.open, pending: self.pending@ }
    }
}

/// Whether a text ends in a line break.
pub open spec fn ends_line(text: Seq<char>) -> bool {
    text.len() > 0 && text.last() == '\n'
}

/// The next state and what to do in it, where `stopped` tells whether the stop
/// signal is set. The signal is looked at before the file is opened and at the
/// end of the file; lines that are there are read first.
pub open spec fn follow_step(
    state: FollowerView,
    event: FollowEventView,
    stopped: bool,
) -> (FollowerView, FollowStepView) {
    let opening = if stopped {
        FollowStepView::Finish
    } else {
        FollowStepView::Open
    };
    match event {
        FollowEventView::Begin => (state, opening),
        FollowEventView::Opened => (FollowerView { open: true, ..state }, FollowStepView::Read),
        FollowEventView::OpenFailed => (state, FollowStepView::Wait),
        FollowEventView::Chunk(text) => {
            let all = state.pending + text;
            if ends_line(all) {
                (
                    FollowerView { pending: Seq::empty(), ..state },
                    FollowStepView::Handle(all),
                )
            } else {
                (FollowerView { pending: all, ..state }, FollowStepView::Read)
            }
        },
        FollowEventView::EndOfFile => (
            state,
            if stopped {
                FollowStepView::Finish
            } else {
                FollowStepView::Wait
            },
        ),
        FollowEventView::ReadFailed => (state, FollowStepView::Finish),
        FollowEventView::Waited(fired) => (
            state,
            if fired {
                FollowStepView::Finish
            } else if state.open {
                FollowStepView::Read
            } else {
                opening
            },
        ),
        FollowEventView::Handled(LineAction::Continue) => (state, FollowStepView::Read),
        FollowEventView::Handled(LineAction::Stop) => (state, FollowStepView::Finish),
    }
}

impl Follower {
    /// A follower that has seen nothing yet.
    pub fn new() -> (r: Follower)
        ensures
            r.deep_view() == (FollowerView { open: false, pending: Seq::empty() }),
    {
        let r = Follower { open: false, pending: String::new() };
        assert(r.pending@ =~= Seq::empty());
        r
    }

    /// [`follow_step`]: takes in what happened and says what to do next.
    pub fn follow(&mut self, event: FollowEvent, stopped: bool) -> (r: FollowStep)
        ensures
            (final(self).deep_view(), r.deep_view()) == follow_step(
                old(self).deep_view(),
                event.deep_view(),
                stopped,
            ),
    {
        match event {
            FollowEvent::Begin => if stopped {
                FollowStep::Finish
            } else {
                FollowStep::Open
            },
            FollowEvent::Opened => {
                self.open = true;
                FollowStep::Read
            },
            FollowEvent::OpenFailed => FollowStep::Wait,
            FollowEvent::Chunk(text) => {
                let mut all = self.pending.clone();
                all.append(text.as_str());
                let cs = chars_of(all.as_str());
                if cs.len() > 0 && cs[cs.len() - 1] == '\n' {
                    self.pending = String::new();
                    assert(self.pending@ =~= Seq::empty());
                    FollowStep::Handle(all)
                } else {
                    self.pending = all;
                    FollowStep::Read
                }
            },
            FollowEvent::EndOfFile => if stopped {
                FollowStep::Finish
            } else {
                FollowStep::Wait
            },
            FollowEvent::ReadFailed => FollowStep::Finish,
            FollowEvent::Waited(fired) => if fired {
                FollowStep::Finish
            } else if self.open {
                FollowStep::Read
            } else if stopped {
                FollowStep::Finish
            } else {
                FollowStep::Open
            },
            FollowEvent::Handled(LineAction::Continue) => FollowStep::Read,
            FollowEvent::Handled(LineAction::Stop) => FollowStep::Finish,
        }
    }
}

/// How a wait came to its end.
#[derive(Debug, Clone, Copy, PartialEq, Eq)]
pub enum Wake {
    /// The poll interval went by.
    Interval { stopped: bool },
    /// The stop signal changed, or its sender is gone.
    Signal { closed: bool, stopped: bool },
}

/// Whether a wait ended for good: the stop signal is set or can no longer be.
pub fn wait_or_stop(wake: Wake) -> (r: bool)
    ensures
        r == match wake {
            Wake::Interval { stopped } => stopped,
            Wake::Signal { closed, stopped } => closed || stopped,
        },
        wake matches Wake::Signal { closed: true, .. } ==> r,
        wake matches Wake::Signal { closed: false, stopped } ==> r == stopped,
        wake matches Wake::Interval { stopped } ==> r == stopped,
{
    match wake {
        Wake::Interval { stopped } => stopped,
        Wake::Signal { closed, stopped } => closed || stopped,
    }
}

/// The update on a line of an event file, if any.
pub open spec fn progress_on(line: Seq<char>) -> Option<ProgressView> {
    match event_document(line) {
        Some(tree) => progress_in(tree),
        None => None,
    }
}

/// What to do after a line of an event file: stop once the workflow has ended.
pub open spec fn action_after(update: Option<ProgressView>) -> LineAction {
    match update {
        Some(ProgressView::Finalized { .. }) => LineAction::Stop,
        _ => LineAction::Continue,
    }
}

/// Handles a line of an event file: the update to hand on, and whether to go on.
pub fn tail_events(line: &str) -> (r: (Option<WorkflowProgress>, LineAction))
    ensures
        r.0.deep_view() == progress_on(line@),
        r.1 == action_after(progress_on(line@)),
{
    let update = map_event_line(line);
    let action = match &update {
        Some(WorkflowProgress::Finalized { kind: _, summary: _ }) => LineAction::Stop,
        _ => LineAction::Continue,
    };
    (update, action)
}

/// Handles a line of a subagent stream: the event to hand on. The stream has no
/// end of its own, so reading always goes on.
pub fn tail_agent_stream(line: &str) -> (r: (Option<SubagentToolEvent>, LineAction))
    ensures
        r.0.deep_view() == match stream_document(line@) {
            Some(tree) => subagent_event_in(tree),
            None => None,
        },
        r.1 == LineAction::Continue,
{
    (map_agent_stream_line(line), LineAction::Continue)
}

/// The state after a run of chunks, and the lines handed out on the way.
pub open spec fn after_chunks(state: FollowerView, chunks: Seq<Seq<char>>) -> (
    FollowerView,
    Seq<Seq<char>>,
)
    decreases chunks.len(),
{
    if chunks.len() == 0 {
        (state, Seq::empty())
    } else {
        let (before, lines) = after_chunks(state, chunks.drop_last());
        let (after, step) = follow_step(before, FollowEventView::Chunk(chunks.last()), false);
        match step {
            FollowStepView::Handle(line) => (after, lines.push(line)),
            _ => (after, lines),
        }
    }
}

/// The texts one after the other.
pub open spec fn all_text(parts: Seq<Seq<char>>) -> Seq<char>
    decreases parts.len(),
{
    if parts.len() == 0 {
        Seq::empty()
    } else {
        all_text(parts.drop_last()) + parts.last()
    }
}

/// Whether a line break stands at most at the end of the text.
pub open spec fn within_one_line(text: Seq<char>) -> bool {
    forall|i: int| 0 <= i < text.len() - 1 ==> #[trigger] text[i] != '\n'
}

/// Nothing that was read is lost, added or reordered: what was pending and the
/// chunks are, in order, the lines handed out and what is pending now.
pub proof fn following_loses_nothing(state: FollowerView, chunks: Seq<Seq<char>>)
    ensures
        state.pending + all_text(chunks) == all_text(after_chunks(state, chunks).1)
            + after_chunks(state, chunks).0.pending,
    decreases chunks.len(),
{
    if chunks.len() == 0 {
        assert(state.pending + all_text(chunks) =~= all_text(after_chunks(state, chunks).1)
            + after_chunks(state, chunks).0.pending);
    } else {
        following_loses_nothing(state, chunks.drop_last());
        let (before, lines) = after_chunks(state, chunks.drop_last());
        let all = before.pending + chunks.last();
        assert(state.pending + all_text(chunks) =~= (state.pending + all_text(chunks.drop_last()))
            + chunks.last());
        assert((all_text(lines) + before.pending) + chunks.last() =~= all_text(lines) + all);
        if ends_line(all) {
            assert(lines.push(all).drop_last() =~= lines);
            assert(all_text(lines.push(all)) =~= all_text(lines) + all);
            assert(all_text(lines.push(all)) + Seq::<char>::empty() =~= all_text(lines) + all);
        }
    }
}

/// Only whole lines are handed out: where every chunk ends at its line break if
/// it has one, each line handed out has exactly one line break, at its end, and
/// what is pending has none.
pub proof fn only_whole_lines_are_handled(chunks: Seq<Seq<char>>)
    requires
        forall|i: int| 0 <= i < chunks.len() ==> within_one_line(#[trigger] chunks[i]),
    ensures
        ({
            let fresh = FollowerView { open: true, pending: Seq::empty() };
            let (after, lines) = after_chunks(fresh, chunks);
            &&& !after.pending.contains('\n')
            &&& forall|i: int|
                0 <= i < lines.len() ==> ends_line(#[trigger] lines[i]) && within_one_line(lines[i])
        }),
    decreases chunks.len(),
{
    if chunks.len() > 0 {
        let fresh = FollowerView { open: true, pending: Seq::empty() };
        assert forall|i: int| 0 <= i < chunks.drop_last().len() implies within_one_line(
            #[trigger] chunks.drop_last()[i],
        ) by {
            assert(chunks.drop_last()[i] == chunks[i]);
        }
        only_whole_lines_are_handled(chunks.drop_last());
        let (before, lines) = after_chunks(fresh, chunks.drop_last());
        let chunk = chunks.last();
        let all = before.pending + chunk;
        assert(within_one_line(chunk));
        assert forall|i: int| 0 <= i < all.len() - 1 implies #[trigger] all[i] != '\n' by {
            if i < before.pending.len() {
                assert(before.pending.contains(all[i]));
            } else {
                assert(all[i] == chunk[i - before.pending.len()]);
            }
        }
        if !ends_line(all) && all.contains('\n') {
            let i = choose|i: int| 0 <= i < all.len() && all[i] == '\n';
            assert(i == all.len() - 1);
        }
    }
}

/// What follows the last line break of a text.
pub open spec fn open_line(text: Seq<char>) -> Seq<char>
    decreases text.len(),
{
    if text.len() == 0 || text.last() == '\n' {
        Seq::empty()
    } else {
        open_line(text.drop_last()).push(text.last())
    }
}

/// The lines of a text that are complete, each with its line break.
pub open spec fn whole_lines(text: Seq<char>) -> Seq<Seq<char>>
    decreases text.len(),
{
    if text.len() == 0 {
        Seq::empty()
    } else if text.last() == '\n' {
        whole_lines(text.drop_last()).push(open_line(text.drop_last()).push('\n'))
    } else {
        whole_lines(text.drop_last())
    }
}

proof fn text_within_a_line_is_appended(text: Seq<char>, more: Seq<char>)
    requires
        !more.contains('\n'),
    ensures
        whole_lines(text + more) == whole_lines(text),
        open_line(text + more) == open_line(text) + more,
    decreases more.len(),
{
    if more.len() == 0 {
        assert(text + more =~= text);
        assert(open_line(text) + more =~= open_line(text));
    } else {
        let less = more.drop_last();
        assert forall|c: char| less.contains(c) implies more.contains(c) by {
            let i = choose|i: int| 0 <= i < less.len() && less[i] == c;
            assert(more[i] == c);
        }
        text_within_a_line_is_appended(text, less);
        assert((text + more).drop_last() =~= text + less);
        assert(more.contains(more.last()));
        assert(open_line(text) + more =~= (open_line(text) + less).push(more.last()));
    }
}

/// What is handed out does not depend on the pieces in which a file is read: it is
/// the complete lines of the text read so far, and the rest is pending.
pub proof fn chunking_makes_no_difference(chunks: Seq<Seq<char>>)
    requires
        forall|i: int| 0 <= i < chunks.len() ==> within_one_line(#[trigger] chunks[i]),
    ensures
        ({
            let fresh = FollowerView { open: true, pending: Seq::empty() };
            let (after, lines) = after_chunks(fresh, chunks);
            &&& lines == whole_lines(all_text(chunks))
            &&& after.pending == open_line(all_text(chunks))
        }),
    decreases chunks.len(),
{
    if chunks.len() > 0 {
        let fresh = FollowerView { open: true, pending: Seq::empty() };
        let earlier = chunks.drop_last();
        assert forall|i: int| 0 <= i < earlier.len() implies within_one_line(
            #[trigger] earlier[i],
        ) by {
            assert(earlier[i] == chunks[i]);
        }
        chunking_makes_no_difference(earlier);
        let (before, lines) = after_chunks(fresh, earlier);
        let text = all_text(earlier);
        let chunk = chunks.last();
        assert(within_one_line(chunks[chunks.len() - 1]));
        let all = before.pending + chunk;
        if ends_line(chunk) {
            let inner = chunk.drop_last();
            assert forall|i: int| 0 <= i < inner.len() implies #[trigger] inner[i] != '\n' by {
                assert(inner[i] == chunk[i]);
            }
            text_within_a_line_is_appended(text, inner);
            assert((text + chunk).drop_last() =~= text + inner);
            assert((open_line(text) + inner).push('\n') =~= all);
            assert(ends_line(all));
        } else {
            assert forall|i: int| 0 <= i < chunk.len() implies #[trigger] chunk[i] != '\n' by {
                if i == chunk.len() - 1 {
                    assert(chunk.last() == chunk[i]);
                }
            }
            assert(!chunk.contains('\n'));
            text_within_a_line_is_appended(text, chunk);
            if ends_line(all) {
                only_whole_lines_are_handled(earlier);
                if chunk.len() > 0 {
                    assert(all.last() == chunk.last());
                } else {
                    assert(all =~= before.pending);
                    assert(before.pending.contains('\n'));
                }
            }
        }
    }
}

/// Whether the last of the updates ends the workflow.
pub open spec fn is_final(updates: Seq<ProgressView>) -> bool {
    updates.len() > 0 && updates.last() is Finalized
}

/// The updates on the lines of an event file, in their order, up to and with the
/// first that ends the workflow.
pub open spec fn updates_of(lines: Seq<Seq<char>>) -> Seq<ProgressView>
    decreases lines.len(),
{
    if lines.len() == 0 {
        Seq::empty()
    } else {
        let earlier = updates_of(lines.drop_last());
        match progress_on(lines.last()) {
            Some(update) => if is_final(earlier) {
                earlier
            } else {
                earlier.push(update)
            },
            None => earlier,
        }
    }
}

/// A tail of an event file: the follower, the updates handed on so far, and whether
/// the follower said that nothing more is to be done.
pub struct TailView {
    pub follower: FollowerView,
    pub updates: Seq<ProgressView>,
    pub finished: bool,
}

/// A tail whose file was just opened.
pub open spec fn fresh_tail() -> TailView {
    TailView {
        follower: FollowerView { open: true, pending: Seq::empty() },
        updates: Seq::empty(),
        finished: false,
    }
}

/// A tail after one more read, which gave a chunk or found the end of the file. A
/// line that is handed out is handled and the follower told so; at the end of the
/// file one interval is waited.
pub open spec fn tail_step(tail: TailView, read: Option<Seq<char>>) -> TailView {
    match read {
        Some(chunk) => {
            let (held, step) = follow_step(tail.follower, FollowEventView::Chunk(chunk), false);
            match step {
                FollowStepView::Handle(line) => {
                    let update = progress_on(line);
                    let (after, next) = follow_step(
                        held,
                        FollowEventView::Handled(action_after(update)),
                        false,
                    );
                    TailView {
                        follower: after,
                        updates: match update {
                            Some(u) => tail.updates.push(u),
                            None => tail.updates,
                        },
                        finished: next is Finish,
                    }
                },
                _ => TailView { follower: held, finished: step is Finish, ..tail },
            }
        },
        None => {
            let (held, step) = follow_step(tail.follower, FollowEventView::EndOfFile, false);
            let (after, next) = follow_step(held, FollowEventView::Waited(false), false);
            TailView { follower: after, finished: step is Finish || next is Finish, ..tail }
        },
    }
}

/// A tail after a run of reads. Once it is finished, nothing more is read.
pub open spec fn tail_of(reads: Seq<Option<Seq<char>>>) -> TailView
    decreases reads.len(),
{
    if reads.len() == 0 {
        fresh_tail()
    } else {
        let before = tail_of(reads.drop_last());
        if before.finished {
            before
        } else {
            tail_step(before, reads.last())
        }
    }
}

/// The chunks among the reads.
pub open spec fn chunks_of(reads: Seq<Option<Seq<char>>>) -> Seq<Seq<char>>
    decreases reads.len(),
{
    if reads.len() == 0 {
        Seq::empty()
    } else {
        match reads.last() {
            Some(chunk) => chunks_of(reads.drop_last()).push(chunk),
            None => chunks_of(reads.drop_last()),
        }
    }
}

proof fn tail_keeps_to_the_lines(reads: Seq<Option<Seq<char>>>)
    ensures
        ({
            let tail = tail_of(reads);
            let (follower, lines) = after_chunks(fresh_tail().follower, chunks_of(reads));
            &&& tail.updates == updates_of(lines)
            &&& tail.finished == is_final(tail.updates)
            &&& !tail.finished ==> tail.follower == follower
            &&& follower.open
        }),
    decreases reads.len(),
{
    if reads.len() > 0 {
        let earlier = reads.drop_last();
        tail_keeps_to_the_lines(earlier);
        let tail = tail_of(earlier);
        let fresh = fresh_tail().follower;
        let chunks = chunks_of(earlier);
        let (follower, lines) = after_chunks(fresh, chunks);
        if let Some(chunk) = reads.last() {
            assert(chunks.push(chunk).drop_last() =~= chunks);
            let (held, step) = follow_step(follower, FollowEventView::Chunk(chunk), false);
            if let FollowStepView::Handle(line) = step {
                assert(lines.push(line).drop_last() =~= lines);
            }
        }
    }
}

proof fn read_chunks_stay_within_lines(reads: Seq<Option<Seq<char>>>)
    requires
        forall|i: int|
            0 <= i < reads.len() ==> ((#[trigger] reads[i]) matches Some(chunk) ==> within_one_line(
                chunk,
            )),
    ensures
        forall|i: int|
            0 <= i < chunks_of(reads).len() ==> within_one_line(#[trigger] chunks_of(reads)[i]),
    decreases reads.len(),
{
    if reads.len() > 0 {
        let earlier = reads.drop_last();
        assert forall|i: int| 0 <= i < earlier.len() implies ((#[trigger] earlier[i]) matches Some(
            chunk,
        ) ==> within_one_line(chunk)) by {
            assert(earlier[i] == reads[i]);
        }
        read_chunks_stay_within_lines(earlier);
        assert(reads.last() == reads[reads.len() - 1]);
        assert forall|i: int| 0 <= i < chunks_of(reads).len() implies within_one_line(
            #[trigger] chunks_of(reads)[i],
        ) by {
            if i < chunks_of(earlier).len() {
                assert(chunks_of(reads)[i] == chunks_of(earlier)[i]);
            }
        }
    }
}

/// A tail hands on the updates on the complete lines of the text read so far, in
/// their order, up to and with the first that ends the workflow, whatever the pieces
/// in which the text was read and however often the end of the file was met on the
/// way. It finishes then, and not before.
pub proof fn a_tail_hands_on_the_updates_up_to_the_end(reads: Seq<Option<Seq<char>>>)
    requires
        forall|i: int|
            0 <= i < reads.len() ==> ((#[trigger] reads[i]) matches Some(chunk) ==> within_one_line(
                chunk,
            )),
    ensures
        tail_of(reads).updates == updates_of(whole_lines(all_text(chunks_of(reads)))),
        tail_of(reads).finished == is_final(tail_of(reads).updates),
{
    tail_keeps_to_the_lines(reads);
    read_chunks_stay_within_lines(reads);
    chunking_makes_no_difference(chunks_of(reads));
}

/// No update that a tail hands on comes after one that ends the workflow.
pub proof fn only_the_last_update_is_final(lines: Seq<Seq<char>>)
    ensures
        ({
            let updates = updates_of(lines);
            forall|i: int|
                0 <= i < updates.len() - 1 ==> !((#[trigger] updates[i]) is Finalized)
        }),
    decreases lines.len(),
{
    if lines.len() > 0 {
        only_the_last_update_is_final(lines.drop_last());
        let earlier = updates_of(lines.drop_last());
        if earlier.len() > 0 {
            assert(earlier.last() == earlier[earlier.len() - 1]);
        }
    }
}

/// The stop signal is obeyed wherever it is looked at: at the start, at the end
/// of the file, and when a wait ends by it.
pub proof fn stop_signal_finishes(state: FollowerView)
    ensures
        follow_step(state, FollowEventView::Begin, true).1 == FollowStepView::Finish,
        follow_step(state, FollowEventView::EndOfFile, true).1 == FollowStepView::Finish,
        follow_step(state, FollowEventView::Waited(true), true).1 == FollowStepView::Finish,
        follow_step(state, FollowEventView::Waited(true), false).1 == FollowStepView::Finish,
{
}

/// A missing file is waited for and tried again, without end, as long as the
/// stop signal is not set.
pub proof fn missing_file_is_awaited(state: FollowerView)
    requires
        !state.open,
    ensures
        ({
            let (waiting, first) = follow_step(state, FollowEventView::OpenFailed, false);
            &&& first == FollowStepView::Wait
            &&& follow_step(waiting, FollowEventView::Waited(false), false) == (
                state,
                FollowStepView::Open,
            )
        }),
{
}

/// A terminal event is the only line that ends the following.
pub proof fn terminal_event_stops_the_tail(update: Option<ProgressView>)
    ensures
        action_after(update) == LineAction::Stop <==> (update matches Some(u) && u is Finalized),
{
}

/// A file that was opened is read, a file that could not be opened is waited for, and reading ends
/// where it fails. After a line, reading goes on or ends as the line's handler says.
pub proof fn following_goes_step_by_step(state: FollowerView, stopped: bool)
    ensures
        follow_step(state, FollowEventView::Begin, false).1 is Open,
        follow_step(state, FollowEventView::Opened, stopped).1 is Read,
        follow_step(state, FollowEventView::Opened, stopped).0.open,
        follow_step(state, FollowEventView::Opened, stopped).0.pending == state.pending,
        follow_step(state, FollowEventView::OpenFailed, stopped) == (state, FollowStepView::Wait),
        follow_step(state, FollowEventView::ReadFailed, stopped).1 is Finish,
        follow_step(state, FollowEventView::EndOfFile, false) == (state, FollowStepView::Wait),
        follow_step(state, FollowEventView::Handled(LineAction::Continue), stopped) == (
            state,
            FollowStepView::Read,
        ),
        follow_step(state, FollowEventView::Handled(LineAction::Stop), stopped).1 is Finish,
        state.open ==> follow_step(state, FollowEventView::Waited(false), stopped) == (
            state,
            FollowStepView::Read,
        ),
        !state.open ==> follow_step(state, FollowEventView::Waited(false), true).1 is Finish,
{
}

/// A chunk that completes a line hands the line out whole, with what was pending before it; any
/// other chunk is kept with it and reading goes on.
pub proof fn chunks_complete_lines(
    state: FollowerView,
    start: Seq<char>,
    chunk: Seq<char>,
    stopped: bool,
)
    requires
        state.pending == start,
        !start.contains('\n'),
    ensures
        ({
            let (next, step) = follow_step(state, FollowEventView::Chunk(chunk), stopped);
            let complete = chunk.len() > 0 && chunk.last() == '\n';
            &&& next.open == state.open
            &&& complete ==> step == FollowStepView::Handle(start + chunk) && next.pending.len() == 0
            &&& !complete ==> step is Read && next.pending == start + chunk
        }),
{
    let all = start + chunk;
    if chunk.len() > 0 {
        assert(all.last() == chunk.last());
    } else {
        assert(all =~= start);
        if start.len() > 0 {
            assert(start.contains(start.last()));
        }
    }
}

} // verus!

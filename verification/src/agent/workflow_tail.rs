//! Live progress of a workflow run.
//!
//! A shell launch shows its output only once the process ends, so a long run
//! would show nothing until then. The engine, however, appends one JSON document
//! per event to a file in the run directory. [`map_event_line`] turns a line of
//! that file into an update of the progress view; [`map_agent_stream_line`] does
//! the same for the lines of the subagent stream beside it.

pub use crate::agent::follow::{tail_agent_stream, tail_events};
pub use crate::agent::run_target::{extract_run_target, RunTarget};

use crate::agent::engine_event::{
    aborted_fields, action_completed_fields, action_started_fields, can_hold_record,
    described_actions_are_read, describes_action, ended_fields, event_in, event_types_differ,
    holds_record, is_plain_record, lists_texts, may_say_text, optional_any_field,
    optional_text_field, other_entries_keep_the_record, other_entries_make_no_difference,
    plain_records_hold_any_fields, read_event, read_optional_text, read_text, run_started_fields,
    said_texts_are_read, says_text, scalar_entries, slot, slot_at, text_field, times_given,
    ActionView, EventView, RawAction, RawEvent, TaskView,
};
use crate::agent::line_document::{
    event_document, read_event_document, read_stream_document, stream_document,
};
use crate::json::{
    distinct_keys, get, scalar_text, text_of, the_first_entry_counts, words_of, Json, Tree,
};
use crate::order::{
    insert_by_key, sort_by_key, sort_by_key_sorts, sorted_by_key, text_less_irreflexive,
    text_less_transitive,
};
use crate::text::{
    concat, contains, decimal, decimal_of, has_part, is_small, join, joined,
    joining_one_more, lower, lowered,
    lowered_texts_have_what_is_mentioned, mentions, same, slice, spells, text_less, trim,
    trimmed, words_between_others_are_mentioned,
};
use vstd::prelude::*;

verus! {

/// A single live-progress update derived from one engine event.
#[allow(inconsistent_fields)]
#[derive(Debug, Clone, PartialEq, Eq)]
pub enum WorkflowProgress {
    /// A run began: the workflow's name, the header parameters in the order in
    /// which the engine gave them, and whether nested tool rows are wanted.
    Started { workflow: String, params: Vec<(String, String)>, verbose: bool },
    /// An action began. Later updates name it by `action_id`; `detail` sums up
    /// what is known of the action.
    ActionStarted { action_id: String, kind: String, name: String, detail: Option<String> },
    /// An action ended. `outcome` is a short text for people, `status` its class.
    ActionCompleted {
        action_id: String,
        status: ActionStatus,
        outcome: String,
        detail: Option<String>,
    },
    /// The workflow came to its end; `summary` tells how in one line.
    Finalized { kind: FinalizeKind, summary: String },
}

/// Coarse status of a completed action, used for colouring.
#[derive(Debug, Clone, Copy, PartialEq, Eq)]
pub enum ActionStatus {
    Success,
    Retry,
    Fail,
}

/// How a workflow ended.
#[derive(Debug, Clone, Copy, PartialEq, Eq)]
pub enum FinalizeKind {
    Done,
    Aborted,
    Escalated,
}

/// A tool call of a subagent, from a line of the subagent stream.
#[derive(Debug, Clone, PartialEq, Eq)]
pub struct SubagentToolEvent {
    /// The action that the subagent works for.
    pub action_id: String,
    /// The subagent's name.
    pub agent_name: String,
    /// Pairs the start of a call with its result.
    pub tool_call_id: String,
    /// Whether the call starts or ends.
    pub phase: SubagentPhase,
    /// The tool's name.
    pub name: String,
    /// A short label for the call; never empty.
    pub detail: Option<String>,
    /// What the call came to; never empty.
    pub status: Option<String>,
}

/// Whether a subagent event is a tool call or its result.
#[derive(Debug, Clone, Copy, PartialEq, Eq)]
pub enum SubagentPhase {
    ToolUse,
    ToolResult,
}

/// The content of a [`WorkflowProgress`].
#[allow(inconsistent_fields)]
pub enum ProgressView {
    Started { workflow: Seq<char>, params: Seq<(Seq<char>, Seq<char>)>, verbose: bool },
    ActionStarted {
        action_id: Seq<char>,
        kind: Seq<char>,
        name: Seq<char>,
        detail: Option<Seq<char>>,
    },
    ActionCompleted {
        action_id: Seq<char>,
        status: ActionStatus,
        outcome: Seq<char>,
        detail: Option<Seq<char>>,
    },
    Finalized { kind: FinalizeKind, summary: Seq<char> },
}

/// The content of a [`SubagentToolEvent`].
pub struct SubagentView {
    pub action_id: Seq<char>,
    pub agent_name: Seq<char>,
    pub tool_call_id: Seq<char>,
    pub phase: SubagentPhase,
    pub name: Seq<char>,
    pub detail: Option<Seq<char>>,
    pub status: Option<Seq<char>>,
}

impl DeepView for WorkflowProgress {
    type V = ProgressView;

    open spec fn deep_view(&self) -> ProgressView {
        match self {
            WorkflowProgress::Started { workflow, params, verbose } => ProgressView::Started {
                workflow: workflow@,
                params: params.deep_view(),
                verbose: *verbose,
            },
            WorkflowProgress::ActionStarted { action_id, kind, name, detail } =>
            ProgressView::ActionStarted {
                action_id: action_id@,
                kind: kind@,
                name: name@,
                detail: detail.deep_view(),
            },
            WorkflowProgress::ActionCompleted { action_id, status, outcome, detail } =>
            ProgressView::ActionCompleted {
                action_id: action_id@,
                status: *status,
                outcome: outcome@,
                detail: detail.deep_view(),
            },
            WorkflowProgress::Finalized { kind, summary } => ProgressView::Finalized {
                kind: *kind,
                summary: summary@,
            },
        }
    }
}

impl DeepView for SubagentToolEvent {
    type V = SubagentView;

    open spec fn deep_view(&self) -> SubagentView {
        SubagentView {
            action_id: self.action_id@,
            agent_name: self.agent_name@,
            tool_call_id: self.tool_call_id@,
            phase: self.phase,
            name: self.name@,
            detail: self.detail.deep_view(),
            status: self.status.deep_view(),
        }
    }
}

/// The longest summary of an action, in characters.
pub const MAX_ACTION_DETAIL_CHARS: usize = 110;

/// The longest outcome text, in characters.
pub const MAX_OUTCOME_CHARS: usize = 80;

/// The most fields of an action's arguments that its summary names.
pub const MAX_ARGUMENT_FIELDS: usize = 4;

/// A text without the white space around it, cut to at most `max` characters,
/// the last of which is an ellipsis where something was cut.
pub open spec fn shortened(s: Seq<char>, max: nat) -> Seq<char> {
    let t = trim(s);
    if t.len() > max {
        t.take(
            if max > 0 {
                max - 1
            } else {
                0
            },
        ).push('\u{2026}')
    } else {
        t
    }
}

/// [`shortened`]: the trimmed text, cut to at most `max_chars` characters.
pub fn truncate_to(s: &str, max_chars: usize) -> (r: String)
    ensures
        r@ == shortened(s@, max_chars as nat),
{
    let t = trimmed(s);
    let len: usize = t.as_str().unicode_len();
    if len > max_chars {
        let keep: usize = if max_chars > 0 {
            max_chars - 1
        } else {
            0
        };
        let mut head = slice(t.as_str(), 0, keep);
        assert(head@ =~= t@.take(keep as int));
        head.push('\u{2026}');
        head
    } else {
        t
    }
}

/// A text shortened to the length of an outcome.
pub fn truncate(s: &str) -> (r: String)
    ensures
        r@ == shortened(s@, MAX_OUTCOME_CHARS as nat),
{
    truncate_to(s, MAX_OUTCOME_CHARS)
}

/// A shortened text never has more characters than allowed, but for the lone
/// ellipsis that stands for a text of which nothing may be kept.
pub proof fn shortened_text_fits(s: Seq<char>, max: nat)
    ensures
        shortened(s, max).len() <= if max > 0 {
            max
        } else {
            1
        },
        trim(s).len() <= max ==> shortened(s, max) == trim(s),
{
}

/// The first of the texts that is not blank, without the white space around it.
pub open spec fn first_words(items: Seq<Seq<char>>) -> Option<Seq<char>>
    decreases items.len(),
{
    if items.len() == 0 {
        None
    } else if trim(items[0]).len() > 0 {
        Some(trim(items[0]))
    } else {
        first_words(items.drop_first())
    }
}

/// [`first_words`]: the first of the texts that is not blank, trimmed.
pub fn first_nonempty(items: &Vec<String>) -> (r: Option<String>)
    ensures
        r.deep_view() == first_words(items.deep_view()),
{
    let ghost all = items.deep_view();
    let mut i: usize = 0;
    assert(all.skip(0) =~= all);
    while i < items.len()
        invariant
            i <= items@.len(),
            all == items.deep_view(),
            first_words(all) == first_words(all.skip(i as int)),
        decreases items@.len() - i,
    {
        let t = trimmed(items[i].as_str());
        assert(all.skip(i as int)[0] == items@[i as int]@);
        if !t.as_str().is_empty() {
            return Some(t);
        }
        assert(all.skip(i as int).drop_first() =~= all.skip(i as int + 1));
        i = i + 1;
    }
    None
}

/// The status that an outcome word stands for: a failure where it speaks of an
/// abort, a failure or an error, a retry where it speaks of a retry or an
/// escalation, and success otherwise. Upper and lower case count the same.
pub open spec fn outcome_status(word: Seq<char>) -> ActionStatus {
    let w = lower(word);
    if has_part(w, "abort"@) || has_part(w, "fail"@) || has_part(w, "error"@) {
        ActionStatus::Fail
    } else if has_part(w, "retry"@) || has_part(w, "escalat"@) {
        ActionStatus::Retry
    } else {
        ActionStatus::Success
    }
}

/// [`outcome_status`]: the status that an outcome word stands for.
pub fn status_for_outcome_word(outcome: &str) -> (r: ActionStatus)
    ensures
        r == outcome_status(outcome@),
{
    let w = lowered(outcome);
    if contains(w.as_str(), "abort") || contains(w.as_str(), "fail") || contains(
        w.as_str(),
        "error",
    ) {
        ActionStatus::Fail
    } else if contains(w.as_str(), "retry") || contains(w.as_str(), "escalat") {
        ActionStatus::Retry
    } else {
        ActionStatus::Success
    }
}

/// The texts among the items of a list.
pub open spec fn texts_among(items: Seq<Tree>) -> Seq<Seq<char>>
    decreases items.len(),
{
    if items.len() == 0 {
        Seq::empty()
    } else {
        match items.last() {
            Tree::Text(t) => texts_among(items.drop_last()).push(t),
            _ => texts_among(items.drop_last()),
        }
    }
}

/// The missing artifacts that a result lists, where it lists any.
pub open spec fn missing_artifacts(result: Tree) -> Option<Seq<Tree>> {
    match get(result, "missing_artifacts"@) {
        Some(Tree::List(items)) => if items.len() > 0 {
            Some(items)
        } else {
            None
        },
        _ => None,
    }
}

/// The outcome word of a result's marker.
pub open spec fn marker_outcome(result: Tree) -> Option<Seq<char>> {
    match get(result, "marker"@) {
        Some(marker) => words_of(get(marker, "outcome"@)),
        None => None,
    }
}

/// The status and the outcome text of an action's result. An error comes first,
/// then an error category, then missing artifacts. After these a summary or, if
/// there is none, the marker's outcome word is the text; the word alone decides
/// the status where there is one, so that a summary such as "no failures" is not
/// taken for a failure. What is left goes by the `success` flag.
pub open spec fn result_class(result: Tree) -> (ActionStatus, Seq<char>) {
    let error = words_of(get(result, "error"@));
    let category = words_of(get(result, "error_category"@));
    let missing = missing_artifacts(result);
    let word = marker_outcome(result);
    let summary = words_of(get(result, "summary"@));
    if error is Some {
        (ActionStatus::Fail, shortened(error->0, MAX_OUTCOME_CHARS as nat))
    } else if category is Some {
        (ActionStatus::Fail, shortened(category->0, MAX_OUTCOME_CHARS as nat))
    } else if missing is Some {
        (ActionStatus::Fail, "missing: "@ + join(texts_among(missing->0), ", "@))
    } else if summary is Some || word is Some {
        let text = if summary is Some {
            summary->0
        } else {
            word->0
        };
        let decisive = if word is Some {
            word->0
        } else {
            text
        };
        (outcome_status(decisive), shortened(text, MAX_OUTCOME_CHARS as nat))
    } else {
        match get(result, "success"@) {
            Some(Tree::Bool(true)) => (ActionStatus::Success, "ok"@),
            Some(Tree::Bool(false)) => (ActionStatus::Fail, "failed"@),
            _ => (ActionStatus::Success, "done"@),
        }
    }
}

fn collect_texts(items: &Vec<Json>) -> (r: Vec<String>)
    ensures
        r.deep_view() == texts_among(Json::List(*items).tree()->List_0),
{
    let ghost all = Json::List(*items).tree()->List_0;
    let mut out: Vec<String> = Vec::new();
    let mut i: usize = 0;
    assert(all.take(0) =~= Seq::empty());
    assert(out.deep_view() =~= Seq::empty());
    while i < items.len()
        invariant
            i <= items@.len(),
            all == Json::List(*items).tree()->List_0,
            out.deep_view() == texts_among(all.take(i as int)),
        decreases items@.len() - i,
    {
        proof {
            assert(all[i as int] == items@[i as int].tree());
            assert(all.take(i as int + 1).drop_last() =~= all.take(i as int));
        }
        match &items[i] {
            Json::Text(t) => {
                let ghost before = out.deep_view();
                out.push(t.clone());
                assert(out.deep_view() =~= before.push(t@));
            },
            _ => {},
        }
        i = i + 1;
    }
    assert(all.take(i as int) =~= all);
    out
}

/// [`result_class`]: the status and the outcome text of an action's result.
pub fn classify_result(result: &Json) -> (r: (ActionStatus, String))
    ensures
        (r.0, r.1@) == result_class(result.tree()),
{
    if let Some(error) = result.words_at("error") {
        return (ActionStatus::Fail, truncate(error.as_str()));
    }
    if let Some(category) = result.words_at("error_category") {
        return (ActionStatus::Fail, truncate(category.as_str()));
    }
    if let Some(Json::List(items)) = result.get("missing_artifacts") {
        if items.len() > 0 {
            let names = collect_texts(items);
            let mut text = "missing: ".to_owned();
            text.append(joined(&names, ", ").as_str());
            return (ActionStatus::Fail, text);
        }
    }
    let word = match result.get("marker") {
        Some(marker) => marker.words_at("outcome"),
        None => None,
    };
    assert(word.deep_view() == marker_outcome(result.tree()));
    let summary = result.words_at("summary");
    match (summary, word) {
        (Some(text), Some(word)) => (
            status_for_outcome_word(word.as_str()),
            truncate(text.as_str()),
        ),
        (Some(text), None) => (status_for_outcome_word(text.as_str()), truncate(text.as_str())),
        (None, Some(word)) => (status_for_outcome_word(word.as_str()), truncate(word.as_str())),
        (None, None) => match result.get("success") {
            Some(Json::Bool(true)) => (ActionStatus::Success, "ok".to_owned()),
            Some(Json::Bool(false)) => (ActionStatus::Fail, "failed".to_owned()),
            _ => (ActionStatus::Success, "done".to_owned()),
        },
    }
}

/// The label of an outcome: a text itself, or the text under `outcome` or, where
/// that key is missing, under `marker`.
pub open spec fn label_of(outcome: Tree) -> Option<Seq<char>> {
    match outcome {
        Tree::Text(t) => Some(t),
        Tree::Object(_) => text_of(
            match get(outcome, "outcome"@) {
                Some(below) => Some(below),
                None => get(outcome, "marker"@),
            },
        ),
        _ => None,
    }
}

/// [`label_of`]: the label of an outcome.
pub fn outcome_label(value: &Json) -> (r: Option<String>)
    ensures
        r.deep_view() == label_of(value.tree()),
{
    match value {
        Json::Text(t) => Some(t.clone()),
        Json::Object(_) => {
            let below = match value.get("outcome") {
                Some(below) => Some(below),
                None => value.get("marker"),
            };
            match below {
                Some(Json::Text(t)) => Some(t.clone()),
                _ => None,
            }
        },
        _ => None,
    }
}

/// The line that sums a run up: the verb, the outcome's label in brackets where
/// there is one, and the shortened reason where it is not blank.
pub open spec fn final_line(verb: Seq<char>, reason: Seq<char>, outcome: Option<Tree>) -> Seq<
    char,
> {
    let label = match outcome {
        Some(tree) => label_of(tree),
        None => None,
    };
    let head = match label {
        Some(l) => if l.len() > 0 {
            verb + " ("@ + l + seq![')']
        } else {
            verb
        },
        None => verb,
    };
    if trim(reason).len() > 0 {
        head + ": "@ + shortened(reason, MAX_OUTCOME_CHARS as nat)
    } else {
        head
    }
}

/// [`final_line`]: the line that sums a run up.
pub fn finalize_summary(verb: &str, reason: &str, outcome: &Option<Json>) -> (r: String)
    ensures
        r@ == final_line(verb@, reason@, outcome.deep_view()),
{
    let mut summary = verb.to_owned();
    let label = match outcome {
        Some(value) => outcome_label(value),
        None => None,
    };
    if let Some(label) = label {
        if !label.as_str().is_empty() {
            summary.append(" (");
            summary.append(label.as_str());
            summary.push(')');
            assert(summary@ =~= verb@ + " ("@ + label@ + seq![')']);
        }
    }
    if !trimmed(reason).as_str().is_empty() {
        summary.append(": ");
        summary.append(truncate(reason).as_str());
    }
    summary
}

/// The `key=value` texts of the entries that have a value.
pub open spec fn assignments(entries: Seq<(Seq<char>, Option<Seq<char>>)>) -> Seq<Seq<char>>
    decreases entries.len(),
{
    if entries.len() == 0 {
        Seq::empty()
    } else {
        let rest = assignments(entries.drop_last());
        match entries.last().1 {
            Some(value) => rest.push(entries.last().0.push('=') + value),
            None => rest,
        }
    }
}

/// The entries of an object in the order of their keys, each with the text of
/// its value where that is a text, a number or a truth value.
pub open spec fn sorted_scalars(entries: Seq<(Seq<char>, Tree)>) -> Seq<
    (Seq<char>, Option<Seq<char>>),
> {
    sort_by_key(entries.map_values(|e: (Seq<char>, Tree)| (e.0, scalar_text(e.1))))
}

/// An object on one line: of its first `max` entries, by key, the ones with a
/// simple value, and the number of the entries that did not fit. Nothing where
/// that leaves no text, or for anything but an object.
pub open spec fn compact_fields(value: Tree, max: nat) -> Option<Seq<char>> {
    match value {
        Tree::Object(entries) => {
            let sorted = sorted_scalars(entries);
            let fields = if sorted.len() > max {
                assignments(sorted.take(max as int)).push(
                    seq!['+'] + decimal((sorted.len() - max) as nat),
                )
            } else {
                assignments(sorted)
            };
            if fields.len() > 0 {
                Some(join(fields, " "@))
            } else {
                None
            }
        },
        _ => None,
    }
}

/// [`compact_fields`]: an object on one line.
pub fn compact_object_fields(value: &Json, max_fields: usize) -> (r: Option<String>)
    ensures
        r.deep_view() == compact_fields(value.tree(), max_fields as nat),
{
    let entries = match value {
        Json::Object(entries) => entries,
        _ => {
            return None;
        },
    };
    let ghost all = value.tree()->Object_0;
    let ghost texts = all.map_values(|e: (Seq<char>, Tree)| (e.0, scalar_text(e.1)));
    let mut scalars: Vec<(String, Option<String>)> = Vec::new();
    let mut i: usize = 0;
    while i < entries.len()
        invariant
            i <= entries@.len(),
            all == Json::Object(*entries).tree()->Object_0,
            texts == all.map_values(|e: (Seq<char>, Tree)| (e.0, scalar_text(e.1))),
            scalars.deep_view() == texts.take(i as int),
        decreases entries@.len() - i,
    {
        assert(all[i as int] == (entries@[i as int].0@, entries@[i as int].1.tree()));
        let entry = (entries[i].0.clone(), entries[i].1.scalar_to_string());
        let ghost before = scalars.deep_view();
        assert(entry.deep_view() == texts[i as int]);
        scalars.push(entry);
        assert(scalars.deep_view() =~= before.push(entry.deep_view()));
        assert(before.push(texts[i as int]) =~= texts.take(i as int + 1));
        i = i + 1;
    }
    assert(texts.take(i as int) =~= texts);
    let sorted = sorted_by_key(scalars);
    let ghost order = sorted.deep_view();
    assert(order == sorted_scalars(all));
    let shown: usize = if sorted.len() > max_fields {
        max_fields
    } else {
        sorted.len()
    };
    let mut fields: Vec<String> = Vec::new();
    let mut k: usize = 0;
    assert(order.take(0) =~= Seq::empty());
    assert(fields.deep_view() =~= Seq::empty());
    while k < shown
        invariant
            k <= shown <= sorted@.len(),
            order == sorted.deep_view(),
            fields.deep_view() == assignments(order.take(k as int)),
        decreases shown - k,
    {
        proof {
            assert(order.take(k as int + 1).drop_last() =~= order.take(k as int));
            assert(order[k as int] == sorted@[k as int].deep_view());
        }
        match &sorted[k].1 {
            Some(value) => {
                let ghost before = fields.deep_view();
                let mut field = sorted[k].0.clone();
                field.push('=');
                field.append(value.as_str());
                let ghost added = field@;
                fields.push(field);
                assert(fields.deep_view() =~= before.push(added));
            },
            None => {},
        }
        k = k + 1;
    }
    if sorted.len() > max_fields {
        let mut rest = String::new();
        rest.push('+');
        let left: usize = sorted.len() - max_fields;
        rest.append(decimal_of(left as u64).as_str());
        let ghost before = fields.deep_view();
        let ghost added = rest@;
        assert(added =~= seq!['+'] + decimal((order.len() - max_fields) as nat));
        fields.push(rest);
        assert(fields.deep_view() =~= before.push(added));
    } else {
        assert(order.take(shown as int) =~= order);
    }
    if fields.len() > 0 {
        Some(joined(&fields, " "))
    } else {
        None
    }
}

/// The `label` with a trimmed text behind it, where the text is not blank.
pub open spec fn labelled_words(label: Seq<char>, text: Seq<char>) -> Seq<Seq<char>> {
    if trim(text).len() > 0 {
        seq![label + trim(text)]
    } else {
        Seq::empty()
    }
}

/// What an action's task adds to its summary.
pub open spec fn task_parts(action: ActionView) -> Seq<Seq<char>> {
    match action.task {
        None => Seq::empty(),
        Some(task) => {
            let rounds = match task.max_retry_rounds {
                Some(n) => seq!["rounds="@ + decimal(n as nat)],
                None => Seq::empty(),
            };
            labelled_words("scope="@, task.task_scope) + rounds + labelled_words(
                "task="@,
                task.kind,
            )
        },
    }
}

/// What an action's arguments add to its summary.
pub open spec fn argument_parts(action: ActionView) -> Seq<Seq<char>> {
    match compact_fields(action.skill_args, MAX_ARGUMENT_FIELDS as nat) {
        Some(args) => seq!["args:"@ + args],
        None => Seq::empty(),
    }
}

/// What an action's expected artifacts add to its summary: up to two by name,
/// more by their number.
pub open spec fn artifact_parts(action: ActionView) -> Seq<Seq<char>> {
    let n = action.expected_artifacts.len();
    if n == 0 {
        Seq::empty()
    } else if n <= 2 {
        seq!["expected="@ + join(action.expected_artifacts, ","@)]
    } else {
        seq!["expected="@ + decimal(n) + " artifacts"@]
    }
}

/// The one-line summary of an action, where there is anything to say.
pub open spec fn detail_of(action: ActionView) -> Option<Seq<char>> {
    let parts = task_parts(action) + argument_parts(action) + artifact_parts(action);
    if parts.len() > 0 {
        Some(shortened(join(parts, " "@), MAX_ACTION_DETAIL_CHARS as nat))
    } else {
        None
    }
}

fn push_labelled_words(parts: &mut Vec<String>, label: &str, text: &str)
    ensures
        final(parts).deep_view() == old(parts).deep_view() + labelled_words(label@, text@),
{
    let ghost before = parts.deep_view();
    let t = trimmed(text);
    if !t.as_str().is_empty() {
        parts.push(concat(label, t.as_str()));
        assert(parts.deep_view() =~= before + seq![label@ + t@]);
    } else {
        assert(parts.deep_view() =~= before + Seq::<Seq<char>>::empty());
    }
}

fn push_part(parts: &mut Vec<String>, part: String)
    ensures
        final(parts).deep_view() == old(parts).deep_view() + seq![part@],
{
    let ghost before = parts.deep_view();
    parts.push(part);
    assert(parts.deep_view() =~= before + seq![part@]);
}

/// [`detail_of`]: the one-line summary of an action.
pub fn action_detail(action: &RawAction) -> (r: Option<String>)
    ensures
        r.deep_view() == detail_of(action.deep_view()),
{
    let ghost a = action.deep_view();
    let mut parts: Vec<String> = Vec::new();
    assert(parts.deep_view() =~= Seq::empty());
    if let Some(task) = &action.task {
        push_labelled_words(&mut parts, "scope=", task.task_scope.as_str());
        if let Some(rounds) = task.max_retry_rounds {
            push_part(&mut parts, concat("rounds=", decimal_of(rounds).as_str()));
        }
        push_labelled_words(&mut parts, "task=", task.kind.as_str());
    }
    assert(parts.deep_view() =~= task_parts(a));
    match compact_object_fields(&action.skill_args, MAX_ARGUMENT_FIELDS) {
        Some(args) => {
            push_part(&mut parts, concat("args:", args.as_str()));
        },
        None => {},
    }
    assert(parts.deep_view() =~= task_parts(a) + argument_parts(a));
    let n: usize = action.expected_artifacts.len();
    if n > 0 {
        if n <= 2 {
            push_part(
                &mut parts,
                concat("expected=", joined(&action.expected_artifacts, ",").as_str()),
            );
        } else {
            let count = concat("expected=", decimal_of(n as u64).as_str());
            push_part(&mut parts, concat(count.as_str(), " artifacts"));
        }
    }
    assert(parts.deep_view() =~= task_parts(a) + argument_parts(a) + artifact_parts(a));
    if parts.len() > 0 {
        Some(truncate_to(joined(&parts, " ").as_str(), MAX_ACTION_DETAIL_CHARS))
    } else {
        None
    }
}

/// The line that sums an aborted run up: its category, and the reason or, where
/// that is blank, the remediation.
pub open spec fn aborted_line(
    category: Seq<char>,
    reason: Seq<char>,
    remediation: Option<Seq<char>>,
) -> Seq<char> {
    let advice = match remediation {
        Some(text) => text,
        None => Seq::empty(),
    };
    let head = "aborted ["@ + category + seq![']'];
    match first_words(seq![reason, advice]) {
        Some(text) => head + ": "@ + text,
        None => head,
    }
}

/// The update that an event stands for.
pub open spec fn progress_of(event: EventView) -> Option<ProgressView> {
    match event {
        EventView::RunStarted { workflow, params, verbose } => Some(
            ProgressView::Started { workflow, params, verbose },
        ),
        EventView::ActionStarted { action_id, action } => Some(
            ProgressView::ActionStarted {
                action_id,
                kind: action.kind,
                name: action.name,
                detail: detail_of(action),
            },
        ),
        EventView::ActionCompleted { action_id, action, result } => Some(
            ProgressView::ActionCompleted {
                action_id,
                status: result_class(result).0,
                outcome: result_class(result).1,
                detail: detail_of(action),
            },
        ),
        EventView::WorkflowDone { reason, outcome } => Some(
            ProgressView::Finalized {
                kind: FinalizeKind::Done,
                summary: final_line("done"@, reason, outcome),
            },
        ),
        EventView::WorkflowAborted { category, reason, user_remediation } => Some(
            ProgressView::Finalized {
                kind: FinalizeKind::Aborted,
                summary: aborted_line(category, reason, user_remediation),
            },
        ),
        EventView::WorkflowEscalated { reason, outcome } => Some(
            ProgressView::Finalized {
                kind: FinalizeKind::Escalated,
                summary: final_line("escalated"@, reason, outcome),
            },
        ),
        EventView::Other => None,
    }
}

/// [`progress_of`]: the update that an event stands for.
pub fn map_event(event: RawEvent) -> (r: Option<WorkflowProgress>)
    ensures
        r.deep_view() == progress_of(event.deep_view()),
{
    match event {
        RawEvent::RunStarted { workflow, params, verbose } => Some(
            WorkflowProgress::Started { workflow, params, verbose },
        ),
        RawEvent::ActionStarted { action_id, action } => {
            let detail = action_detail(&action);
            Some(
                WorkflowProgress::ActionStarted {
                    action_id,
                    kind: action.kind,
                    name: action.name,
                    detail,
                },
            )
        },
        RawEvent::ActionCompleted { action_id, action, result } => {
            let (status, outcome) = classify_result(&result);
            let detail = action_detail(&action);
            Some(WorkflowProgress::ActionCompleted { action_id, status, outcome, detail })
        },
        RawEvent::WorkflowDone { reason, outcome } => Some(
            WorkflowProgress::Finalized {
                kind: FinalizeKind::Done,
                summary: finalize_summary("done", reason.as_str(), &outcome),
            },
        ),
        RawEvent::WorkflowAborted { category, reason, user_remediation } => {
            let ghost given_reason = reason@;
            let ghost given_advice = user_remediation.deep_view();
            let mut summary = "aborted [".to_owned();
            summary.append(category.as_str());
            summary.push(']');
            assert(summary@ =~= "aborted ["@ + category@ + seq![']']);
            let mut candidates: Vec<String> = Vec::new();
            candidates.push(reason);
            match user_remediation {
                Some(text) => {
                    candidates.push(text);
                },
                None => {
                    candidates.push(String::new());
                },
            }
            proof {
                let advice = match given_advice {
                    Some(text) => text,
                    None => Seq::empty(),
                };
                assert(candidates@[1]@ =~= advice);
                assert(candidates.deep_view() =~= seq![given_reason, advice]);
            }
            match first_nonempty(&candidates) {
                Some(detail) => {
                    summary.append(": ");
                    summary.append(detail.as_str());
                },
                None => {},
            }
            Some(WorkflowProgress::Finalized { kind: FinalizeKind::Aborted, summary })
        },
        RawEvent::WorkflowEscalated { reason, outcome } => Some(
            WorkflowProgress::Finalized {
                kind: FinalizeKind::Escalated,
                summary: finalize_summary("escalated", reason.as_str(), &outcome),
            },
        ),
        RawEvent::Other => None,
    }
}

/// The update that a document stands for.
pub open spec fn progress_in(tree: Tree) -> Option<ProgressView> {
    match event_in(tree) {
        Some(event) => progress_of(event),
        None => None,
    }
}

/// [`progress_in`]: the update that a document stands for.
pub fn map_event_document(json: &Json) -> (r: Option<WorkflowProgress>)
    ensures
        r.deep_view() == progress_in(json.tree()),
{
    match read_event(json) {
        Some(event) => map_event(event),
        None => None,
    }
}

/// Maps one line of an event file to an update. Blank lines, lines that are no
/// document, events that give a field twice and events that the view does not show
/// give nothing.
pub fn map_event_line(line: &str) -> (r: Option<WorkflowProgress>)
    ensures
        r.deep_view() == match event_document(line@) {
            Some(tree) => progress_in(tree),
            None => None,
        },
{
    match read_event_document(line) {
        Some(json) => map_event_document(&json),
        None => None,
    }
}

/// A text that is not empty.
pub open spec fn unless_empty(text: Option<Seq<char>>) -> Option<Seq<char>> {
    match text {
        Some(t) => if t.len() > 0 {
            Some(t)
        } else {
            None
        },
        None => None,
    }
}

/// The phase that a subagent event's kind names.
pub open spec fn phase_named(kind: Seq<char>) -> Option<SubagentPhase> {
    if kind == "tool_use"@ {
        Some(SubagentPhase::ToolUse)
    } else if kind == "tool_result"@ {
        Some(SubagentPhase::ToolResult)
    } else {
        None
    }
}

/// The fields of a subagent event.
pub open spec fn stream_fields() -> Seq<Seq<char>> {
    seq![
        "action_id"@,
        "agent_name"@,
        "tool_call_id"@,
        "kind"@,
        "name"@,
        "detail"@,
        "status"@,
    ]
}

/// The subagent event that a document describes. It needs an action to attach to
/// and one of the two kinds.
pub open spec fn subagent_event_in(tree: Tree) -> Option<SubagentView> {
    let action_id = text_field(slot(tree, "action_id"@, 0));
    let agent_name = text_field(slot(tree, "agent_name"@, 1));
    let tool_call_id = text_field(slot(tree, "tool_call_id"@, 2));
    let kind = text_field(slot(tree, "kind"@, 3));
    let name = text_field(slot(tree, "name"@, 4));
    let detail = optional_text_field(slot(tree, "detail"@, 5));
    let status = optional_text_field(slot(tree, "status"@, 6));
    if holds_record(tree, stream_fields()) && action_id is Some && agent_name is Some
        && tool_call_id is Some && kind is Some && name is Some && detail is Some && status is Some
        && action_id->0.len() > 0 && phase_named(kind->0) is Some {
        Some(
            SubagentView {
                action_id: action_id->0,
                agent_name: agent_name->0,
                tool_call_id: tool_call_id->0,
                phase: phase_named(kind->0)->0,
                name: name->0,
                detail: unless_empty(detail->0),
                status: unless_empty(status->0),
            },
        )
    } else {
        None
    }
}

fn drop_empty(text: Option<String>) -> (r: Option<String>)
    ensures
        r.deep_view() == unless_empty(text.deep_view()),
{
    match text {
        Some(t) => if t.as_str().is_empty() {
            None
        } else {
            Some(t)
        },
        None => None,
    }
}

/// [`subagent_event_in`]: the subagent event that a document describes.
pub fn map_agent_stream_document(json: &Json) -> (r: Option<SubagentToolEvent>)
    ensures
        r.deep_view() == subagent_event_in(json.tree()),
{
    let fields: Vec<&'static str> = vec![
        "action_id",
        "agent_name",
        "tool_call_id",
        "kind",
        "name",
        "detail",
        "status",
    ];
    assert(fields.deep_view() =~= stream_fields());
    if !can_hold_record(json, fields) {
        return None;
    }
    let action_id = read_text(slot_at(json, "action_id", 0));
    let agent_name = read_text(slot_at(json, "agent_name", 1));
    let tool_call_id = read_text(slot_at(json, "tool_call_id", 2));
    let kind = read_text(slot_at(json, "kind", 3));
    let name = read_text(slot_at(json, "name", 4));
    let detail = read_optional_text(slot_at(json, "detail", 5));
    let status = read_optional_text(slot_at(json, "status", 6));
    match (action_id, agent_name, tool_call_id, kind, name, detail, status) {
        (
            Some(action_id),
            Some(agent_name),
            Some(tool_call_id),
            Some(kind),
            Some(name),
            Some(detail),
            Some(status),
        ) => {
            if action_id.as_str().is_empty() {
                return None;
            }
            let phase = if same(kind.as_str(), "tool_use") {
                SubagentPhase::ToolUse
            } else if same(kind.as_str(), "tool_result") {
                SubagentPhase::ToolResult
            } else {
                return None;
            };
            Some(
                SubagentToolEvent {
                    action_id,
                    agent_name,
                    tool_call_id,
                    phase,
                    name,
                    detail: drop_empty(detail),
                    status: drop_empty(status),
                },
            )
        },
        _ => None,
    }
}

/// Maps one line of a subagent stream to an event. Blank lines, lines that are no
/// document, lines that give a field twice, unknown kinds and events without an action
/// give nothing. Fields that nothing consumes are not looked at.
pub fn map_agent_stream_line(line: &str) -> (r: Option<SubagentToolEvent>)
    ensures
        r.deep_view() == match stream_document(line@) {
            Some(tree) => subagent_event_in(tree),
            None => None,
        },
{
    match read_stream_document(line) {
        Some(json) => map_agent_stream_document(&json),
        None => None,
    }
}

/// The marker's outcome word alone decides the status where there is one, whatever
/// the summary says; the summary is what is shown.
pub proof fn marker_word_decides_the_status(result: Tree)
    requires
        words_of(get(result, "error"@)) is None,
        words_of(get(result, "error_category"@)) is None,
        missing_artifacts(result) is None,
        marker_outcome(result) is Some,
    ensures
        result_class(result).0 == outcome_status(marker_outcome(result)->0),
        words_of(get(result, "summary"@)) matches Some(text) ==> result_class(result).1
            == shortened(text, MAX_OUTCOME_CHARS as nat),
{
}

/// The summary of an action keeps to its length.
pub proof fn action_details_fit(action: ActionView)
    ensures
        detail_of(action) matches Some(detail) ==> detail.len() <= MAX_ACTION_DETAIL_CHARS,
{
    let parts = task_parts(action) + argument_parts(action) + artifact_parts(action);
    shortened_text_fits(join(parts, " "@), MAX_ACTION_DETAIL_CHARS as nat);
}

/// An event of a type that the view does not know shows nothing.
pub proof fn unknown_event_types_show_nothing(tree: Tree)
    requires
        text_of(slot(tree, "type"@, 0)) matches Some(tag) && tag != "run_started"@ && tag
            != "action_started"@ && tag != "action_completed"@ && tag != "workflow_done"@ && tag
            != "workflow_aborted"@ && tag != "workflow_escalated"@,
    ensures
        progress_in(tree) is None,
{
}

/// A subagent event always names the action to attach to, and its detail and its
/// status are never empty texts.
pub proof fn subagent_events_can_be_attached(tree: Tree)
    ensures
        subagent_event_in(tree) matches Some(event) ==> {
            &&& event.action_id.len() > 0
            &&& event.detail matches Some(text) ==> text.len() > 0
            &&& event.status matches Some(text) ==> text.len() > 0
        },
{
}

/// A subagent event that gives one of its fields twice is refused.
pub proof fn repeated_stream_fields_are_refused(entries: Seq<(Seq<char>, Tree)>, key: Seq<char>)
    requires
        stream_fields().contains(key),
        times_given(entries, key) > 1,
    ensures
        subagent_event_in(Tree::Object(entries)) is None,
{
}

/// Fields of a subagent event that nothing consumes make no difference to it.
pub proof fn unknown_stream_fields_are_ignored(
    before: Seq<(Seq<char>, Tree)>,
    unknown: (Seq<char>, Tree),
    after: Seq<(Seq<char>, Tree)>,
)
    requires
        unknown.0 != "action_id"@,
        unknown.0 != "agent_name"@,
        unknown.0 != "tool_call_id"@,
        unknown.0 != "kind"@,
        unknown.0 != "name"@,
        unknown.0 != "detail"@,
        unknown.0 != "status"@,
    ensures
        subagent_event_in(Tree::Object(before + seq![unknown] + after)) == subagent_event_in(
            Tree::Object(before + after),
        ),
{
    other_entries_make_no_difference(before, unknown, after, "action_id"@);
    other_entries_make_no_difference(before, unknown, after, "agent_name"@);
    other_entries_make_no_difference(before, unknown, after, "tool_call_id"@);
    other_entries_make_no_difference(before, unknown, after, "kind"@);
    other_entries_make_no_difference(before, unknown, after, "name"@);
    other_entries_make_no_difference(before, unknown, after, "detail"@);
    other_entries_make_no_difference(before, unknown, after, "status"@);
    other_entries_keep_the_record(before, unknown, after, stream_fields());
}

/// Whether a document says a text that is not empty under a key.
pub open spec fn says_words(tree: Tree, key: Seq<char>) -> bool {
    get(tree, key) matches Some(Tree::Text(text)) && text.len() > 0
}

/// Whether a result holds none of what makes a failure of itself: an error, a category of
/// errors, or artifacts that are missing.
pub open spec fn holds_no_failure(result: Tree) -> bool {
    &&& !says_words(result, "error"@)
    &&& !says_words(result, "error_category"@)
    &&& !(get(result, "missing_artifacts"@) matches Some(Tree::List(items)) && items.len() > 0)
}

/// Whether a text is what the status of a result goes by: the outcome word of its marker or,
/// where there is none, its summary.
pub open spec fn goes_by(result: Tree, text: Seq<char>) -> bool {
    &&& text.len() > 0
    &&& match get(result, "marker"@) {
        Some(marker) => if says_words(marker, "outcome"@) {
            get(marker, "outcome"@) == Some(Tree::Text(text))
        } else {
            get(result, "summary"@) == Some(Tree::Text(text))
        },
        None => get(result, "summary"@) == Some(Tree::Text(text)),
    }
}

/// The text that a result goes by decides its status: it is a failure exactly where the text
/// speaks of an abort, a failure or an error, a retry exactly where it speaks of none of
/// these but of a retry or an escalation, and a success exactly where it speaks of none of
/// the five, in capital or in small letters.
pub proof fn words_decide_the_status(result: Tree, text: Seq<char>)
    requires
        holds_no_failure(result),
        goes_by(result, text),
    ensures
        ({
            let status = result_class(result).0;
            let fails = mentions(text, "abort"@) || mentions(text, "fail"@) || mentions(
                text,
                "error"@,
            );
            let retries = mentions(text, "retry"@) || mentions(text, "escalat"@);
            &&& status == ActionStatus::Fail <==> fails
            &&& status == ActionStatus::Retry <==> !fails && retries
            &&& status == ActionStatus::Success <==> !fails && !retries
        }),
{
    reveal_strlit("abort");
    reveal_strlit("fail");
    reveal_strlit("error");
    reveal_strlit("retry");
    reveal_strlit("escalat");
    assert(is_small("abort"@));
    assert(is_small("fail"@));
    assert(is_small("error"@));
    assert(is_small("retry"@));
    assert(is_small("escalat"@));
    lowered_texts_have_what_is_mentioned(text, "abort"@);
    lowered_texts_have_what_is_mentioned(text, "fail"@);
    lowered_texts_have_what_is_mentioned(text, "error"@);
    lowered_texts_have_what_is_mentioned(text, "retry"@);
    lowered_texts_have_what_is_mentioned(text, "escalat"@);
}

/// A word of failure anywhere in the text that a result goes by makes it a failure, however
/// the word is spelled; a word of retrying makes it a retry where no word of failure stands
/// beside it.
pub proof fn words_in_the_middle_decide(
    result: Tree,
    head: Seq<char>,
    word: Seq<char>,
    tail: Seq<char>,
)
    requires
        holds_no_failure(result),
        goes_by(result, head + word + tail),
    ensures
        spells(word, "abort"@) || spells(word, "fail"@) || spells(word, "error"@) ==> result_class(
            result,
        ).0 == ActionStatus::Fail,
        (spells(word, "retry"@) || spells(word, "escalat"@)) && !mentions(
            head + word + tail,
            "abort"@,
        ) && !mentions(head + word + tail, "fail"@) && !mentions(head + word + tail, "error"@)
            ==> result_class(result).0 == ActionStatus::Retry,
{
    words_decide_the_status(result, head + word + tail);
    if spells(word, "abort"@) {
        words_between_others_are_mentioned(head, word, tail, "abort"@);
    }
    if spells(word, "fail"@) {
        words_between_others_are_mentioned(head, word, tail, "fail"@);
    }
    if spells(word, "error"@) {
        words_between_others_are_mentioned(head, word, tail, "error"@);
    }
    if spells(word, "retry"@) {
        words_between_others_are_mentioned(head, word, tail, "retry"@);
    }
    if spells(word, "escalat"@) {
        words_between_others_are_mentioned(head, word, tail, "escalat"@);
    }
}

/// What a result shows: its error, else its category of errors, else the artifacts that are
/// missing, each of them a failure; else its summary, else the outcome word of its marker;
/// else what its flag says, and that it is done where there is no flag.
pub proof fn results_show_what_they_hold(result: Tree, text: Seq<char>)
    requires
        text.len() > 0,
    ensures
        ({
            let (status, shown) = result_class(result);
            let short = shortened(text, 80);
            let silent = holds_no_failure(result) && !says_words(result, "summary"@) && !(get(
                result,
                "marker"@,
            ) matches Some(marker) && says_words(marker, "outcome"@));
            &&& get(result, "error"@) == Some(Tree::Text(text)) ==> status == ActionStatus::Fail
                && shown == short
            &&& !says_words(result, "error"@) && get(result, "error_category"@) == Some(
                Tree::Text(text),
            ) ==> status == ActionStatus::Fail && shown == short
            &&& holds_no_failure(result) && get(result, "summary"@) == Some(Tree::Text(text))
                ==> shown == short
            &&& holds_no_failure(result) && !says_words(result, "summary"@) && (get(
                result,
                "marker"@,
            ) matches Some(marker) && get(marker, "outcome"@) == Some(Tree::Text(text))) ==> shown
                == short
            &&& silent && get(result, "success"@) == Some(Tree::Bool(true)) ==> status
                == ActionStatus::Success && shown == "ok"@
            &&& silent && get(result, "success"@) == Some(Tree::Bool(false)) ==> status
                == ActionStatus::Fail && shown == "failed"@
            &&& silent && !(get(result, "success"@) matches Some(Tree::Bool(_))) ==> status
                == ActionStatus::Success && shown == "done"@
        }),
{
}

/// Missing artifacts are a failure that names them in their order, with commas between them.
pub proof fn missing_artifacts_are_named(result: Tree, items: Seq<Tree>, names: Seq<Seq<char>>)
    requires
        !says_words(result, "error"@),
        !says_words(result, "error_category"@),
        get(result, "missing_artifacts"@) == Some(Tree::List(items)),
        items.len() > 0,
        lists_texts(items, names),
    ensures
        result_class(result).0 == ActionStatus::Fail,
        result_class(result).1 == "missing: "@ + join(names, ", "@),
{
    listed_texts_are_found(items, names);
}

proof fn listed_texts_are_found(items: Seq<Tree>, texts: Seq<Seq<char>>)
    requires
        lists_texts(items, texts),
    ensures
        texts_among(items) == texts,
    decreases items.len(),
{
    if items.len() == 0 {
        assert(texts =~= Seq::empty());
    } else {
        assert(items[items.len() - 1] == Tree::Text(texts[texts.len() - 1]));
        assert forall|i: int| 0 <= i < items.drop_last().len() implies #[trigger] items.drop_last()[i]
            == Tree::Text(texts.drop_last()[i]) by {
            assert(items[i] == Tree::Text(texts[i]));
        }
        listed_texts_are_found(items.drop_last(), texts.drop_last());
        assert(texts.drop_last().push(texts.last()) =~= texts);
    }
}

/// A text that is too long keeps its first characters and ends in an ellipsis; any other is
/// only trimmed.
pub proof fn long_texts_keep_their_start(s: Seq<char>, max: nat)
    requires
        max > 0,
        trim(s).len() > max,
    ensures
        shortened(s, max).len() == max,
        shortened(s, max).last() == '\u{2026}',
        shortened(s, max).drop_last() == trim(s).take(max - 1),
{
    assert(shortened(s, max).drop_last() =~= trim(s).take(max - 1));
}

/// A line that tells of the start of a run gives its workflow, its parameters and its flag;
/// what the line leaves out is empty or not set.
pub proof fn run_starts_are_shown(
    tree: Tree,
    workflow: Seq<char>,
    params: Seq<(Seq<char>, Tree)>,
    verbose: bool,
)
    requires
        is_plain_record(tree),
        get(tree, "type"@) == Some(Tree::Text("run_started"@)),
        says_text(tree, "workflow"@, workflow),
        match get(tree, "params"@) {
            Some(below) => below == Tree::Object(params),
            None => params.len() == 0,
        },
        match get(tree, "verbose"@) {
            Some(below) => below == Tree::Bool(verbose),
            None => !verbose,
        },
    ensures
        progress_in(tree) == Some(
            ProgressView::Started { workflow, params: scalar_entries(params), verbose },
        ),
{
    plain_records_hold_any_fields(tree, run_started_fields());
    said_texts_are_read(tree, "workflow"@, 1, workflow);
    if get(tree, "params"@) is None {
        assert(scalar_entries(params) =~= Seq::empty());
    }
}

/// A line that tells of the start of an action gives its id, its kind and its name as they
/// stand there, and the summary of the action.
pub proof fn action_starts_are_shown(tree: Tree, action_id: Seq<char>, action: ActionView)
    requires
        is_plain_record(tree),
        get(tree, "type"@) == Some(Tree::Text("action_started"@)),
        says_text(tree, "action_id"@, action_id),
        get(tree, "action"@) matches Some(below) && describes_action(below, action),
    ensures
        progress_in(tree) == Some(
            ProgressView::ActionStarted {
                action_id,
                kind: action.kind,
                name: action.name,
                detail: detail_of(action),
            },
        ),
{
    event_types_differ();
    plain_records_hold_any_fields(tree, action_started_fields());
    said_texts_are_read(tree, "action_id"@, 1, action_id);
    described_actions_are_read(get(tree, "action"@)->0, action);
}

/// A line that tells of the end of an action gives its id, the status and the text of the
/// result that stands there, and the summary of the action.
pub proof fn action_ends_are_shown(
    tree: Tree,
    action_id: Seq<char>,
    action: ActionView,
    result: Tree,
)
    requires
        is_plain_record(tree),
        get(tree, "type"@) == Some(Tree::Text("action_completed"@)),
        says_text(tree, "action_id"@, action_id),
        get(tree, "action"@) matches Some(below) && describes_action(below, action),
        match get(tree, "result"@) {
            Some(below) => below == result,
            None => result is Null,
        },
    ensures
        progress_in(tree) == Some(
            ProgressView::ActionCompleted {
                action_id,
                status: result_class(result).0,
                outcome: result_class(result).1,
                detail: detail_of(action),
            },
        ),
{
    event_types_differ();
    plain_records_hold_any_fields(tree, action_completed_fields());
    said_texts_are_read(tree, "action_id"@, 1, action_id);
    described_actions_are_read(get(tree, "action"@)->0, action);
}

/// On a line that tells of the end of an action, the outcome word of the marker decides the
/// status, with the words written out.
pub proof fn completed_lines_go_by_their_words(
    tree: Tree,
    action: ActionView,
    result: Tree,
    text: Seq<char>,
)
    requires
        is_plain_record(tree),
        get(tree, "type"@) == Some(Tree::Text("action_completed"@)),
        get(tree, "action_id"@) is None || get(tree, "action_id"@)->0 is Text,
        get(tree, "action"@) matches Some(below) && describes_action(below, action),
        get(tree, "result"@) == Some(result),
        holds_no_failure(result),
        goes_by(result, text),
    ensures
        ({
            let fails = mentions(text, "abort"@) || mentions(text, "fail"@) || mentions(
                text,
                "error"@,
            );
            let retries = mentions(text, "retry"@) || mentions(text, "escalat"@);
            &&& progress_in(tree) is Some
            &&& progress_in(tree)->0 is ActionCompleted
            &&& progress_in(tree)->0->ActionCompleted_status == if fails {
                ActionStatus::Fail
            } else if retries {
                ActionStatus::Retry
            } else {
                ActionStatus::Success
            }
        }),
{
    let action_id = match get(tree, "action_id"@) {
        Some(Tree::Text(id)) => id,
        _ => Seq::empty(),
    };
    action_ends_are_shown(tree, action_id, action, result);
    words_decide_the_status(result, text);
}

/// A line that tells of the end of a run gives the kind of end that its type names, and a
/// line that sums it up: the verb, the label of the outcome in brackets where it has one, and
/// the reason where it is not blank.
pub proof fn run_ends_are_shown(tree: Tree, reason: Seq<char>, label: Seq<char>)
    requires
        is_plain_record(tree),
        says_text(tree, "reason"@, reason),
        match get(tree, "outcome"@) {
            Some(Tree::Text(text)) => text == label,
            Some(Tree::Object(_)) => get(get(tree, "outcome"@)->0, "outcome"@) == Some(
                Tree::Text(label),
            ) || get(get(tree, "outcome"@)->0, "outcome"@) is None && get(
                get(tree, "outcome"@)->0,
                "marker"@,
            ) == Some(Tree::Text(label)),
            _ => label.len() == 0,
        },
    ensures
        ({
            let named = if label.len() > 0 {
                " ("@ + label + ")"@
            } else {
                Seq::empty()
            };
            let told = if trim(reason).len() > 0 {
                ": "@ + shortened(reason, 80)
            } else {
                Seq::empty()
            };
            &&& get(tree, "type"@) == Some(Tree::Text("workflow_done"@)) ==> progress_in(tree)
                == Some(
                ProgressView::Finalized {
                    kind: FinalizeKind::Done,
                    summary: "done"@ + named + told,
                },
            )
            &&& get(tree, "type"@) == Some(Tree::Text("workflow_escalated"@)) ==> progress_in(tree)
                == Some(
                ProgressView::Finalized {
                    kind: FinalizeKind::Escalated,
                    summary: "escalated"@ + named + told,
                },
            )
        }),
{
    event_types_differ();
    plain_records_hold_any_fields(tree, ended_fields());
    said_texts_are_read(tree, "reason"@, 1, reason);
    reveal_strlit(")");
    let named = if label.len() > 0 {
        " ("@ + label + ")"@
    } else {
        Seq::empty()
    };
    let told = if trim(reason).len() > 0 {
        ": "@ + shortened(reason, 80)
    } else {
        Seq::empty()
    };
    let outcome = optional_any_field(get(tree, "outcome"@));
    assert(final_line("done"@, reason, outcome) =~= "done"@ + named + told);
    assert(final_line("escalated"@, reason, outcome) =~= "escalated"@ + named + told);
}

/// A line that tells of the abort of a run gives that kind of end, its category in brackets
/// and the reason or, where that is blank, the advice.
pub proof fn aborted_runs_are_shown(
    tree: Tree,
    category: Seq<char>,
    reason: Seq<char>,
    advice: Option<Seq<char>>,
)
    requires
        is_plain_record(tree),
        get(tree, "type"@) == Some(Tree::Text("workflow_aborted"@)),
        says_text(tree, "category"@, category),
        says_text(tree, "reason"@, reason),
        may_say_text(tree, "user_remediation"@, advice),
    ensures
        ({
            let told = if trim(reason).len() > 0 {
                ": "@ + trim(reason)
            } else if advice is Some && trim(advice->0).len() > 0 {
                ": "@ + trim(advice->0)
            } else {
                Seq::empty()
            };
            progress_in(tree) == Some(
                ProgressView::Finalized {
                    kind: FinalizeKind::Aborted,
                    summary: "aborted ["@ + category + "]"@ + told,
                },
            )
        }),
{
    event_types_differ();
    plain_records_hold_any_fields(tree, aborted_fields());
    said_texts_are_read(tree, "category"@, 1, category);
    said_texts_are_read(tree, "reason"@, 2, reason);
    reveal_strlit("]");
    let given = match advice {
        Some(text) => text,
        None => Seq::empty(),
    };
    let both = seq![reason, given];
    assert(both.drop_first() =~= seq![given]);
    assert(seq![given].drop_first() =~= Seq::empty());
    assert(trim(Seq::<char>::empty()).len() == 0);
    assert(first_words(seq![given]) == if trim(given).len() > 0 {
        Some(trim(given))
    } else {
        first_words(Seq::empty())
    });
    let told = if trim(reason).len() > 0 {
        ": "@ + trim(reason)
    } else if advice is Some && trim(advice->0).len() > 0 {
        ": "@ + trim(advice->0)
    } else {
        Seq::empty()
    };
    assert(aborted_line(category, reason, advice) =~= "aborted ["@ + category + "]"@ + told);
}

/// A line of the subagent stream gives a tool call or its result, by its kind, with the
/// action, the agent, the call and the tool as they stand there, and with the detail and the
/// status where they are not empty.
pub proof fn subagent_lines_are_shown(tree: Tree, event: SubagentView)
    requires
        is_plain_record(tree),
        get(tree, "action_id"@) == Some(Tree::Text(event.action_id)),
        event.action_id.len() > 0,
        says_text(tree, "agent_name"@, event.agent_name),
        says_text(tree, "tool_call_id"@, event.tool_call_id),
        says_text(tree, "name"@, event.name),
        get(tree, "kind"@) == Some(
            Tree::Text(
                match event.phase {
                    SubagentPhase::ToolUse => "tool_use"@,
                    SubagentPhase::ToolResult => "tool_result"@,
                },
            ),
        ),
        event.detail is Some ==> event.detail->0.len() > 0,
        event.status is Some ==> event.status->0.len() > 0,
        may_say_text(tree, "detail"@, event.detail) || event.detail is None && get(
            tree,
            "detail"@,
        ) == Some(Tree::Text(Seq::empty())),
        may_say_text(tree, "status"@, event.status) || event.status is None && get(
            tree,
            "status"@,
        ) == Some(Tree::Text(Seq::empty())),
    ensures
        subagent_event_in(tree) == Some(event),
{
    plain_records_hold_any_fields(tree, stream_fields());
    said_texts_are_read(tree, "agent_name"@, 1, event.agent_name);
    said_texts_are_read(tree, "tool_call_id"@, 2, event.tool_call_id);
    said_texts_are_read(tree, "name"@, 4, event.name);
    reveal_strlit("tool_use");
    reveal_strlit("tool_result");
    assert("tool_use"@.len() == 8 && "tool_result"@.len() == 11);
}

/// A line of the subagent stream that names no action, or a kind that is neither a tool call
/// nor its result, gives nothing.
pub proof fn other_subagent_lines_give_nothing(tree: Tree)
    requires
        tree is Object,
        get(tree, "action_id"@) is None || get(tree, "action_id"@) == Some(
            Tree::Text(Seq::empty()),
        ) || get(tree, "kind"@) is None || (get(tree, "kind"@) matches Some(Tree::Text(kind))
            && kind != "tool_use"@ && kind != "tool_result"@),
    ensures
        subagent_event_in(tree) is None,
{
    reveal_strlit("tool_use");
    reveal_strlit("tool_result");
    assert("tool_use"@.len() == 8 && "tool_result"@.len() == 11);
}

/// The summary of an action of which only its task is known says the scope, the rounds and
/// the kind of the task, in this order, each where it is given.
pub proof fn tasks_are_summed_up(action: ActionView, task: TaskView)
    requires
        action.task == Some(task),
        !(action.skill_args is Object),
        action.expected_artifacts.len() == 0,
    ensures
        ({
            let scope = "scope="@ + trim(task.task_scope);
            let kind = "task="@ + trim(task.kind);
            let has_scope = trim(task.task_scope).len() > 0;
            let has_kind = trim(task.kind).len() > 0;
            match task.max_retry_rounds {
                Some(n) => {
                    let rounds = "rounds="@ + decimal(n as nat);
                    let before = if has_scope {
                        scope + " "@ + rounds
                    } else {
                        rounds
                    };
                    detail_of(action) == Some(
                        shortened(
                            if has_kind {
                                before + " "@ + kind
                            } else {
                                before
                            },
                            110,
                        ),
                    )
                },
                None => detail_of(action) == if has_scope && has_kind {
                    Some(shortened(scope + " "@ + kind, 110))
                } else if has_scope {
                    Some(shortened(scope, 110))
                } else if has_kind {
                    Some(shortened(kind, 110))
                } else {
                    None
                },
            }
        }),
{
    let scope = "scope="@ + trim(task.task_scope);
    let kind = "task="@ + trim(task.kind);
    let parts = task_parts(action) + argument_parts(action) + artifact_parts(action);
    assert(argument_parts(action) =~= Seq::empty());
    assert(artifact_parts(action) =~= Seq::empty());
    let gap = " "@;
    let has_scope = trim(task.task_scope).len() > 0;
    let has_kind = trim(task.kind).len() > 0;
    match task.max_retry_rounds {
        Some(n) => {
            let rounds = "rounds="@ + decimal(n as nat);
            joining_one_more(seq![scope], gap, rounds);
            joining_one_more(seq![scope, rounds], gap, kind);
            joining_one_more(seq![rounds], gap, kind);
            joining_one_more(seq![rounds], gap, rounds);
            joining_one_more(seq![scope], gap, scope);
            assert(seq![scope].push(rounds) =~= seq![scope, rounds]);
            assert(seq![scope, rounds].push(kind) =~= seq![scope, rounds, kind]);
            assert(seq![rounds].push(kind) =~= seq![rounds, kind]);
            if has_scope && has_kind {
                assert(parts =~= seq![scope, rounds, kind]);
            } else if has_scope {
                assert(parts =~= seq![scope, rounds]);
            } else if has_kind {
                assert(parts =~= seq![rounds, kind]);
            } else {
                assert(parts =~= seq![rounds]);
            }
        },
        None => {
            joining_one_more(seq![scope], gap, kind);
            joining_one_more(seq![scope], gap, scope);
            assert(seq![scope].push(kind) =~= seq![scope, kind]);
            if has_scope && has_kind {
                assert(parts =~= seq![scope, kind]);
            } else if has_scope {
                assert(parts =~= seq![scope]);
            } else if has_kind {
                assert(parts =~= seq![kind]);
            } else {
                assert(parts =~= Seq::empty());
            }
        },
    }
}

/// The summary of an action of which only the expected artifacts are known names one or two
/// of them and counts more; of an action of which nothing is known there is none.
pub proof fn artifacts_are_summed_up(action: ActionView)
    requires
        action.task is None,
        !(action.skill_args is Object),
    ensures
        ({
            let names = action.expected_artifacts;
            let n = names.len();
            &&& n == 0 ==> detail_of(action) is None
            &&& n == 1 ==> detail_of(action) == Some(shortened("expected="@ + names[0], 110))
            &&& n == 2 ==> detail_of(action) == Some(
                shortened("expected="@ + (names[0] + ","@ + names[1]), 110),
            )
            &&& n > 2 ==> detail_of(action) == Some(
                shortened("expected="@ + decimal(n) + " artifacts"@, 110),
            )
        }),
{
    let names = action.expected_artifacts;
    let n = names.len();
    let parts = task_parts(action) + argument_parts(action) + artifact_parts(action);
    assert(parts =~= artifact_parts(action));
    if n == 0 {
        assert(parts =~= Seq::empty());
    } else {
        joining_one_more(seq![parts[0]], " "@, parts[0]);
        assert(parts =~= seq![parts[0]]);
        if n == 1 {
            assert(names =~= seq![names[0]]);
            joining_one_more(names, ","@, names[0]);
        } else if n == 2 {
            assert(names =~= seq![names[0]].push(names[1]));
            joining_one_more(seq![names[0]], ","@, names[1]);
            joining_one_more(seq![names[0]], ","@, names[0]);
        }
    }
}

/// The summary of an action of which only its arguments are known lists them behind
/// `args:`, and there is none where no argument has a simple value.
pub proof fn arguments_are_summed_up(action: ActionView)
    requires
        action.task is None,
        action.expected_artifacts.len() == 0,
    ensures
        detail_of(action) == match compact_fields(action.skill_args, 4) {
            Some(args) => Some(shortened("args:"@ + args, 110)),
            None => None,
        },
{
    let parts = task_parts(action) + argument_parts(action) + artifact_parts(action);
    assert(parts =~= argument_parts(action));
    if parts.len() > 0 {
        joining_one_more(seq![parts[0]], " "@, parts[0]);
        assert(parts =~= seq![parts[0]]);
    } else {
        assert(parts =~= Seq::empty());
    }
}

/// In the summary of an action, what is known of its task comes first, its arguments follow,
/// and the artifacts that are expected come last.
pub proof fn summaries_keep_their_order(action: ActionView, task: TaskView, args: Seq<char>)
    requires
        action.task == Some(task),
        trim(task.task_scope).len() > 0,
        trim(task.kind).len() == 0,
        task.max_retry_rounds is None,
        compact_fields(action.skill_args, 4) == Some(args),
        action.expected_artifacts.len() == 1,
    ensures
        detail_of(action) == Some(
            shortened(
                "scope="@ + trim(task.task_scope) + " "@ + ("args:"@ + args) + " "@ + ("expected="@
                    + action.expected_artifacts[0]),
                110,
            ),
        ),
{
    let parts = task_parts(action) + argument_parts(action) + artifact_parts(action);
    let scope = "scope="@ + trim(task.task_scope);
    let listed = "args:"@ + args;
    let names = action.expected_artifacts;
    let expected = "expected="@ + names[0];
    assert(names =~= seq![names[0]]);
    joining_one_more(names, ","@, names[0]);
    assert(parts =~= seq![scope, listed, expected]);
    joining_one_more(seq![scope], " "@, listed);
    joining_one_more(seq![scope], " "@, scope);
    joining_one_more(seq![scope, listed], " "@, expected);
    assert(seq![scope].push(listed) =~= seq![scope, listed]);
    assert(seq![scope, listed].push(expected) =~= parts);
}

/// Of arguments with simple values, each is shown as its key, an equals sign and its value.
/// They come in the order of their keys, whichever comes first in the document, and where
/// there are more than are shown, the rest is counted behind a plus sign.
pub proof fn arguments_are_listed_by_key(
    low: (Seq<char>, Seq<char>),
    high: (Seq<char>, Seq<char>),
    max: nat,
)
    requires
        text_less(low.0, high.0),
        max > 0,
    ensures
        ({
            let first = (low.0, Tree::Text(low.1));
            let second = (high.0, Tree::Text(high.1));
            let a = low.0 + "="@ + low.1;
            let b = high.0 + "="@ + high.1;
            let both = if max > 1 {
                Some(a + " "@ + b)
            } else {
                Some(a + " "@ + "+1"@)
            };
            &&& compact_fields(Tree::Object(seq![first]), max) == Some(a)
            &&& compact_fields(Tree::Object(seq![first, second]), max) == both
            &&& compact_fields(Tree::Object(seq![second, first]), max) == both
            &&& compact_fields(Tree::Object(Seq::empty()), max) is None
            &&& compact_fields(Tree::Object(seq![(low.0, Tree::Null)]), max) is None
        }),
{
    let first = (low.0, Tree::Text(low.1));
    let second = (high.0, Tree::Text(high.1));
    let a = low.0 + "="@ + low.1;
    let b = high.0 + "="@ + high.1;
    let gap = " "@;
    reveal_strlit("=");
    reveal_strlit("+1");
    let one = (low.0, Some(low.1));
    let two = (high.0, Some(high.1));
    let f = |e: (Seq<char>, Tree)| (e.0, scalar_text(e.1));
    text_less_irreflexive(low.0);
    if text_less(high.0, low.0) {
        text_less_transitive(low.0, high.0, low.0);
    }
    reveal_with_fuel(sort_by_key, 3);
    reveal_with_fuel(insert_by_key, 3);
    reveal_with_fuel(assignments, 3);
    assert(seq![first].map_values(f) =~= seq![one]);
    assert(seq![one].drop_last() =~= Seq::empty());
    assert(sorted_scalars(seq![first]) =~= seq![one]);
    assert(seq![first, second].map_values(f) =~= seq![one, two]);
    assert(seq![one, two].drop_last() =~= seq![one]);
    assert(sorted_scalars(seq![first, second]) =~= seq![one, two]);
    assert(seq![second, first].map_values(f) =~= seq![two, one]);
    assert(seq![two, one].drop_last() =~= seq![two]);
    assert(seq![two].drop_last() =~= Seq::empty());
    assert(sort_by_key(seq![two]) =~= seq![two]);
    assert(sorted_scalars(seq![second, first]) =~= seq![one, two]);
    assert(low.0.push('=') + low.1 =~= a);
    assert(high.0.push('=') + high.1 =~= b);
    assert(assignments(seq![one]) =~= seq![a]);
    assert(assignments(seq![one, two]) =~= seq![a, b]);
    joining_one_more(seq![a], gap, b);
    joining_one_more(seq![a], gap, a);
    assert(seq![a].push(b) =~= seq![a, b]);
    assert(seq![one, two].take(1) =~= seq![one]);
    assert(seq!['+'] + decimal(1) =~= "+1"@);
    joining_one_more(seq![a], gap, "+1"@);
    let empty = Seq::<(Seq<char>, Tree)>::empty();
    assert(empty.map_values(f) =~= Seq::empty());
    let none = (low.0, None::<Seq<char>>);
    assert(seq![(low.0, Tree::Null)].map_values(f) =~= seq![none]);
    assert(seq![none].drop_last() =~= Seq::empty());
    assert(sorted_scalars(seq![(low.0, Tree::Null)]) =~= seq![none]);
    assert(assignments(seq![none]) =~= Seq::empty());
    if max == 1 {
        assert(sorted_scalars(seq![first]).take(1) =~= seq![one]);
    }
}

/// Where an action has more arguments than are shown, the line of its arguments ends in a
/// plus sign and the number of those that are not.
pub proof fn hidden_arguments_are_counted(entries: Seq<(Seq<char>, Tree)>, max: nat)
    requires
        entries.len() > max,
    ensures
        compact_fields(Tree::Object(entries), max) matches Some(line) && {
            let note = "+"@ + decimal((entries.len() - max) as nat);
            line.len() >= note.len() && line.skip(line.len() - note.len()) == note
        },
{
    reveal_strlit("+");
    let texts = entries.map_values(|e: (Seq<char>, Tree)| (e.0, scalar_text(e.1)));
    sort_by_key_sorts(texts);
    let sorted = sorted_scalars(entries);
    let shown = assignments(sorted.take(max as int));
    let note = seq!['+'] + decimal((entries.len() - max) as nat);
    assert(note =~= "+"@ + decimal((entries.len() - max) as nat));
    joining_one_more(shown, " "@, note);
    let line = join(shown.push(note), " "@);
    if shown.len() == 0 {
        assert(shown.push(note) =~= seq![note]);
    }
    assert(line.skip(line.len() - note.len()) =~= note);
}

/// A subagent line that lists its fields by position says the same as one that gives them by name:
/// the action, the agent, the call, the kind, the tool, the detail and the status.
pub proof fn position_says_what_a_subagent_did(items: Seq<Tree>)
    requires
        items.len() == 7,
    ensures
        subagent_event_in(Tree::List(items)) == subagent_event_in(
            Tree::Object(
                seq![
                    ("action_id"@, items[0]),
                    ("agent_name"@, items[1]),
                    ("tool_call_id"@, items[2]),
                    ("kind"@, items[3]),
                    ("name"@, items[4]),
                    ("detail"@, items[5]),
                    ("status"@, items[6]),
                ],
            ),
        ),
        subagent_event_in(Tree::List(items.push(Tree::Null))) is None,
{
    reveal_strlit("action_id");
    reveal_strlit("agent_name");
    reveal_strlit("tool_call_id");
    reveal_strlit("kind");
    reveal_strlit("name");
    reveal_strlit("detail");
    reveal_strlit("status");
    assert("action_id"@.len() == 9 && "agent_name"@.len() == 10 && "tool_call_id"@.len() == 12);
    assert("kind"@.len() == 4 && "name"@.len() == 4);
    assert("kind"@[0] == 'k' && "name"@[0] == 'n');
    assert("detail"@.len() == 6 && "status"@.len() == 6);
    assert("detail"@[0] == 'd' && "status"@[0] == 's');
    let entries = seq![
        ("action_id"@, items[0]),
        ("agent_name"@, items[1]),
        ("tool_call_id"@, items[2]),
        ("kind"@, items[3]),
        ("name"@, items[4]),
        ("detail"@, items[5]),
        ("status"@, items[6]),
    ];
    assert(distinct_keys(entries));
    plain_records_hold_any_fields(Tree::Object(entries), stream_fields());
    the_first_entry_counts(entries, "action_id"@, 0);
    the_first_entry_counts(entries, "agent_name"@, 1);
    the_first_entry_counts(entries, "tool_call_id"@, 2);
    the_first_entry_counts(entries, "kind"@, 3);
    the_first_entry_counts(entries, "name"@, 4);
    the_first_entry_counts(entries, "detail"@, 5);
    the_first_entry_counts(entries, "status"@, 6);
}

} // verus!

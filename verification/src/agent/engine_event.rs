//! Engine events as they stand on the lines of a run's event file.
//!
//! A line is one JSON document. The fields that the progress view consumes are
//! read from it; fields that nothing consumes are ignored, so that additions on
//! the engine's side never break the view. A field that is consumed may be given
//! once only. A document may also list its fields by position, with the event type
//! in front.

use crate::json::{
    count_of, distinct_keys, entry_of, get, scalar_text, text_of, Json, NumberTree, Tree,
};
use crate::text::{decimal, same};
use vstd::prelude::*;

verus! {

/// The task of an action.
#[derive(Debug, PartialEq, Eq)]
pub struct RawTask {
    pub kind: String,
    pub task_scope: String,
    pub max_retry_rounds: Option<u64>,
}

/// The action that an event is about.
#[derive(Debug, PartialEq, Eq)]
pub struct RawAction {
    pub kind: String,
    pub name: String,
    pub skill_args: Json,
    pub task: Option<RawTask>,
    pub expected_artifacts: Vec<String>,
}

/// One engine event.
#[derive(Debug, PartialEq, Eq)]
pub enum RawEvent {
    RunStarted { workflow: String, params: Vec<(String, String)>, verbose: bool },
    ActionStarted { action_id: String, action: RawAction },
    ActionCompleted { action_id: String, action: RawAction, result: Json },
    WorkflowDone { reason: String, outcome: Option<Json> },
    WorkflowAborted { category: String, reason: String, user_remediation: Option<String> },
    WorkflowEscalated { reason: String, outcome: Option<Json> },
    /// Any other event type. It is read, but nothing is shown for it.
    Other,
}

/// The content of a [`RawTask`].
pub struct TaskView {
    pub kind: Seq<char>,
    pub task_scope: Seq<char>,
    pub max_retry_rounds: Option<u64>,
}

/// The content of a [`RawAction`].
pub struct ActionView {
    pub kind: Seq<char>,
    pub name: Seq<char>,
    pub skill_args: Tree,
    pub task: Option<TaskView>,
    pub expected_artifacts: Seq<Seq<char>>,
}

/// The content of a [`RawEvent`].
pub enum EventView {
    RunStarted { workflow: Seq<char>, params: Seq<(Seq<char>, Seq<char>)>, verbose: bool },
    ActionStarted { action_id: Seq<char>, action: ActionView },
    ActionCompleted { action_id: Seq<char>, action: ActionView, result: Tree },
    WorkflowDone { reason: Seq<char>, outcome: Option<Tree> },
    WorkflowAborted {
        category: Seq<char>,
        reason: Seq<char>,
        user_remediation: Option<Seq<char>>,
    },
    WorkflowEscalated { reason: Seq<char>, outcome: Option<Tree> },
    Other,
}

impl DeepView for RawTask {
    type V = TaskView;

    open spec fn deep_view(&self) -> TaskView {
        TaskView {
            kind: self.kind@,
            task_scope: self.task_scope@,
            max_retry_rounds: self.max_retry_rounds,
        }
    }
}

impl DeepView for RawAction {
    type V = ActionView;

    open spec fn deep_view(&self) -> ActionView {
        ActionView {
            kind: self.kind@,
            name: self.name@,
            skill_args: self.skill_args.tree(),
            task: self.task.deep_view(),
            expected_artifacts: self.expected_artifacts.deep_view(),
        }
    }
}

impl DeepView for RawEvent {
    type V = EventView;

    open spec fn deep_view(&self) -> EventView {
        match self {
            RawEvent::RunStarted { workflow, params, verbose } => EventView::RunStarted {
                workflow: workflow@,
                params: params.deep_view(),
                verbose: *verbose,
            },
            RawEvent::ActionStarted { action_id, action } => EventView::ActionStarted {
                action_id: action_id@,
                action: action.deep_view(),
            },
            RawEvent::ActionCompleted { action_id, action, result } => EventView::ActionCompleted {
                action_id: action_id@,
                action: action.deep_view(),
                result: result.tree(),
            },
            RawEvent::WorkflowDone { reason, outcome } => EventView::WorkflowDone {
                reason: reason@,
                outcome: outcome.deep_view(),
            },
            RawEvent::WorkflowAborted { category, reason, user_remediation } =>
            EventView::WorkflowAborted {
                category: category@,
                reason: reason@,
                user_remediation: user_remediation.deep_view(),
            },
            RawEvent::WorkflowEscalated { reason, outcome } => EventView::WorkflowEscalated {
                reason: reason@,
                outcome: outcome.deep_view(),
            },
            RawEvent::Other => EventView::Other,
        }
    }
}

/// The field of a document: by its key in an object, by its position in a list.
pub open spec fn slot(tree: Tree, key: Seq<char>, at: int) -> Option<Tree> {
    match tree {
        Tree::Object(entries) => entry_of(entries, key),
        Tree::List(items) => if 0 <= at < items.len() {
            Some(items[at])
        } else {
            None
        },
        _ => None,
    }
}

/// How often an object gives a key.
pub open spec fn times_given(entries: Seq<(Seq<char>, Tree)>, key: Seq<char>) -> nat
    decreases entries.len(),
{
    if entries.len() == 0 {
        0
    } else if entries[0].0 == key {
        1 + times_given(entries.drop_first(), key)
    } else {
        times_given(entries.drop_first(), key)
    }
}

/// Whether a document can hold the fields of a record, which are given in their
/// order: an object that gives none of them twice, or a list with no more items
/// than there are fields.
pub open spec fn holds_record(tree: Tree, fields: Seq<Seq<char>>) -> bool {
    match tree {
        Tree::Object(entries) => forall|i: int|
            0 <= i < fields.len() ==> times_given(entries, #[trigger] fields[i]) <= 1,
        Tree::List(items) => items.len() <= fields.len(),
        _ => false,
    }
}

/// A text field. A missing one is empty; anything but a text is refused.
pub open spec fn text_field(field: Option<Tree>) -> Option<Seq<char>> {
    match field {
        None => Some(Seq::empty()),
        Some(Tree::Text(t)) => Some(t),
        Some(_) => None,
    }
}

/// A text field that may be absent or null.
pub open spec fn optional_text_field(field: Option<Tree>) -> Option<Option<Seq<char>>> {
    match field {
        None => Some(None),
        Some(Tree::Null) => Some(None),
        Some(Tree::Text(t)) => Some(Some(t)),
        Some(_) => None,
    }
}

/// A truth value. A missing one is false.
pub open spec fn bool_field(field: Option<Tree>) -> Option<bool> {
    match field {
        None => Some(false),
        Some(Tree::Bool(b)) => Some(b),
        Some(_) => None,
    }
}

/// A whole number from zero up that may be absent or null.
pub open spec fn optional_count_field(field: Option<Tree>) -> Option<Option<u64>> {
    match field {
        None => Some(None),
        Some(Tree::Null) => Some(None),
        Some(Tree::Number(n)) => match count_of(n) {
            Some(count) => Some(Some(count)),
            None => None,
        },
        Some(_) => None,
    }
}

/// Any document. A missing one is null.
pub open spec fn any_field(field: Option<Tree>) -> Tree {
    match field {
        None => Tree::Null,
        Some(tree) => tree,
    }
}

/// Any document, where null counts as absent.
pub open spec fn optional_any_field(field: Option<Tree>) -> Option<Tree> {
    match field {
        None => None,
        Some(Tree::Null) => None,
        Some(tree) => Some(tree),
    }
}

/// The texts of a list that holds nothing else.
pub open spec fn all_texts(items: Seq<Tree>) -> Option<Seq<Seq<char>>>
    decreases items.len(),
{
    if items.len() == 0 {
        Some(Seq::empty())
    } else {
        match (all_texts(items.drop_last()), items.last()) {
            (Some(texts), Tree::Text(t)) => Some(texts.push(t)),
            _ => None,
        }
    }
}

/// A list of texts. A missing one is empty.
pub open spec fn texts_field(field: Option<Tree>) -> Option<Seq<Seq<char>>> {
    match field {
        None => Some(Seq::empty()),
        Some(Tree::List(items)) => all_texts(items),
        Some(_) => None,
    }
}

/// The entries whose value is a text, a number or a truth value, with the value
/// as text, in the order of the document.
pub open spec fn scalar_entries(entries: Seq<(Seq<char>, Tree)>) -> Seq<(Seq<char>, Seq<char>)>
    decreases entries.len(),
{
    if entries.len() == 0 {
        Seq::empty()
    } else {
        let rest = scalar_entries(entries.drop_last());
        match scalar_text(entries.last().1) {
            Some(text) => rest.push((entries.last().0, text)),
            None => rest,
        }
    }
}

/// The header parameters of a run: an object. A missing one is empty.
pub open spec fn params_field(field: Option<Tree>) -> Option<Seq<(Seq<char>, Seq<char>)>> {
    match field {
        None => Some(Seq::empty()),
        Some(Tree::Object(entries)) => Some(scalar_entries(entries)),
        Some(_) => None,
    }
}

/// The fields of a task.
pub open spec fn task_fields() -> Seq<Seq<char>> {
    seq!["kind"@, "task_scope"@, "max_retry_rounds"@]
}

/// The fields of an action.
pub open spec fn action_fields() -> Seq<Seq<char>> {
    seq!["kind"@, "name"@, "skill_args"@, "task"@, "expected_artifacts"@]
}

/// The fields of an event that tells that a run began.
pub open spec fn run_started_fields() -> Seq<Seq<char>> {
    seq!["type"@, "workflow"@, "params"@, "verbose"@]
}

/// The fields of an event that tells that an action began.
pub open spec fn action_started_fields() -> Seq<Seq<char>> {
    seq!["type"@, "action_id"@, "action"@]
}

/// The fields of an event that tells that an action ended.
pub open spec fn action_completed_fields() -> Seq<Seq<char>> {
    seq!["type"@, "action_id"@, "action"@, "result"@]
}

/// The fields of an event that tells that a run is done or was escalated.
pub open spec fn ended_fields() -> Seq<Seq<char>> {
    seq!["type"@, "reason"@, "outcome"@]
}

/// The fields of an event that tells that a run was aborted.
pub open spec fn aborted_fields() -> Seq<Seq<char>> {
    seq!["type"@, "category"@, "reason"@, "user_remediation"@]
}

/// The task that a document describes.
pub open spec fn task_in(tree: Tree) -> Option<TaskView> {
    let kind = text_field(slot(tree, "kind"@, 0));
    let task_scope = text_field(slot(tree, "task_scope"@, 1));
    let max_retry_rounds = optional_count_field(slot(tree, "max_retry_rounds"@, 2));
    if holds_record(tree, task_fields()) && kind is Some && task_scope is Some
        && max_retry_rounds is Some {
        Some(
            TaskView {
                kind: kind->0,
                task_scope: task_scope->0,
                max_retry_rounds: max_retry_rounds->0,
            },
        )
    } else {
        None
    }
}

/// A task that may be absent or null.
pub open spec fn optional_task_field(field: Option<Tree>) -> Option<Option<TaskView>> {
    match field {
        None => Some(None),
        Some(Tree::Null) => Some(None),
        Some(tree) => match task_in(tree) {
            Some(task) => Some(Some(task)),
            None => None,
        },
    }
}

/// The action that a document describes.
pub open spec fn action_in(tree: Tree) -> Option<ActionView> {
    let kind = text_field(slot(tree, "kind"@, 0));
    let name = text_field(slot(tree, "name"@, 1));
    let task = optional_task_field(slot(tree, "task"@, 3));
    let expected = texts_field(slot(tree, "expected_artifacts"@, 4));
    if holds_record(tree, action_fields()) && kind is Some && name is Some && task is Some
        && expected is Some {
        Some(
            ActionView {
                kind: kind->0,
                name: name->0,
                skill_args: any_field(slot(tree, "skill_args"@, 2)),
                task: task->0,
                expected_artifacts: expected->0,
            },
        )
    } else {
        None
    }
}

/// An action without any content.
pub open spec fn no_action() -> ActionView {
    ActionView {
        kind: Seq::empty(),
        name: Seq::empty(),
        skill_args: Tree::Null,
        task: None,
        expected_artifacts: Seq::empty(),
    }
}

/// An action. A missing one has no content.
pub open spec fn action_field(field: Option<Tree>) -> Option<ActionView> {
    match field {
        None => Some(no_action()),
        Some(tree) => action_in(tree),
    }
}

/// The event that a document describes; nothing where the type is missing or a
/// field that is consumed has the wrong shape or is given twice.
pub open spec fn event_in(tree: Tree) -> Option<EventView> {
    match text_of(slot(tree, "type"@, 0)) {
        None => None,
        Some(tag) => if tag == "run_started"@ {
            let workflow = text_field(slot(tree, "workflow"@, 1));
            let params = params_field(slot(tree, "params"@, 2));
            let verbose = bool_field(slot(tree, "verbose"@, 3));
            if holds_record(tree, run_started_fields()) && workflow is Some && params is Some
                && verbose is Some {
                Some(
                    EventView::RunStarted {
                        workflow: workflow->0,
                        params: params->0,
                        verbose: verbose->0,
                    },
                )
            } else {
                None
            }
        } else if tag == "action_started"@ {
            let action_id = text_field(slot(tree, "action_id"@, 1));
            let action = action_field(slot(tree, "action"@, 2));
            if holds_record(tree, action_started_fields()) && action_id is Some && action is Some {
                Some(EventView::ActionStarted { action_id: action_id->0, action: action->0 })
            } else {
                None
            }
        } else if tag == "action_completed"@ {
            let action_id = text_field(slot(tree, "action_id"@, 1));
            let action = action_field(slot(tree, "action"@, 2));
            if holds_record(tree, action_completed_fields()) && action_id is Some
                && action is Some {
                Some(
                    EventView::ActionCompleted {
                        action_id: action_id->0,
                        action: action->0,
                        result: any_field(slot(tree, "result"@, 3)),
                    },
                )
            } else {
                None
            }
        } else if tag == "workflow_done"@ {
            let reason = text_field(slot(tree, "reason"@, 1));
            if holds_record(tree, ended_fields()) && reason is Some {
                Some(
                    EventView::WorkflowDone {
                        reason: reason->0,
                        outcome: optional_any_field(slot(tree, "outcome"@, 2)),
                    },
                )
            } else {
                None
            }
        } else if tag == "workflow_aborted"@ {
            let category = text_field(slot(tree, "category"@, 1));
            let reason = text_field(slot(tree, "reason"@, 2));
            let remediation = optional_text_field(slot(tree, "user_remediation"@, 3));
            if holds_record(tree, aborted_fields()) && category is Some && reason is Some
                && remediation is Some {
                Some(
                    EventView::WorkflowAborted {
                        category: category->0,
                        reason: reason->0,
                        user_remediation: remediation->0,
                    },
                )
            } else {
                None
            }
        } else if tag == "workflow_escalated"@ {
            let reason = text_field(slot(tree, "reason"@, 1));
            if holds_record(tree, ended_fields()) && reason is Some {
                Some(
                    EventView::WorkflowEscalated {
                        reason: reason->0,
                        outcome: optional_any_field(slot(tree, "outcome"@, 2)),
                    },
                )
            } else {
                None
            }
        } else {
            Some(EventView::Other)
        },
    }
}

/// [`slot`]: the field of a document.
pub fn slot_at<'a>(json: &'a Json, key: &str, at: usize) -> (r: Option<&'a Json>)
    ensures
        match r {
            Some(below) => slot(json.tree(), key@, at as int) == Some(below.tree()),
            None => slot(json.tree(), key@, at as int) is None,
        },
{
    match json {
        Json::Object(_) => json.get(key),
        Json::List(items) => if at < items.len() {
            assert(json.tree()->List_0[at as int] == items@[at as int].tree());
            Some(&items[at])
        } else {
            None
        },
        _ => None,
    }
}

/// The content of a field that may be missing.
pub open spec fn field_tree(field: Option<&Json>) -> Option<Tree> {
    match field {
        Some(json) => Some(json.tree()),
        None => None,
    }
}

fn given_twice(entries: &Vec<(String, Json)>, key: &str) -> (r: bool)
    ensures
        r == (times_given(Json::Object(*entries).tree()->Object_0, key@) > 1),
{
    let ghost all = Json::Object(*entries).tree()->Object_0;
    let mut seen = false;
    let mut i: usize = 0;
    assert(all.skip(0) =~= all);
    while i < entries.len()
        invariant
            i <= entries@.len(),
            all == Json::Object(*entries).tree()->Object_0,
            times_given(all, key@) == times_given(all.skip(i as int), key@) + if seen {
                1nat
            } else {
                0nat
            },
        decreases entries@.len() - i,
    {
        proof {
            assert(all[i as int] == (entries@[i as int].0@, entries@[i as int].1.tree()));
            assert(all.skip(i as int).drop_first() =~= all.skip(i as int + 1));
        }
        if same(entries[i].0.as_str(), key) {
            if seen {
                return true;
            }
            seen = true;
        }
        i = i + 1;
    }
    false
}

/// [`holds_record`]: whether a document can hold the fields of a record.
pub fn can_hold_record(json: &Json, fields: Vec<&'static str>) -> (r: bool)
    ensures
        r == holds_record(json.tree(), fields.deep_view()),
{
    match json {
        Json::Object(entries) => {
            let ghost keys = fields.deep_view();
            let mut i: usize = 0;
            while i < fields.len()
                invariant
                    i <= fields@.len(),
                    keys == fields.deep_view(),
                    json.tree() == Json::Object(*entries).tree(),
                    forall|j: int|
                        0 <= j < i ==> times_given(
                            json.tree()->Object_0,
                            #[trigger] keys[j],
                        ) <= 1,
                decreases fields@.len() - i,
            {
                assert(keys[i as int] == fields@[i as int]@);
                if given_twice(entries, fields[i]) {
                    return false;
                }
                i = i + 1;
            }
            true
        },
        Json::List(items) => items.len() <= fields.len(),
        _ => false,
    }
}

/// [`text_field`]: a text field, empty where it is missing.
pub fn read_text(field: Option<&Json>) -> (r: Option<String>)
    ensures
        r.deep_view() == text_field(field_tree(field)),
{
    match field {
        None => {
            let empty = String::new();
            assert(empty@ =~= Seq::empty());
            Some(empty)
        },
        Some(Json::Text(t)) => Some(t.clone()),
        Some(_) => None,
    }
}

/// [`optional_text_field`]: a text field that may be absent or null.
pub fn read_optional_text(field: Option<&Json>) -> (r: Option<Option<String>>)
    ensures
        r.deep_view() == optional_text_field(field_tree(field)),
{
    match field {
        None => Some(None),
        Some(Json::Null) => Some(None),
        Some(Json::Text(t)) => Some(Some(t.clone())),
        Some(_) => None,
    }
}

fn read_bool(field: Option<&Json>) -> (r: Option<bool>)
    ensures
        r == bool_field(field_tree(field)),
{
    match field {
        None => Some(false),
        Some(Json::Bool(b)) => Some(*b),
        Some(_) => None,
    }
}

fn read_optional_count(field: Option<&Json>) -> (r: Option<Option<u64>>)
    ensures
        r == optional_count_field(field_tree(field)),
{
    match field {
        None => Some(None),
        Some(Json::Null) => Some(None),
        Some(Json::Number(n)) => match n.count() {
            Some(count) => Some(Some(count)),
            None => None,
        },
        Some(_) => None,
    }
}

fn read_any(field: Option<&Json>) -> (r: Json)
    ensures
        r.tree() == any_field(field_tree(field)),
{
    match field {
        None => Json::Null,
        Some(json) => json.copy(),
    }
}

fn read_optional_any(field: Option<&Json>) -> (r: Option<Json>)
    ensures
        r.deep_view() == optional_any_field(field_tree(field)),
{
    match field {
        None => None,
        Some(Json::Null) => None,
        Some(json) => Some(json.copy()),
    }
}

proof fn all_texts_of_prefix(items: Seq<Tree>, n: int)
    requires
        0 <= n <= items.len(),
        all_texts(items) is Some,
    ensures
        all_texts(items.take(n)) is Some,
    decreases items.len(),
{
    if n == items.len() {
        assert(items.take(n) =~= items);
    } else {
        all_texts_of_prefix(items.drop_last(), n);
        assert(items.drop_last().take(n) =~= items.take(n));
    }
}

fn read_texts(field: Option<&Json>) -> (r: Option<Vec<String>>)
    ensures
        r.deep_view() == texts_field(field_tree(field)),
{
    let mut out: Vec<String> = Vec::new();
    assert(out.deep_view() =~= Seq::empty());
    match field {
        None => Some(out),
        Some(Json::List(items)) => {
            let ghost all = Json::List(*items).tree()->List_0;
            let mut i: usize = 0;
            assert(all.take(0) =~= Seq::empty());
            while i < items.len()
                invariant
                    i <= items@.len(),
                    all == Json::List(*items).tree()->List_0,
                    all_texts(all.take(i as int)) == Some(out.deep_view()),
                    field_tree(field) == Some(Tree::List(all)),
                decreases items@.len() - i,
            {
                proof {
                    assert(all[i as int] == items@[i as int].tree());
                    assert(all.take(i as int + 1).drop_last() =~= all.take(i as int));
                }
                match &items[i] {
                    Json::Text(t) => {
                        let ghost before = out.deep_view();
                        out.push(t.clone());
                        assert(out.deep_view() =~= before.push(t@));
                    },
                    _ => {
                        proof {
                            if all_texts(all) is Some {
                                all_texts_of_prefix(all, i as int + 1);
                            }
                        }
                        return None;
                    },
                }
                i = i + 1;
            }
            assert(all.take(i as int) =~= all);
            Some(out)
        },
        Some(_) => None,
    }
}

fn read_params(field: Option<&Json>) -> (r: Option<Vec<(String, String)>>)
    ensures
        r.deep_view() == params_field(field_tree(field)),
{
    let mut out: Vec<(String, String)> = Vec::new();
    assert(out.deep_view() =~= Seq::empty());
    match field {
        None => Some(out),
        Some(Json::Object(entries)) => {
            let ghost all = Json::Object(*entries).tree()->Object_0;
            let mut i: usize = 0;
            assert(all.take(0) =~= Seq::empty());
            while i < entries.len()
                invariant
                    i <= entries@.len(),
                    all == Json::Object(*entries).tree()->Object_0,
                    scalar_entries(all.take(i as int)) == out.deep_view(),
                decreases entries@.len() - i,
            {
                proof {
                    assert(all[i as int] == (entries@[i as int].0@, entries@[i as int].1.tree()));
                    assert(all.take(i as int + 1).drop_last() =~= all.take(i as int));
                }
                match entries[i].1.scalar_to_string() {
                    Some(text) => {
                        let ghost before = out.deep_view();
                        let ghost added = (all[i as int].0, text@);
                        out.push((entries[i].0.clone(), text));
                        assert(out.deep_view() =~= before.push(added));
                    },
                    None => {},
                }
                i = i + 1;
            }
            assert(all.take(i as int) =~= all);
            Some(out)
        },
        Some(_) => None,
    }
}

fn read_task(json: &Json) -> (r: Option<RawTask>)
    ensures
        r.deep_view() == task_in(json.tree()),
{
    let fields: Vec<&'static str> = vec!["kind", "task_scope", "max_retry_rounds"];
    assert(fields.deep_view() =~= task_fields());
    if !can_hold_record(json, fields) {
        return None;
    }
    let kind = read_text(slot_at(json, "kind", 0));
    let task_scope = read_text(slot_at(json, "task_scope", 1));
    let max_retry_rounds = read_optional_count(slot_at(json, "max_retry_rounds", 2));
    match (kind, task_scope, max_retry_rounds) {
        (Some(kind), Some(task_scope), Some(max_retry_rounds)) => Some(
            RawTask { kind, task_scope, max_retry_rounds },
        ),
        _ => None,
    }
}

fn read_optional_task(field: Option<&Json>) -> (r: Option<Option<RawTask>>)
    ensures
        r.deep_view() == optional_task_field(field_tree(field)),
{
    match field {
        None => Some(None),
        Some(Json::Null) => Some(None),
        Some(json) => match read_task(json) {
            Some(task) => Some(Some(task)),
            None => None,
        },
    }
}

fn read_action(field: Option<&Json>) -> (r: Option<RawAction>)
    ensures
        r.deep_view() == action_field(field_tree(field)),
{
    match field {
        None => {
            let none = RawAction {
                kind: String::new(),
                name: String::new(),
                skill_args: Json::Null,
                task: None,
                expected_artifacts: Vec::new(),
            };
            proof {
                assert(none.kind@ =~= Seq::empty());
                assert(none.name@ =~= Seq::empty());
                assert(none.expected_artifacts.deep_view() =~= Seq::empty());
            }
            Some(none)
        },
        Some(json) => {
            let fields: Vec<&'static str> = vec![
                "kind",
                "name",
                "skill_args",
                "task",
                "expected_artifacts",
            ];
            assert(fields.deep_view() =~= action_fields());
            if !can_hold_record(json, fields) {
                return None;
            }
            let kind = read_text(slot_at(json, "kind", 0));
            let name = read_text(slot_at(json, "name", 1));
            let skill_args = read_any(slot_at(json, "skill_args", 2));
            let task = read_optional_task(slot_at(json, "task", 3));
            let expected_artifacts = read_texts(slot_at(json, "expected_artifacts", 4));
            match (kind, name, task, expected_artifacts) {
                (Some(kind), Some(name), Some(task), Some(expected_artifacts)) => Some(
                    RawAction { kind, name, skill_args, task, expected_artifacts },
                ),
                _ => None,
            }
        },
    }
}

fn read_run_started(json: &Json) -> (r: Option<RawEvent>)
    requires
        text_of(slot(json.tree(), "type"@, 0)) == Some("run_started"@),
    ensures
        r.deep_view() == event_in(json.tree()),
{
    let fields: Vec<&'static str> = vec!["type", "workflow", "params", "verbose"];
    assert(fields.deep_view() =~= run_started_fields());
    if !can_hold_record(json, fields) {
        return None;
    }
    let workflow = read_text(slot_at(json, "workflow", 1));
    let params = read_params(slot_at(json, "params", 2));
    let verbose = read_bool(slot_at(json, "verbose", 3));
    match (workflow, params, verbose) {
        (Some(workflow), Some(params), Some(verbose)) => Some(
            RawEvent::RunStarted { workflow, params, verbose },
        ),
        _ => None,
    }
}

/// [`event_in`]: the event that a document describes.
pub fn read_event(json: &Json) -> (r: Option<RawEvent>)
    ensures
        r.deep_view() == event_in(json.tree()),
{
    let tag = match slot_at(json, "type", 0) {
        Some(Json::Text(tag)) => tag.as_str(),
        _ => {
            return None;
        },
    };
    proof {
        reveal_strlit("run_started");
        reveal_strlit("action_started");
        reveal_strlit("action_completed");
        reveal_strlit("workflow_done");
        reveal_strlit("workflow_aborted");
        reveal_strlit("workflow_escalated");
    }
    if same(tag, "run_started") {
        read_run_started(json)
    } else if same(tag, "action_started") {
        let fields: Vec<&'static str> = vec!["type", "action_id", "action"];
        assert(fields.deep_view() =~= action_started_fields());
        if !can_hold_record(json, fields) {
            return None;
        }
        let action_id = read_text(slot_at(json, "action_id", 1));
        let action = read_action(slot_at(json, "action", 2));
        match (action_id, action) {
            (Some(action_id), Some(action)) => Some(RawEvent::ActionStarted { action_id, action }),
            _ => None,
        }
    } else if same(tag, "action_completed") {
        let fields: Vec<&'static str> = vec!["type", "action_id", "action", "result"];
        assert(fields.deep_view() =~= action_completed_fields());
        if !can_hold_record(json, fields) {
            return None;
        }
        let action_id = read_text(slot_at(json, "action_id", 1));
        let action = read_action(slot_at(json, "action", 2));
        let result = read_any(slot_at(json, "result", 3));
        match (action_id, action) {
            (Some(action_id), Some(action)) => Some(
                RawEvent::ActionCompleted { action_id, action, result },
            ),
            _ => None,
        }
    } else if same(tag, "workflow_done") {
        let fields: Vec<&'static str> = vec!["type", "reason", "outcome"];
        assert(fields.deep_view() =~= ended_fields());
        if !can_hold_record(json, fields) {
            return None;
        }
        let outcome = read_optional_any(slot_at(json, "outcome", 2));
        match read_text(slot_at(json, "reason", 1)) {
            Some(reason) => Some(RawEvent::WorkflowDone { reason, outcome }),
            None => None,
        }
    } else if same(tag, "workflow_aborted") {
        let fields: Vec<&'static str> = vec!["type", "category", "reason", "user_remediation"];
        assert(fields.deep_view() =~= aborted_fields());
        if !can_hold_record(json, fields) {
            return None;
        }
        let category = read_text(slot_at(json, "category", 1));
        let reason = read_text(slot_at(json, "reason", 2));
        let user_remediation = read_optional_text(slot_at(json, "user_remediation", 3));
        match (category, reason, user_remediation) {
            (Some(category), Some(reason), Some(user_remediation)) => Some(
                RawEvent::WorkflowAborted { category, reason, user_remediation },
            ),
            _ => None,
        }
    } else if same(tag, "workflow_escalated") {
        let fields: Vec<&'static str> = vec!["type", "reason", "outcome"];
        assert(fields.deep_view() =~= ended_fields());
        if !can_hold_record(json, fields) {
            return None;
        }
        let outcome = read_optional_any(slot_at(json, "outcome", 2));
        match read_text(slot_at(json, "reason", 1)) {
            Some(reason) => Some(RawEvent::WorkflowEscalated { reason, outcome }),
            None => None,
        }
    } else {
        Some(RawEvent::Other)
    }
}

/// Whether a key names a field of an event that is consumed.
pub open spec fn is_consumed(key: Seq<char>) -> bool {
    ||| key == "type"@
    ||| key == "workflow"@
    ||| key == "params"@
    ||| key == "verbose"@
    ||| key == "action_id"@
    ||| key == "action"@
    ||| key == "result"@
    ||| key == "reason"@
    ||| key == "outcome"@
    ||| key == "category"@
    ||| key == "user_remediation"@
}

/// An entry under another key makes no difference to a look-up.
pub proof fn other_entries_make_no_difference(
    before: Seq<(Seq<char>, Tree)>,
    other: (Seq<char>, Tree),
    after: Seq<(Seq<char>, Tree)>,
    key: Seq<char>,
)
    requires
        other.0 != key,
    ensures
        entry_of(before + seq![other] + after, key) == entry_of(before + after, key),
        times_given(before + seq![other] + after, key) == times_given(before + after, key),
    decreases before.len(),
{
    let with = before + seq![other] + after;
    let without = before + after;
    if before.len() == 0 {
        assert(with[0] == other);
        assert(with.drop_first() =~= without);
    } else {
        assert(with[0] == before[0] && without[0] == before[0]);
        assert(with.drop_first() =~= before.drop_first() + seq![other] + after);
        assert(without.drop_first() =~= before.drop_first() + after);
        other_entries_make_no_difference(before.drop_first(), other, after, key);
    }
}

/// An entry under another key than those of the fields makes no difference to
/// whether an object can hold a record.
pub proof fn other_entries_keep_the_record(
    before: Seq<(Seq<char>, Tree)>,
    other: (Seq<char>, Tree),
    after: Seq<(Seq<char>, Tree)>,
    fields: Seq<Seq<char>>,
)
    requires
        forall|i: int| 0 <= i < fields.len() ==> #[trigger] fields[i] != other.0,
    ensures
        holds_record(Tree::Object(before + seq![other] + after), fields) == holds_record(
            Tree::Object(before + after),
            fields,
        ),
{
    assert forall|i: int| 0 <= i < fields.len() implies times_given(
        before + seq![other] + after,
        #[trigger] fields[i],
    ) == times_given(before + after, fields[i]) by {
        other_entries_make_no_difference(before, other, after, fields[i]);
    }
}

/// Fields that nothing consumes make no difference to an event, wherever they
/// stand and whatever they hold.
pub proof fn unknown_fields_are_ignored(
    before: Seq<(Seq<char>, Tree)>,
    unknown: (Seq<char>, Tree),
    after: Seq<(Seq<char>, Tree)>,
)
    requires
        !is_consumed(unknown.0),
    ensures
        event_in(Tree::Object(before + seq![unknown] + after)) == event_in(
            Tree::Object(before + after),
        ),
{
    other_entries_make_no_difference(before, unknown, after, "type"@);
    other_entries_make_no_difference(before, unknown, after, "workflow"@);
    other_entries_make_no_difference(before, unknown, after, "params"@);
    other_entries_make_no_difference(before, unknown, after, "verbose"@);
    other_entries_make_no_difference(before, unknown, after, "action_id"@);
    other_entries_make_no_difference(before, unknown, after, "action"@);
    other_entries_make_no_difference(before, unknown, after, "result"@);
    other_entries_make_no_difference(before, unknown, after, "reason"@);
    other_entries_make_no_difference(before, unknown, after, "outcome"@);
    other_entries_make_no_difference(before, unknown, after, "category"@);
    other_entries_make_no_difference(before, unknown, after, "user_remediation"@);
    other_entries_keep_the_record(before, unknown, after, run_started_fields());
    other_entries_keep_the_record(before, unknown, after, action_started_fields());
    other_entries_keep_the_record(before, unknown, after, action_completed_fields());
    other_entries_keep_the_record(before, unknown, after, ended_fields());
    other_entries_keep_the_record(before, unknown, after, aborted_fields());
}

/// Fields of an action that nothing consumes make no difference to it.
pub proof fn unknown_action_fields_are_ignored(
    before: Seq<(Seq<char>, Tree)>,
    unknown: (Seq<char>, Tree),
    after: Seq<(Seq<char>, Tree)>,
)
    requires
        unknown.0 != "kind"@,
        unknown.0 != "name"@,
        unknown.0 != "skill_args"@,
        unknown.0 != "task"@,
        unknown.0 != "expected_artifacts"@,
    ensures
        action_in(Tree::Object(before + seq![unknown] + after)) == action_in(
            Tree::Object(before + after),
        ),
{
    other_entries_make_no_difference(before, unknown, after, "kind"@);
    other_entries_make_no_difference(before, unknown, after, "name"@);
    other_entries_make_no_difference(before, unknown, after, "skill_args"@);
    other_entries_make_no_difference(before, unknown, after, "task"@);
    other_entries_make_no_difference(before, unknown, after, "expected_artifacts"@);
    other_entries_keep_the_record(before, unknown, after, action_fields());
}

/// Fields of a task that nothing consumes make no difference to it.
pub proof fn unknown_task_fields_are_ignored(
    before: Seq<(Seq<char>, Tree)>,
    unknown: (Seq<char>, Tree),
    after: Seq<(Seq<char>, Tree)>,
)
    requires
        unknown.0 != "kind"@,
        unknown.0 != "task_scope"@,
        unknown.0 != "max_retry_rounds"@,
    ensures
        task_in(Tree::Object(before + seq![unknown] + after)) == task_in(
            Tree::Object(before + after),
        ),
{
    other_entries_make_no_difference(before, unknown, after, "kind"@);
    other_entries_make_no_difference(before, unknown, after, "task_scope"@);
    other_entries_make_no_difference(before, unknown, after, "max_retry_rounds"@);
    other_entries_keep_the_record(before, unknown, after, task_fields());
}

/// The fields of an event by its type, the type among them.
pub open spec fn event_fields(tag: Seq<char>) -> Seq<Seq<char>> {
    if tag == "run_started"@ {
        run_started_fields()
    } else if tag == "action_started"@ {
        action_started_fields()
    } else if tag == "action_completed"@ {
        action_completed_fields()
    } else if tag == "workflow_done"@ {
        ended_fields()
    } else if tag == "workflow_aborted"@ {
        aborted_fields()
    } else if tag == "workflow_escalated"@ {
        ended_fields()
    } else {
        Seq::empty()
    }
}

/// An event, an action or a task that gives one of its fields twice is refused.
pub proof fn repeated_fields_are_refused(entries: Seq<(Seq<char>, Tree)>, key: Seq<char>)
    requires
        times_given(entries, key) > 1,
    ensures
        text_of(entry_of(entries, "type"@)) matches Some(tag) ==> event_fields(tag).contains(key)
            ==> event_in(Tree::Object(entries)) is None,
        action_fields().contains(key) ==> action_in(Tree::Object(entries)) is None,
        task_fields().contains(key) ==> task_in(Tree::Object(entries)) is None,
{
    if let Some(tag) = text_of(entry_of(entries, "type"@)) {
        if event_fields(tag).contains(key) {
            let i = choose|i: int| 0 <= i < event_fields(tag).len() && event_fields(tag)[i] == key;
            assert(times_given(entries, event_fields(tag)[i]) > 1);
            assert(!holds_record(Tree::Object(entries), event_fields(tag)));
        }
    }
}

/// The header parameters keep the order of the document, each as often as it is
/// given.
pub proof fn params_keep_their_order(
    first: Seq<(Seq<char>, Tree)>,
    second: Seq<(Seq<char>, Tree)>,
)
    ensures
        scalar_entries(first + second) == scalar_entries(first) + scalar_entries(second),
    decreases second.len(),
{
    if second.len() == 0 {
        assert(first + second =~= first);
        assert(scalar_entries(first) + scalar_entries(second) =~= scalar_entries(first));
    } else {
        params_keep_their_order(first, second.drop_last());
        assert((first + second).drop_last() =~= first + second.drop_last());
        assert((first + second).last() == second.last());
        assert(scalar_entries(first + second) =~= scalar_entries(first) + scalar_entries(second));
    }
}

/// Whether a document is an object that gives no key twice.
pub open spec fn is_plain_record(tree: Tree) -> bool {
    tree matches Tree::Object(entries) && distinct_keys(entries)
}

/// Whether a document says a text under a key; to say nothing is to say an empty text.
pub open spec fn says_text(tree: Tree, key: Seq<char>, text: Seq<char>) -> bool {
    match get(tree, key) {
        Some(below) => below == Tree::Text(text),
        None => text.len() == 0,
    }
}

/// Whether a document says a text under a key that may be missing or null.
pub open spec fn may_say_text(tree: Tree, key: Seq<char>, text: Option<Seq<char>>) -> bool {
    match text {
        Some(t) => get(tree, key) == Some(Tree::Text(t)),
        None => get(tree, key) is None || get(tree, key) == Some(Tree::Null),
    }
}

/// Whether a document describes a task.
pub open spec fn describes_task(tree: Tree, task: TaskView) -> bool {
    &&& is_plain_record(tree)
    &&& says_text(tree, "kind"@, task.kind)
    &&& says_text(tree, "task_scope"@, task.task_scope)
    &&& match task.max_retry_rounds {
        Some(n) => get(tree, "max_retry_rounds"@) == Some(Tree::Number(NumberTree::Unsigned(n))),
        None => get(tree, "max_retry_rounds"@) is None || get(tree, "max_retry_rounds"@) == Some(
            Tree::Null,
        ),
    }
}

/// Whether a list holds the texts, and nothing else.
pub open spec fn lists_texts(items: Seq<Tree>, texts: Seq<Seq<char>>) -> bool {
    &&& items.len() == texts.len()
    &&& forall|i: int| 0 <= i < items.len() ==> #[trigger] items[i] == Tree::Text(texts[i])
}

/// Whether a document describes an action.
pub open spec fn describes_action(tree: Tree, action: ActionView) -> bool {
    &&& is_plain_record(tree)
    &&& says_text(tree, "kind"@, action.kind)
    &&& says_text(tree, "name"@, action.name)
    &&& match get(tree, "skill_args"@) {
        Some(below) => below == action.skill_args,
        None => action.skill_args is Null,
    }
    &&& match action.task {
        Some(task) => get(tree, "task"@) matches Some(below) && describes_task(below, task),
        None => get(tree, "task"@) is None || get(tree, "task"@) == Some(Tree::Null),
    }
    &&& match get(tree, "expected_artifacts"@) {
        Some(below) => below matches Tree::List(items) && lists_texts(
            items,
            action.expected_artifacts,
        ),
        None => action.expected_artifacts.len() == 0,
    }
}

/// An object that gives no key twice gives each at most once.
pub proof fn distinct_keys_are_given_once(entries: Seq<(Seq<char>, Tree)>, key: Seq<char>)
    requires
        distinct_keys(entries),
    ensures
        times_given(entries, key) <= 1,
        times_given(entries, key) == 0 <==> entry_of(entries, key) is None,
    decreases entries.len(),
{
    if entries.len() > 0 {
        let rest = entries.drop_first();
        assert forall|i: int, j: int| 0 <= i < j < rest.len() implies (#[trigger] rest[i]).0 != (
        #[trigger] rest[j]).0 by {
            assert(rest[i] == entries[i + 1] && rest[j] == entries[j + 1]);
        }
        distinct_keys_are_given_once(rest, key);
        if entries[0].0 == key {
            key_is_not_given(rest, key);
        }
    }
}

proof fn key_is_not_given(entries: Seq<(Seq<char>, Tree)>, key: Seq<char>)
    requires
        forall|i: int| 0 <= i < entries.len() ==> (#[trigger] entries[i]).0 != key,
    ensures
        times_given(entries, key) == 0,
    decreases entries.len(),
{
    if entries.len() > 0 {
        assert(entries[0].0 != key);
        key_is_not_given(entries.drop_first(), key);
    }
}

/// An object that gives no key twice can hold any record.
pub proof fn plain_records_hold_any_fields(tree: Tree, fields: Seq<Seq<char>>)
    requires
        is_plain_record(tree),
    ensures
        holds_record(tree, fields),
{
    let entries = tree->Object_0;
    assert forall|i: int| 0 <= i < fields.len() implies times_given(
        entries,
        #[trigger] fields[i],
    ) <= 1 by {
        distinct_keys_are_given_once(entries, fields[i]);
    }
}

proof fn listed_texts_are_read(items: Seq<Tree>, texts: Seq<Seq<char>>)
    requires
        lists_texts(items, texts),
    ensures
        all_texts(items) == Some(texts),
    decreases items.len(),
{
    if items.len() == 0 {
        assert(texts =~= Seq::empty());
    } else {
        assert(items[items.len() - 1] == Tree::Text(texts[texts.len() - 1]));
        assert forall|i: int| 0 <= i < items.drop_last().len() implies #[trigger] items.drop_last()[i]
            == Tree::Text(texts.drop_last()[i]) by {
            assert(items[i] == Tree::Text(texts[i]));
        }
        listed_texts_are_read(items.drop_last(), texts.drop_last());
        assert(texts.drop_last().push(texts.last()) =~= texts);
    }
}

/// A text that a document says under a key is read as that text.
pub proof fn said_texts_are_read(tree: Tree, key: Seq<char>, at: int, text: Seq<char>)
    requires
        is_plain_record(tree),
        says_text(tree, key, text),
    ensures
        text_field(slot(tree, key, at)) == Some(text),
{
    if get(tree, key) is None {
        assert(text =~= Seq::empty());
    }
}

/// A task that a document describes is read from it, whatever else the document holds.
pub proof fn described_tasks_are_read(tree: Tree, task: TaskView)
    requires
        describes_task(tree, task),
    ensures
        task_in(tree) == Some(task),
{
    plain_records_hold_any_fields(tree, task_fields());
    said_texts_are_read(tree, "kind"@, 0, task.kind);
    said_texts_are_read(tree, "task_scope"@, 1, task.task_scope);
}

/// An action that a document describes is read from it, whatever else the document holds.
pub proof fn described_actions_are_read(tree: Tree, action: ActionView)
    requires
        describes_action(tree, action),
    ensures
        action_in(tree) == Some(action),
{
    plain_records_hold_any_fields(tree, action_fields());
    said_texts_are_read(tree, "kind"@, 0, action.kind);
    said_texts_are_read(tree, "name"@, 1, action.name);
    if let Some(task) = action.task {
        described_tasks_are_read(get(tree, "task"@)->0, task);
    }
    match get(tree, "expected_artifacts"@) {
        Some(below) => {
            listed_texts_are_read(below->List_0, action.expected_artifacts);
        },
        None => {
            assert(action.expected_artifacts =~= Seq::empty());
        },
    }
}

/// The header parameters show texts as they are, whole numbers by their digits and truth
/// values by their words, each under its key, and pass over everything else.
pub proof fn params_show_simple_values(key: Seq<char>, value: Tree)
    ensures
        ({
            let shown = scalar_entries(seq![(key, value)]);
            match value {
                Tree::Text(text) => shown == seq![(key, text)],
                Tree::Number(NumberTree::Unsigned(n)) => shown == seq![(key, decimal(n as nat))],
                Tree::Bool(true) => shown == seq![(key, "true"@)],
                Tree::Bool(false) => shown == seq![(key, "false"@)],
                Tree::Number(_) => shown.len() == 1 && shown[0].0 == key,
                _ => shown.len() == 0,
            }
        }),
{
    let all = seq![(key, value)];
    assert(all.drop_last() =~= Seq::empty());
    assert(all.last() == (key, value));
    assert(scalar_entries(Seq::empty()) == Seq::<(Seq<char>, Seq<char>)>::empty());
    if let Some(text) = scalar_text(value) {
        assert(Seq::empty().push((key, text)) =~= seq![(key, text)]);
    }
}

/// The types of events are different texts.
pub proof fn event_types_differ()
    ensures
        "run_started"@ != "action_started"@,
        "run_started"@ != "action_completed"@,
        "run_started"@ != "workflow_done"@,
        "run_started"@ != "workflow_aborted"@,
        "run_started"@ != "workflow_escalated"@,
        "action_started"@ != "action_completed"@,
        "action_started"@ != "workflow_done"@,
        "action_started"@ != "workflow_aborted"@,
        "action_started"@ != "workflow_escalated"@,
        "action_completed"@ != "workflow_done"@,
        "action_completed"@ != "workflow_aborted"@,
        "action_completed"@ != "workflow_escalated"@,
        "workflow_done"@ != "workflow_aborted"@,
        "workflow_done"@ != "workflow_escalated"@,
        "workflow_aborted"@ != "workflow_escalated"@,
{
    reveal_strlit("run_started");
    reveal_strlit("action_started");
    reveal_strlit("action_completed");
    reveal_strlit("workflow_done");
    reveal_strlit("workflow_aborted");
    reveal_strlit("workflow_escalated");
    assert("run_started"@.len() == 11);
    assert("action_started"@.len() == 14);
    assert("action_completed"@.len() == 16);
    assert("workflow_done"@.len() == 13);
    assert("workflow_aborted"@.len() == 16);
    assert("workflow_escalated"@.len() == 18);
    assert("action_completed"@[0] == 'a');
    assert("workflow_aborted"@[0] == 'w');
}

/// A field that is consumed and has the wrong shape refuses the event: a name, an id or a
/// reason that is no text, a flag that is no truth value, parameters that are no object, an
/// action that is no record.
pub proof fn wrong_shapes_are_refused(tree: Tree)
    requires
        tree is Object,
    ensures
        ({
            let tag = get(tree, "type"@);
            let no_text = |key: Seq<char>| get(tree, key) matches Some(below) && !(below is Text);
            &&& !(tag matches Some(Tree::Text(_))) ==> event_in(tree) is None
            &&& tag == Some(Tree::Text("run_started"@)) && (no_text("workflow"@) || (get(
                tree,
                "params"@,
            ) matches Some(below) && !(below is Object)) || (get(tree, "verbose"@) matches Some(
                below,
            ) && !(below is Bool))) ==> event_in(tree) is None
            &&& (tag == Some(Tree::Text("action_started"@)) || tag == Some(
                Tree::Text("action_completed"@),
            )) && (no_text("action_id"@) || (get(tree, "action"@) matches Some(below) && !(below
                is Object) && !(below is List))) ==> event_in(tree) is None
            &&& (tag == Some(Tree::Text("workflow_done"@)) || tag == Some(
                Tree::Text("workflow_aborted"@),
            ) || tag == Some(Tree::Text("workflow_escalated"@))) && no_text("reason"@)
                ==> event_in(tree) is None
            &&& tag == Some(Tree::Text("workflow_aborted"@)) && no_text("category"@) ==> event_in(
                tree,
            ) is None
        }),
{
    event_types_differ();
}

/// A document that lists the fields of an event by position says the same as one that gives
/// them by name: behind the type stand, of the start of a run, the workflow, the parameters
/// and the flag, and of an action the id, the action and the result.
pub proof fn position_says_what_a_name_says(one: Tree, two: Tree, three: Tree)
    ensures
        event_in(Tree::List(seq![Tree::Text("run_started"@), one, two, three])) == event_in(
            Tree::Object(
                seq![
                    ("type"@, Tree::Text("run_started"@)),
                    ("workflow"@, one),
                    ("params"@, two),
                    ("verbose"@, three),
                ],
            ),
        ),
        event_in(Tree::List(seq![Tree::Text("action_started"@), one, two])) == event_in(
            Tree::Object(
                seq![
                    ("type"@, Tree::Text("action_started"@)),
                    ("action_id"@, one),
                    ("action"@, two),
                ],
            ),
        ),
        event_in(Tree::List(seq![Tree::Text("action_completed"@), one, two, three])) == event_in(
            Tree::Object(
                seq![
                    ("type"@, Tree::Text("action_completed"@)),
                    ("action_id"@, one),
                    ("action"@, two),
                    ("result"@, three),
                ],
            ),
        ),
{
    event_types_differ();
    field_names_differ();
    reveal_with_fuel(entry_of, 5);
    let run = seq![
        ("type"@, Tree::Text("run_started"@)),
        ("workflow"@, one),
        ("params"@, two),
        ("verbose"@, three),
    ];
    assert(distinct_keys(run));
    plain_records_hold_any_fields(Tree::Object(run), run_started_fields());
    assert(entry_of(run, "workflow"@) == Some(one));
    assert(entry_of(run, "params"@) == Some(two));
    assert(entry_of(run, "verbose"@) == Some(three));
    let start = seq![
        ("type"@, Tree::Text("action_started"@)),
        ("action_id"@, one),
        ("action"@, two),
    ];
    assert(distinct_keys(start));
    plain_records_hold_any_fields(Tree::Object(start), action_started_fields());
    assert(entry_of(start, "action_id"@) == Some(one));
    assert(entry_of(start, "action"@) == Some(two));
    let end = seq![
        ("type"@, Tree::Text("action_completed"@)),
        ("action_id"@, one),
        ("action"@, two),
        ("result"@, three),
    ];
    assert(distinct_keys(end));
    plain_records_hold_any_fields(Tree::Object(end), action_completed_fields());
    assert(entry_of(end, "action_id"@) == Some(one));
    assert(entry_of(end, "action"@) == Some(two));
    assert(entry_of(end, "result"@) == Some(three));
}

/// The same of the end of a run: behind the type stand the reason and the outcome or, where
/// it was aborted, the category, the reason and the advice.
pub proof fn position_says_how_a_run_ended(one: Tree, two: Tree, three: Tree)
    ensures
        event_in(Tree::List(seq![Tree::Text("workflow_done"@), one, two])) == event_in(
            Tree::Object(
                seq![
                    ("type"@, Tree::Text("workflow_done"@)),
                    ("reason"@, one),
                    ("outcome"@, two),
                ],
            ),
        ),
        event_in(Tree::List(seq![Tree::Text("workflow_escalated"@), one, two])) == event_in(
            Tree::Object(
                seq![
                    ("type"@, Tree::Text("workflow_escalated"@)),
                    ("reason"@, one),
                    ("outcome"@, two),
                ],
            ),
        ),
        event_in(Tree::List(seq![Tree::Text("workflow_aborted"@), one, two, three])) == event_in(
            Tree::Object(
                seq![
                    ("type"@, Tree::Text("workflow_aborted"@)),
                    ("category"@, one),
                    ("reason"@, two),
                    ("user_remediation"@, three),
                ],
            ),
        ),
{
    event_types_differ();
    field_names_differ();
    reveal_with_fuel(entry_of, 5);
    let done = seq![
        ("type"@, Tree::Text("workflow_done"@)),
        ("reason"@, one),
        ("outcome"@, two),
    ];
    assert(distinct_keys(done));
    plain_records_hold_any_fields(Tree::Object(done), ended_fields());
    assert(entry_of(done, "reason"@) == Some(one));
    assert(entry_of(done, "outcome"@) == Some(two));
    let escalated = seq![
        ("type"@, Tree::Text("workflow_escalated"@)),
        ("reason"@, one),
        ("outcome"@, two),
    ];
    assert(distinct_keys(escalated));
    plain_records_hold_any_fields(Tree::Object(escalated), ended_fields());
    assert(entry_of(escalated, "reason"@) == Some(one));
    assert(entry_of(escalated, "outcome"@) == Some(two));
    let aborted = seq![
        ("type"@, Tree::Text("workflow_aborted"@)),
        ("category"@, one),
        ("reason"@, two),
        ("user_remediation"@, three),
    ];
    assert(distinct_keys(aborted));
    plain_records_hold_any_fields(Tree::Object(aborted), aborted_fields());
    assert(entry_of(aborted, "category"@) == Some(one));
    assert(entry_of(aborted, "reason"@) == Some(two));
    assert(entry_of(aborted, "user_remediation"@) == Some(three));
}

/// A list with more items than an event of its type has fields is refused.
pub proof fn surplus_items_are_refused(items: Seq<Tree>)
    requires
        items.len() > 4,
        items[0] == Tree::Text("run_started"@) || items[0] == Tree::Text("action_started"@)
            || items[0] == Tree::Text("action_completed"@) || items[0] == Tree::Text(
            "workflow_done"@,
        ) || items[0] == Tree::Text("workflow_aborted"@) || items[0] == Tree::Text(
            "workflow_escalated"@,
        ),
    ensures
        event_in(Tree::List(items)) is None,
{
    event_types_differ();
}

proof fn field_names_differ()
    ensures
        "type"@.len() == 4,
        "workflow"@.len() == 8,
        "params"@.len() == 6,
        "verbose"@.len() == 7,
        "action_id"@.len() == 9,
        "action"@.len() == 6,
        "result"@.len() == 6,
        "reason"@.len() == 6,
        "outcome"@.len() == 7,
        "category"@.len() == 8,
        "user_remediation"@.len() == 16,
        "action"@[0] == 'a',
        "result"@[0] == 'r',
{
    reveal_strlit("type");
    reveal_strlit("workflow");
    reveal_strlit("params");
    reveal_strlit("verbose");
    reveal_strlit("action_id");
    reveal_strlit("action");
    reveal_strlit("result");
    reveal_strlit("reason");
    reveal_strlit("outcome");
    reveal_strlit("category");
    reveal_strlit("user_remediation");
}

/// An action and a task that list their fields by position say the same as ones that give them by
/// name: an action its kind, its name, its arguments, its task and the artifacts that are expected,
/// and a task its kind, its scope and the most rounds.
pub proof fn position_says_what_an_action_is(
    one: Tree,
    two: Tree,
    three: Tree,
    four: Tree,
    five: Tree,
)
    ensures
        action_in(Tree::List(seq![one, two, three, four, five])) == action_in(
            Tree::Object(
                seq![
                    ("kind"@, one),
                    ("name"@, two),
                    ("skill_args"@, three),
                    ("task"@, four),
                    ("expected_artifacts"@, five),
                ],
            ),
        ),
        task_in(Tree::List(seq![one, two, three])) == task_in(
            Tree::Object(
                seq![("kind"@, one), ("task_scope"@, two), ("max_retry_rounds"@, three)],
            ),
        ),
        action_in(Tree::List(seq![one, two, three, four, five, one])) is None,
        task_in(Tree::List(seq![one, two, three, four])) is None,
{
    reveal_strlit("kind");
    reveal_strlit("name");
    reveal_strlit("skill_args");
    reveal_strlit("task");
    reveal_strlit("expected_artifacts");
    reveal_strlit("task_scope");
    reveal_strlit("max_retry_rounds");
    assert("kind"@.len() == 4 && "name"@.len() == 4 && "task"@.len() == 4);
    assert("kind"@[0] == 'k' && "name"@[0] == 'n' && "task"@[0] == 't');
    assert("skill_args"@.len() == 10 && "expected_artifacts"@.len() == 18);
    assert("task_scope"@.len() == 10 && "max_retry_rounds"@.len() == 16);
    let action = seq![
        ("kind"@, one),
        ("name"@, two),
        ("skill_args"@, three),
        ("task"@, four),
        ("expected_artifacts"@, five),
    ];
    assert(distinct_keys(action));
    plain_records_hold_any_fields(Tree::Object(action), action_fields());
    reveal_with_fuel(entry_of, 6);
    assert(entry_of(action, "kind"@) == Some(one));
    assert(entry_of(action, "name"@) == Some(two));
    assert(entry_of(action, "skill_args"@) == Some(three));
    assert(entry_of(action, "task"@) == Some(four));
    assert(entry_of(action, "expected_artifacts"@) == Some(five));
    let task = seq![("kind"@, one), ("task_scope"@, two), ("max_retry_rounds"@, three)];
    assert(distinct_keys(task));
    plain_records_hold_any_fields(Tree::Object(task), task_fields());
    assert(entry_of(task, "kind"@) == Some(one));
    assert(entry_of(task, "task_scope"@) == Some(two));
    assert(entry_of(task, "max_retry_rounds"@) == Some(three));
}

} // verus!

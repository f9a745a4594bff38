//! What print mode writes.
//!
//! In the streaming format every event becomes one JSON object on a line of its
//! own, marked with the version of the format. In the text format only the
//! agent's words are written.

use crate::agent::types::{stored_reason, TerminalReason};
use crate::agent::wire::{name_of, BridgeEvent, BridgeView};
use crate::json::{
    add_entry, distinct_keys, entry_of, get, is_document, object_tree, ordered, parsed_tree,
    printed_text, reads_back, render, text_of, Json, JsonNumber, NumberTree, RenderError, Tree,
    SAFE_DEPTH,
};
use crate::text::same;
use vstd::prelude::*;

verus! {

/// Something that events are written to. What has been written is kept until the
/// caller takes it.
pub trait Emitter {
    /// Writes an event.
    fn emit_event(&mut self, ev: &BridgeEvent) -> Result<(), RenderError>;

    /// Writes a warning.
    fn emit_warning(&mut self, msg: &str) -> Result<(), RenderError>;

    /// Writes an error.
    fn emit_error(&mut self, msg: &str) -> Result<(), RenderError>;

    /// Ends the writing.
    fn finish(&mut self) -> Result<(), RenderError>;

    /// Takes what has been written to standard output so far.
    fn take_output(&mut self) -> String;

    /// Takes what has been written to standard error so far.
    fn take_errors(&mut self) -> String;
}

/// A text as a document.
pub open spec fn text_tree(text: Seq<char>) -> Tree {
    Tree::Text(text)
}

/// A text as a document, or null where it is missing.
pub open spec fn optional_text_tree(text: Option<Seq<char>>) -> Tree {
    match text {
        Some(t) => Tree::Text(t),
        None => Tree::Null,
    }
}

/// The version of the format.
pub open spec fn version_tree() -> Tree {
    Tree::Number(NumberTree::Unsigned(1))
}

/// The stored name of a reason, if there is one.
pub open spec fn reason_text(reason: Option<TerminalReason>) -> Option<Seq<char>> {
    match reason {
        Some(r) => Some(stored_reason(r)),
        None => None,
    }
}

/// The object for the end of a turn. An end without a reason counts as completed.
pub open spec fn turn_complete_tree(
    session_id: Seq<char>,
    reason: Option<TerminalReason>,
) -> Tree {
    let (kind, stored) = match reason {
        None => ("result.success"@, "completed"@),
        Some(TerminalReason::Completed) => ("result.success"@, "completed"@),
        Some(other) => ("result.terminated"@, stored_reason(other)),
    };
    Tree::Object(
        seq![
            ("session_id"@, text_tree(session_id)),
            ("terminal_reason"@, text_tree(stored)),
            ("type"@, text_tree(kind)),
            ("v"@, version_tree()),
        ],
    )
}

/// The object for the start of a session.
pub open spec fn session_tree(session_id: Seq<char>, cwd: Seq<char>, model: Tree) -> Tree {
    Tree::Object(
        seq![
            ("cwd"@, text_tree(cwd)),
            ("model"@, ordered(model)),
            ("session_id"@, text_tree(session_id)),
            ("type"@, text_tree("system.session"@)),
            ("v"@, version_tree()),
        ],
    )
}

/// The object for an error that does not end the session.
pub open spec fn error_event_tree(
    kind: Seq<char>,
    session_id: Seq<char>,
    message: Seq<char>,
) -> Tree {
    Tree::Object(
        seq![
            ("kind"@, text_tree(kind)),
            ("message"@, text_tree(message)),
            ("session_id"@, text_tree(session_id)),
            ("type"@, text_tree("error_event"@)),
            ("v"@, version_tree()),
        ],
    )
}

/// The object that is written for an event. Its entries stand in the order of
/// their keys. Of an event that has no form of its own only the name is written.
pub open spec fn event_tree(event: BridgeView) -> Tree {
    match event {
        BridgeView::Initialized { agent_name, agent_version, capabilities } => Tree::Object(
            seq![
                ("agent_name"@, text_tree(agent_name)),
                ("agent_version"@, text_tree(agent_version)),
                ("capabilities"@, ordered(capabilities)),
                ("type"@, text_tree("system.init"@)),
                ("v"@, version_tree()),
            ],
        ),
        BridgeView::Connected { session_id, cwd, current_model } => session_tree(
            session_id,
            cwd,
            current_model,
        ),
        BridgeView::SessionReplaced { session_id, cwd, current_model } => session_tree(
            session_id,
            cwd,
            current_model,
        ),
        BridgeView::SessionUpdate { session_id, update } => Tree::Object(
            seq![
                ("session_id"@, text_tree(session_id)),
                ("type"@, text_tree("session_update"@)),
                ("update"@, ordered(update)),
                ("v"@, version_tree()),
            ],
        ),
        BridgeView::SlashError { session_id, message } => error_event_tree(
            "slash_error"@,
            session_id,
            message,
        ),
        BridgeView::RuntimeReloadFailed { session_id, message } => error_event_tree(
            "runtime_reload_failed"@,
            session_id,
            message,
        ),
        BridgeView::TurnComplete { session_id, terminal_reason } => turn_complete_tree(
            session_id,
            terminal_reason,
        ),
        BridgeView::TurnError { session_id, message, error_kind, terminal_reason } => Tree::Object(
            seq![
                ("error_kind"@, optional_text_tree(error_kind)),
                ("message"@, text_tree(message)),
                ("session_id"@, text_tree(session_id)),
                ("terminal_reason"@, optional_text_tree(reason_text(terminal_reason))),
                ("type"@, text_tree("result.error"@)),
                ("v"@, version_tree()),
            ],
        ),
        BridgeView::AuthRequired { method_name, method_description } => Tree::Object(
            seq![
                ("method_description"@, text_tree(method_description)),
                ("method_name"@, text_tree(method_name)),
                ("type"@, text_tree("result.auth_required"@)),
                ("v"@, version_tree()),
            ],
        ),
        BridgeView::ConnectionFailed { message } => Tree::Object(
            seq![
                ("message"@, text_tree(message)),
                ("type"@, text_tree("result.connection_failed"@)),
                ("v"@, version_tree()),
            ],
        ),
        other => Tree::Object(
            seq![
                ("raw_event"@, text_tree(name_of(other))),
                ("type"@, text_tree("session_update"@)),
                ("v"@, version_tree()),
            ],
        ),
    }
}

fn text_json(text: &str) -> (r: Json)
    ensures
        r.tree() == text_tree(text@),
{
    Json::Text(text.to_owned())
}

fn optional_text_json(text: &Option<String>) -> (r: Json)
    ensures
        r.tree() == optional_text_tree(text.deep_view()),
{
    match text {
        Some(t) => Json::Text(t.clone()),
        None => Json::Null,
    }
}

/// Ends an object with its type and the version of the format.
fn finished(entries: Vec<(String, Json)>, kind: &str) -> (r: Json)
    ensures
        r.tree() == Tree::Object(
            entries.deep_view().push(("type"@, text_tree(kind@))).push(("v"@, version_tree())),
        ),
{
    let mut entries = entries;
    add_entry(&mut entries, "type", text_json(kind));
    add_entry(&mut entries, "v", Json::Number(JsonNumber::Unsigned(1)));
    proof {
        object_tree(entries);
    }
    Json::Object(entries)
}

/// [`turn_complete_tree`]: the object for the end of a turn.
pub fn turn_complete_to_json(
    session_id: &str,
    terminal_reason: Option<TerminalReason>,
) -> (r: Json)
    ensures
        r.tree() == turn_complete_tree(session_id@, terminal_reason),
{
    let (kind, stored) = match terminal_reason {
        None => ("result.success", "completed"),
        Some(TerminalReason::Completed) => ("result.success", "completed"),
        Some(other) => ("result.terminated", other.as_stored()),
    };
    let mut entries: Vec<(String, Json)> = Vec::new();
    add_entry(&mut entries, "session_id", text_json(session_id));
    add_entry(&mut entries, "terminal_reason", text_json(stored));
    let r = finished(entries, kind);
    assert(r.tree()->Object_0 =~= turn_complete_tree(session_id@, terminal_reason)->Object_0);
    r
}

fn session_to_json(session_id: &str, cwd: &str, model: &Json) -> (r: Json)
    ensures
        r.tree() == session_tree(session_id@, cwd@, model.tree()),
{
    let mut entries: Vec<(String, Json)> = Vec::new();
    add_entry(&mut entries, "cwd", text_json(cwd));
    add_entry(&mut entries, "model", model.ordered_copy());
    add_entry(&mut entries, "session_id", text_json(session_id));
    let r = finished(entries, "system.session");
    assert(r.tree()->Object_0 =~= session_tree(session_id@, cwd@, model.tree())->Object_0);
    r
}

fn error_event_to_json(kind: &str, session_id: &str, message: &str) -> (r: Json)
    ensures
        r.tree() == error_event_tree(kind@, session_id@, message@),
{
    let mut entries: Vec<(String, Json)> = Vec::new();
    add_entry(&mut entries, "kind", text_json(kind));
    add_entry(&mut entries, "message", text_json(message));
    add_entry(&mut entries, "session_id", text_json(session_id));
    let r = finished(entries, "error_event");
    assert(r.tree()->Object_0 =~= error_event_tree(kind@, session_id@, message@)->Object_0);
    r
}

/// [`event_tree`]: the object that is written for an event.
pub fn event_to_json(ev: &BridgeEvent) -> (r: Json)
    ensures
        r.tree() == event_tree(ev.deep_view()),
{
    let mut entries: Vec<(String, Json)> = Vec::new();
    let r = match ev {
        BridgeEvent::Initialized { result } => {
            add_entry(&mut entries, "agent_name", text_json(result.agent_name.as_str()));
            add_entry(&mut entries, "agent_version", text_json(result.agent_version.as_str()));
            add_entry(&mut entries, "capabilities", result.capabilities.ordered_copy());
            finished(entries, "system.init")
        },
        BridgeEvent::Connected { session_id, cwd, current_model } => {
            return session_to_json(session_id.as_str(), cwd.as_str(), current_model);
        },
        BridgeEvent::SessionReplaced { session_id, cwd, current_model } => {
            return session_to_json(session_id.as_str(), cwd.as_str(), current_model);
        },
        BridgeEvent::SessionUpdate { session_id, update } => {
            add_entry(&mut entries, "session_id", text_json(session_id.as_str()));
            add_entry(&mut entries, "type", text_json("session_update"));
            add_entry(&mut entries, "update", update.ordered_copy());
            add_entry(&mut entries, "v", Json::Number(JsonNumber::Unsigned(1)));
            proof {
                object_tree(entries);
            }
            Json::Object(entries)
        },
        BridgeEvent::SlashError { session_id, message } => {
            return error_event_to_json("slash_error", session_id.as_str(), message.as_str());
        },
        BridgeEvent::RuntimeReloadFailed { session_id, message } => {
            return error_event_to_json(
                "runtime_reload_failed",
                session_id.as_str(),
                message.as_str(),
            );
        },
        BridgeEvent::TurnComplete { session_id, terminal_reason } => {
            return turn_complete_to_json(session_id.as_str(), *terminal_reason);
        },
        BridgeEvent::TurnError { session_id, message, error_kind, terminal_reason } => {
            let reason = match terminal_reason {
                Some(reason) => Some(reason.as_stored().to_owned()),
                None => None,
            };
            assert(reason.deep_view() == reason_text(*terminal_reason));
            add_entry(&mut entries, "error_kind", optional_text_json(error_kind));
            add_entry(&mut entries, "message", text_json(message.as_str()));
            add_entry(&mut entries, "session_id", text_json(session_id.as_str()));
            add_entry(&mut entries, "terminal_reason", optional_text_json(&reason));
            finished(entries, "result.error")
        },
        BridgeEvent::AuthRequired { method_name, method_description } => {
            add_entry(
                &mut entries,
                "method_description",
                text_json(method_description.as_str()),
            );
            add_entry(&mut entries, "method_name", text_json(method_name.as_str()));
            finished(entries, "result.auth_required")
        },
        BridgeEvent::ConnectionFailed { message } => {
            add_entry(&mut entries, "message", text_json(message.as_str()));
            finished(entries, "result.connection_failed")
        },
        other => {
            add_entry(&mut entries, "raw_event", text_json(other.event_name()));
            finished(entries, "session_update")
        },
    };
    assert(r.tree()->Object_0 =~= event_tree(ev.deep_view())->Object_0);
    r
}

/// The line that is printed for a document.
pub open spec fn printed_line(tree: Tree) -> Seq<char> {
    printed_text(tree).push('\n')
}

/// Writes one JSON object per line.
#[derive(Debug, PartialEq, Eq)]
pub struct StreamJsonEmitter {
    /// What has been written and not been taken yet.
    pub out: String,
}

impl StreamJsonEmitter {
    /// An emitter that has written nothing yet.
    pub fn new() -> (r: StreamJsonEmitter)
        ensures
            r.out@ == Seq::<char>::empty(),
    {
        let r = StreamJsonEmitter { out: String::new() };
        assert(r.out@ =~= Seq::<char>::empty());
        r
    }

    /// Writes a document on a line of its own: the printed document, which holds
    /// no line break, and a line break. Nothing is written where the document
    /// cannot be printed.
    pub fn write_line(&mut self, value: Json) -> (r: Result<(), RenderError>)
        ensures
            match r {
                Ok(_) => {
                    &&& is_document(value.tree())
                    &&& final(self).out@ == old(self).out@ + printed_line(value.tree())
                    &&& !printed_text(value.tree()).contains('\n')
                    &&& reads_back(value.tree(), SAFE_DEPTH as nat) ==> parsed_tree(
                        printed_text(value.tree()),
                    ) == Some(value.tree())
                },
                Err(RenderError::NotADocument) => !is_document(value.tree()) && final(self).out@
                    == old(self).out@,
            },
    {
        let ghost tree = value.tree();
        match render(value) {
            Ok(text) => {
                let ghost before = self.out@;
                self.out.append(text.as_str());
                self.out.push('\n');
                assert(self.out@ =~= before + printed_line(tree));
                Ok(())
            },
            Err(e) => Err(e),
        }
    }
}

impl Emitter for StreamJsonEmitter {
    /// Writes [`event_tree`] on a line of its own.
    fn emit_event(&mut self, ev: &BridgeEvent) -> (r: Result<(), RenderError>)
        ensures
            match r {
                Ok(_) => {
                    let tree = event_tree(ev.deep_view());
                    &&& is_document(tree)
                    &&& final(self).out@ == old(self).out@ + printed_line(tree)
                    &&& !printed_text(tree).contains('\n')
                    &&& reads_back(tree, SAFE_DEPTH as nat) ==> parsed_tree(printed_text(tree))
                        == Some(tree)
                },
                Err(RenderError::NotADocument) => !is_document(event_tree(ev.deep_view()))
                    && final(self).out@ == old(self).out@,
            },
    {
        self.write_line(event_to_json(ev))
    }

    /// Warnings do not go into the stream.
    fn emit_warning(&mut self, msg: &str) -> (r: Result<(), RenderError>)
        ensures
            r is Ok,
            final(self).out@ == old(self).out@,
    {
        Ok(())
    }

    /// Errors do not go into the stream.
    fn emit_error(&mut self, msg: &str) -> (r: Result<(), RenderError>)
        ensures
            r is Ok,
            final(self).out@ == old(self).out@,
    {
        Ok(())
    }

    /// Every line is complete as it is written, so nothing is left to do.
    fn finish(&mut self) -> (r: Result<(), RenderError>)
        ensures
            r is Ok,
            final(self).out@ == old(self).out@,
    {
        Ok(())
    }

    fn take_output(&mut self) -> (r: String)
        ensures
            r@ == old(self).out@,
            final(self).out@ == Seq::<char>::empty(),
    {
        let taken = self.out.clone();
        self.out = String::new();
        assert(self.out@ =~= Seq::<char>::empty());
        taken
    }

    fn take_errors(&mut self) -> (r: String)
        ensures
            r@ == Seq::<char>::empty(),
            final(self).out@ == old(self).out@,
    {
        let none = String::new();
        assert(none@ =~= Seq::<char>::empty());
        none
    }
}

/// Writes the agent's words, and warnings and errors beside them.
#[derive(Debug, PartialEq, Eq)]
pub struct TextEmitter {
    /// What has been written to standard output and not been taken yet.
    pub out: String,
    /// What has been written to standard error and not been taken yet.
    pub err: String,
}

/// The agent's words in a session update: the text of a message chunk.
pub open spec fn words_in(update: Tree) -> Option<Seq<char>> {
    if text_of(get(update, "type"@)) == Some("agent_message_chunk"@) {
        match get(update, "content"@) {
            Some(content) => if text_of(get(content, "type"@)) == Some("text"@) {
                text_of(get(content, "text"@))
            } else {
                None
            },
            None => None,
        }
    } else {
        None
    }
}

/// The agent's words in an event.
pub open spec fn words_of_event(event: BridgeView) -> Seq<char> {
    match event {
        BridgeView::SessionUpdate { update, .. } => match words_in(update) {
            Some(text) => text,
            None => Seq::empty(),
        },
        _ => Seq::empty(),
    }
}

fn is_text_at(json: &Json, key: &str, expected: &str) -> (r: bool)
    ensures
        r == (text_of(get(json.tree(), key@)) == Some(expected@)),
{
    match json.text_at(key) {
        Some(text) => same(text.as_str(), expected),
        None => false,
    }
}

fn words_in_update(update: &Json) -> (r: Option<String>)
    ensures
        r.deep_view() == words_in(update.tree()),
{
    if !is_text_at(update, "type", "agent_message_chunk") {
        return None;
    }
    match update.get("content") {
        Some(content) => if is_text_at(content, "type", "text") {
            content.text_at("text")
        } else {
            None
        },
        None => None,
    }
}

impl TextEmitter {
    /// An emitter that has written nothing yet.
    pub fn new() -> (r: TextEmitter)
        ensures
            r.out@ == Seq::<char>::empty(),
            r.err@ == Seq::<char>::empty(),
    {
        let r = TextEmitter { out: String::new(), err: String::new() };
        assert(r.out@ =~= Seq::<char>::empty());
        assert(r.err@ =~= Seq::<char>::empty());
        r
    }

    fn note(&mut self, msg: &str)
        ensures
            final(self).out@ == old(self).out@,
            final(self).err@ == (old(self).err@ + msg@).push('\n'),
    {
        self.err.append(msg);
        self.err.push('\n');
    }
}

impl Emitter for TextEmitter {
    /// Writes the agent's words, if the event holds any.
    fn emit_event(&mut self, ev: &BridgeEvent) -> (r: Result<(), RenderError>)
        ensures
            r is Ok,
            final(self).out@ == old(self).out@ + words_of_event(ev.deep_view()),
            final(self).err@ == old(self).err@,
    {
        let ghost before = self.out@;
        match ev {
            BridgeEvent::SessionUpdate { session_id: _, update } => {
                match words_in_update(update) {
                    Some(text) => {
                        self.out.append(text.as_str());
                    },
                    None => {},
                }
            },
            _ => {},
        }
        assert(self.out@ =~= before + words_of_event(ev.deep_view()));
        Ok(())
    }

    fn emit_warning(&mut self, msg: &str) -> (r: Result<(), RenderError>)
        ensures
            r is Ok,
            final(self).out@ == old(self).out@,
            final(self).err@ == (old(self).err@ + msg@).push('\n'),
    {
        self.note(msg);
        Ok(())
    }

    fn emit_error(&mut self, msg: &str) -> (r: Result<(), RenderError>)
        ensures
            r is Ok,
            final(self).out@ == old(self).out@,
            final(self).err@ == (old(self).err@ + msg@).push('\n'),
    {
        self.note(msg);
        Ok(())
    }

    /// The words are written as they come, so nothing is left to do.
    fn finish(&mut self) -> (r: Result<(), RenderError>)
        ensures
            r is Ok,
            final(self).out@ == old(self).out@,
            final(self).err@ == old(self).err@,
    {
        Ok(())
    }

    fn take_output(&mut self) -> (r: String)
        ensures
            r@ == old(self).out@,
            final(self).out@ == Seq::<char>::empty(),
            final(self).err@ == old(self).err@,
    {
        let taken = self.out.clone();
        self.out = String::new();
        assert(self.out@ =~= Seq::<char>::empty());
        taken
    }

    fn take_errors(&mut self) -> (r: String)
        ensures
            r@ == old(self).err@,
            final(self).err@ == Seq::<char>::empty(),
            final(self).out@ == old(self).out@,
    {
        let taken = self.err.clone();
        self.err = String::new();
        assert(self.err@ =~= Seq::<char>::empty());
        taken
    }
}

/// Every object that is written says which version of the format it follows.
pub proof fn every_object_is_versioned(event: BridgeView)
    ensures
        event_tree(event) is Object,
        event_tree(event)->Object_0.last() == ("v"@, version_tree()),
{
}

/// What an interactive request holds never gets into the stream: only its name
/// is written.
pub proof fn requests_are_written_by_name_only(a: BridgeView, b: BridgeView)
    requires
        a is PermissionRequest && b is PermissionRequest || a is QuestionRequest
            && b is QuestionRequest || a is ElicitationRequest && b is ElicitationRequest,
    ensures
        event_tree(a) == event_tree(b),
{
}

/// The type that the object of an event bears.
pub open spec fn written_type(event: BridgeView) -> Seq<char> {
    match event {
        BridgeView::Initialized { .. } => "system.init"@,
        BridgeView::Connected { .. } => "system.session"@,
        BridgeView::SessionReplaced { .. } => "system.session"@,
        BridgeView::SlashError { .. } => "error_event"@,
        BridgeView::RuntimeReloadFailed { .. } => "error_event"@,
        BridgeView::TurnComplete { terminal_reason, .. } => if terminal_reason is None
            || terminal_reason == Some(TerminalReason::Completed) {
            "result.success"@
        } else {
            "result.terminated"@
        },
        BridgeView::TurnError { .. } => "result.error"@,
        BridgeView::AuthRequired { .. } => "result.auth_required"@,
        BridgeView::ConnectionFailed { .. } => "result.connection_failed"@,
        _ => "session_update"@,
    }
}

proof fn first_entry_is_found(entries: Seq<(Seq<char>, Tree)>, at: int, key: Seq<char>)
    requires
        0 <= at < entries.len(),
        entries[at].0 == key,
        forall|j: int| 0 <= j < at ==> (#[trigger] entries[j]).0 != key,
    ensures
        entry_of(entries, key) == Some(entries[at].1),
    decreases at,
{
    if at > 0 {
        let rest = entries.drop_first();
        assert(entries[0].0 != key);
        assert forall|j: int| 0 <= j < at - 1 implies (#[trigger] rest[j]).0 != key by {
            assert(rest[j] == entries[j + 1]);
        }
        first_entry_is_found(rest, at - 1, key);
    }
}

/// Every object that is written bears the type of its event. A turn is a success
/// exactly where it completed or gave no reason.
pub proof fn every_object_bears_its_type(event: BridgeView)
    ensures
        get(event_tree(event), "type"@) == Some(text_tree(written_type(event))),
{
    reveal_strlit("agent_name");
    reveal_strlit("agent_version");
    reveal_strlit("capabilities");
    reveal_strlit("cwd");
    reveal_strlit("error_kind");
    reveal_strlit("kind");
    reveal_strlit("message");
    reveal_strlit("method_description");
    reveal_strlit("method_name");
    reveal_strlit("model");
    reveal_strlit("raw_event");
    reveal_strlit("session_id");
    reveal_strlit("terminal_reason");
    reveal_strlit("type");
    let entries = event_tree(event)->Object_0;
    let at = if event is SessionUpdate {
        1
    } else {
        entries.len() - 2
    };
    assert(entries[at].0 == "type"@);
    assert("type"@.len() == 4 && "kind"@.len() == 4 && "kind"@[0] == 'k' && "type"@[0] == 't');
    assert forall|j: int| 0 <= j < at implies (#[trigger] entries[j]).0 != "type"@ by {
        assert(entries[j].0.len() != 4 || entries[j].0 == "kind"@);
    }
    first_entry_is_found(entries, at, "type"@);
}

/// Whether a document is a text, null or a small whole number.
pub open spec fn is_simple(tree: Tree) -> bool {
    tree is Text || tree is Null || tree == version_tree()
}

/// The object of an event that hands no document on is always written, and reads
/// back as it was.
pub proof fn simple_events_read_back(event: BridgeView)
    requires
        !(event is Initialized || event is Connected || event is SessionReplaced
            || event is SessionUpdate),
    ensures
        is_document(event_tree(event)),
        reads_back(event_tree(event), SAFE_DEPTH as nat),
{
    reveal_strlit("error_kind");
    reveal_strlit("kind");
    reveal_strlit("message");
    reveal_strlit("method_description");
    reveal_strlit("method_name");
    reveal_strlit("raw_event");
    reveal_strlit("session_id");
    reveal_strlit("terminal_reason");
    reveal_strlit("type");
    reveal_strlit("v");
    let tree = event_tree(event);
    let entries = tree->Object_0;
    assert forall|i: int, j: int| 0 <= i < j < entries.len() implies (#[trigger] entries[i]).0 != (
    #[trigger] entries[j]).0 by {
        assert("error_kind"@[0] == 'e' && "kind"@[0] == 'k' && "message"@[1] == 'e'
            && "message"@[2] == 's' && "method_description"@[2] == 't' && "method_name"@[7] == 'n'
            && "method_description"@[7] == 'd' && "raw_event"@[0] == 'r' && "session_id"@[0] == 's'
            && "terminal_reason"@[1] == 'e' && "type"@[1] == 'y' && "v"@[0] == 'v');
    }
    assert(distinct_keys(entries));
    assert forall|i: int| 0 <= i < entries.len() implies is_simple(
        (#[trigger] entries[i]).1,
    ) by {}
    assert forall|i: int| 0 <= i < entries.len() implies is_document((#[trigger] entries[i]).1) by {
        assert(is_simple(entries[i].1));
    }
    assert forall|i: int| 0 <= i < entries.len() implies reads_back(
        (#[trigger] entries[i]).1,
        (SAFE_DEPTH - 1) as nat,
    ) by {
        assert(is_simple(entries[i].1));
    }
}

proof fn written_keys_differ()
    ensures
        "agent_name"@.len() == 10,
        "agent_version"@.len() == 13,
        "capabilities"@.len() == 12,
        "cwd"@.len() == 3,
        "error_kind"@.len() == 10,
        "kind"@.len() == 4,
        "message"@.len() == 7,
        "method_description"@.len() == 18,
        "method_name"@.len() == 11,
        "model"@.len() == 5,
        "raw_event"@.len() == 9,
        "session_id"@.len() == 10,
        "terminal_reason"@.len() == 15,
        "type"@.len() == 4,
        "update"@.len() == 6,
        "v"@.len() == 1,
        "error_kind"@[0] == 'e',
        "session_id"@[0] == 's',
        "kind"@[0] == 'k',
        "type"@[0] == 't',
{
    reveal_strlit("agent_name");
    reveal_strlit("agent_version");
    reveal_strlit("capabilities");
    reveal_strlit("cwd");
    reveal_strlit("error_kind");
    reveal_strlit("kind");
    reveal_strlit("message");
    reveal_strlit("method_description");
    reveal_strlit("method_name");
    reveal_strlit("model");
    reveal_strlit("raw_event");
    reveal_strlit("session_id");
    reveal_strlit("terminal_reason");
    reveal_strlit("type");
    reveal_strlit("update");
    reveal_strlit("v");
}

proof fn later_entry_is_found(entries: Seq<(Seq<char>, Tree)>, at: int)
    requires
        0 <= at < entries.len(),
        forall|j: int| 0 <= j < at ==> (#[trigger] entries[j]).0 != entries[at].0,
    ensures
        entry_of(entries, entries[at].0) == Some(entries[at].1),
{
    first_entry_is_found(entries, at, entries[at].0);
}

/// The object of an event says what the event says, under keys of its own: the name and the
/// version of the agent, the session, the working directory, the update, the messages, why a turn
/// ended, how to log in. What is handed on as a document stands there in the order of its keys.
pub proof fn objects_say_what_their_event_says(event: BridgeView)
    ensures
        ({
            let tree = event_tree(event);
            match event {
                BridgeView::Initialized { agent_name, agent_version, capabilities } => {
                    &&& get(tree, "type"@) == Some(Tree::Text("system.init"@))
                    &&& get(tree, "agent_name"@) == Some(Tree::Text(agent_name))
                    &&& get(tree, "agent_version"@) == Some(Tree::Text(agent_version))
                    &&& get(tree, "capabilities"@) == Some(ordered(capabilities))
                },
                BridgeView::Connected { session_id, cwd, current_model } => {
                    &&& get(tree, "type"@) == Some(Tree::Text("system.session"@))
                    &&& get(tree, "session_id"@) == Some(Tree::Text(session_id))
                    &&& get(tree, "cwd"@) == Some(Tree::Text(cwd))
                    &&& get(tree, "model"@) == Some(ordered(current_model))
                },
                BridgeView::SessionReplaced { session_id, cwd, current_model } => {
                    &&& get(tree, "type"@) == Some(Tree::Text("system.session"@))
                    &&& get(tree, "session_id"@) == Some(Tree::Text(session_id))
                    &&& get(tree, "cwd"@) == Some(Tree::Text(cwd))
                    &&& get(tree, "model"@) == Some(ordered(current_model))
                },
                BridgeView::SessionUpdate { session_id, update } => {
                    &&& get(tree, "type"@) == Some(Tree::Text("session_update"@))
                    &&& get(tree, "session_id"@) == Some(Tree::Text(session_id))
                    &&& get(tree, "update"@) == Some(ordered(update))
                },
                BridgeView::SlashError { session_id, message } => {
                    &&& get(tree, "type"@) == Some(Tree::Text("error_event"@))
                    &&& get(tree, "kind"@) == Some(Tree::Text("slash_error"@))
                    &&& get(tree, "session_id"@) == Some(Tree::Text(session_id))
                    &&& get(tree, "message"@) == Some(Tree::Text(message))
                },
                BridgeView::RuntimeReloadFailed { session_id, message } => {
                    &&& get(tree, "type"@) == Some(Tree::Text("error_event"@))
                    &&& get(tree, "kind"@) == Some(Tree::Text("runtime_reload_failed"@))
                    &&& get(tree, "session_id"@) == Some(Tree::Text(session_id))
                    &&& get(tree, "message"@) == Some(Tree::Text(message))
                },
                BridgeView::TurnComplete { session_id, terminal_reason } => {
                    let completed = terminal_reason is None || terminal_reason == Some(
                        TerminalReason::Completed,
                    );
                    &&& get(tree, "type"@) == Some(
                        Tree::Text(
                            if completed {
                                "result.success"@
                            } else {
                                "result.terminated"@
                            },
                        ),
                    )
                    &&& get(tree, "session_id"@) == Some(Tree::Text(session_id))
                    &&& get(tree, "terminal_reason"@) == Some(
                        Tree::Text(
                            if completed {
                                "completed"@
                            } else {
                                stored_reason(terminal_reason->0)
                            },
                        ),
                    )
                },
                BridgeView::TurnError { session_id, message, error_kind, terminal_reason } => {
                    &&& get(tree, "type"@) == Some(Tree::Text("result.error"@))
                    &&& get(tree, "session_id"@) == Some(Tree::Text(session_id))
                    &&& get(tree, "message"@) == Some(Tree::Text(message))
                    &&& get(tree, "error_kind"@) == Some(
                        match error_kind {
                            Some(kind) => Tree::Text(kind),
                            None => Tree::Null,
                        },
                    )
                    &&& get(tree, "terminal_reason"@) == Some(
                        match terminal_reason {
                            Some(reason) => Tree::Text(stored_reason(reason)),
                            None => Tree::Null,
                        },
                    )
                },
                BridgeView::AuthRequired { method_name, method_description } => {
                    &&& get(tree, "type"@) == Some(Tree::Text("result.auth_required"@))
                    &&& get(tree, "method_name"@) == Some(Tree::Text(method_name))
                    &&& get(tree, "method_description"@) == Some(Tree::Text(method_description))
                },
                BridgeView::ConnectionFailed { message } => {
                    &&& get(tree, "type"@) == Some(Tree::Text("result.connection_failed"@))
                    &&& get(tree, "message"@) == Some(Tree::Text(message))
                },
                BridgeView::PermissionRequest { .. } => {
                    &&& get(tree, "type"@) == Some(Tree::Text("session_update"@))
                    &&& get(tree, "raw_event"@) == Some(Tree::Text("permission_request"@))
                },
                BridgeView::QuestionRequest { .. } => {
                    &&& get(tree, "type"@) == Some(Tree::Text("session_update"@))
                    &&& get(tree, "raw_event"@) == Some(Tree::Text("question_request"@))
                },
                BridgeView::ElicitationRequest { .. } => {
                    &&& get(tree, "type"@) == Some(Tree::Text("session_update"@))
                    &&& get(tree, "raw_event"@) == Some(Tree::Text("elicitation_request"@))
                },
                BridgeView::Other { name } => {
                    &&& get(tree, "type"@) == Some(Tree::Text("session_update"@))
                    &&& get(tree, "raw_event"@) == Some(Tree::Text(name))
                },
            }
        }),
        get(event_tree(event), "v"@) == Some(Tree::Number(NumberTree::Unsigned(1))),
{
    written_keys_differ();
    let entries = event_tree(event)->Object_0;
    let n = entries.len() as int;
    assert(3 <= n <= 6);
    assert forall|i: int, j: int| 0 <= i < j < n implies (#[trigger] entries[i]).0 != (
    #[trigger] entries[j]).0 by {}
    later_entry_is_found(entries, 0);
    later_entry_is_found(entries, 1);
    later_entry_is_found(entries, 2);
    if n > 3 {
        later_entry_is_found(entries, 3);
    }
    if n > 4 {
        later_entry_is_found(entries, 4);
    }
    if n > 5 {
        later_entry_is_found(entries, 5);
    }
}

/// The words of the agent are the text of a message chunk whose content is text, as it stands;
/// no other update has any, and no other event.
pub proof fn words_come_from_message_chunks(
    event: BridgeView,
    session_id: Seq<char>,
    update: Tree,
    content: Tree,
    text: Seq<char>,
)
    ensures
        get(update, "type"@) == Some(Tree::Text("agent_message_chunk"@)) && get(update, "content"@)
            == Some(content) && get(content, "type"@) == Some(Tree::Text("text"@)) && get(
            content,
            "text"@,
        ) == Some(Tree::Text(text)) ==> words_of_event(
            BridgeView::SessionUpdate { session_id, update },
        ) == text,
        get(update, "type"@) != Some(Tree::Text("agent_message_chunk"@)) ==> words_of_event(
            BridgeView::SessionUpdate { session_id, update },
        ).len() == 0,
        get(update, "content"@) == Some(content) && get(content, "type"@) != Some(
            Tree::Text("text"@),
        ) ==> words_of_event(BridgeView::SessionUpdate { session_id, update }).len() == 0,
        !(event is SessionUpdate) ==> words_of_event(event).len() == 0,
{
}

} // verus!

//! The messages of the agent bridge.

use crate::agent::types::{
    InitializeResult, LaunchSettingsView, PromptChunk, PromptChunkView, SessionLaunchSettings,
    TerminalReason,
};
use crate::json::{Json, Tree};
use vstd::prelude::*;

verus! {

/// What the bridge reports. Payloads that are only handed on are documents.
#[derive(Debug, PartialEq, Eq)]
pub enum BridgeEvent {
    Initialized { result: InitializeResult },
    Connected { session_id: String, cwd: String, current_model: Json },
    SessionReplaced { session_id: String, cwd: String, current_model: Json },
    SessionUpdate { session_id: String, update: Json },
    PermissionRequest { session_id: String },
    QuestionRequest { session_id: String },
    ElicitationRequest { session_id: String },
    SlashError { session_id: String, message: String },
    RuntimeReloadFailed { session_id: String, message: String },
    TurnComplete { session_id: String, terminal_reason: Option<TerminalReason> },
    TurnError {
        session_id: String,
        message: String,
        error_kind: Option<String>,
        terminal_reason: Option<TerminalReason>,
    },
    AuthRequired { method_name: String, method_description: String },
    ConnectionFailed { message: String },
    /// Any other event, by its name.
    Other { name: String },
}

/// An event with the request that it answers, if any.
#[derive(Debug, PartialEq, Eq)]
pub struct EventEnvelope {
    pub request_id: Option<String>,
    pub event: BridgeEvent,
}

/// What the bridge is asked to do.
#[derive(Debug, PartialEq, Eq)]
pub enum BridgeCommand {
    Initialize { cwd: String },
    CreateSession {
        cwd: String,
        resume: Option<String>,
        launch_settings: SessionLaunchSettings,
    },
    Prompt { session_id: String, chunks: Vec<PromptChunk> },
    CancelTurn { session_id: String },
}

/// The content of a [`BridgeEvent`].
pub enum BridgeView {
    Initialized { agent_name: Seq<char>, agent_version: Seq<char>, capabilities: Tree },
    Connected { session_id: Seq<char>, cwd: Seq<char>, current_model: Tree },
    SessionReplaced { session_id: Seq<char>, cwd: Seq<char>, current_model: Tree },
    SessionUpdate { session_id: Seq<char>, update: Tree },
    PermissionRequest { session_id: Seq<char> },
    QuestionRequest { session_id: Seq<char> },
    ElicitationRequest { session_id: Seq<char> },
    SlashError { session_id: Seq<char>, message: Seq<char> },
    RuntimeReloadFailed { session_id: Seq<char>, message: Seq<char> },
    TurnComplete { session_id: Seq<char>, terminal_reason: Option<TerminalReason> },
    TurnError {
        session_id: Seq<char>,
        message: Seq<char>,
        error_kind: Option<Seq<char>>,
        terminal_reason: Option<TerminalReason>,
    },
    AuthRequired { method_name: Seq<char>, method_description: Seq<char> },
    ConnectionFailed { message: Seq<char> },
    Other { name: Seq<char> },
}

/// The content of an [`EventEnvelope`].
pub struct EnvelopeView {
    pub request_id: Option<Seq<char>>,
    pub event: BridgeView,
}

/// The content of a [`BridgeCommand`].
pub enum CommandView {
    Initialize { cwd: Seq<char> },
    CreateSession {
        cwd: Seq<char>,
        resume: Option<Seq<char>>,
        launch_settings: LaunchSettingsView,
    },
    Prompt { session_id: Seq<char>, chunks: Seq<PromptChunkView> },
    CancelTurn { session_id: Seq<char> },
}

impl DeepView for BridgeEvent {
    type V = BridgeView;

    open spec fn deep_view(&self) -> BridgeView {
        match self {
            BridgeEvent::Initialized { result } => BridgeView::Initialized {
                agent_name: result.agent_name@,
                agent_version: result.agent_version@,
                capabilities: result.capabilities.tree(),
            },
            BridgeEvent::Connected { session_id, cwd, current_model } => BridgeView::Connected {
                session_id: session_id@,
                cwd: cwd@,
                current_model: current_model.tree(),
            },
            BridgeEvent::SessionReplaced { session_id, cwd, current_model } =>
            BridgeView::SessionReplaced {
                session_id: session_id@,
                cwd: cwd@,
                current_model: current_model.tree(),
            },
            BridgeEvent::SessionUpdate { session_id, update } => BridgeView::SessionUpdate {
                session_id: session_id@,
                update: update.tree(),
            },
            BridgeEvent::PermissionRequest { session_id } => BridgeView::PermissionRequest {
                session_id: session_id@,
            },
            BridgeEvent::QuestionRequest { session_id } => BridgeView::QuestionRequest {
                session_id: session_id@,
            },
            BridgeEvent::ElicitationRequest { session_id } => BridgeView::ElicitationRequest {
                session_id: session_id@,
            },
            BridgeEvent::SlashError { session_id, message } => BridgeView::SlashError {
                session_id: session_id@,
                message: message@,
            },
            BridgeEvent::RuntimeReloadFailed { session_id, message } =>
            BridgeView::RuntimeReloadFailed { session_id: session_id@, message: message@ },
            BridgeEvent::TurnComplete { session_id, terminal_reason } => BridgeView::TurnComplete {
                session_id: session_id@,
                terminal_reason: *terminal_reason,
            },
            BridgeEvent::TurnError { session_id, message, error_kind, terminal_reason } =>
            BridgeView::TurnError {
                session_id: session_id@,
                message: message@,
                error_kind: error_kind.deep_view(),
                terminal_reason: *terminal_reason,
            },
            BridgeEvent::AuthRequired { method_name, method_description } =>
            BridgeView::AuthRequired {
                method_name: method_name@,
                method_description: method_description@,
            },
            BridgeEvent::ConnectionFailed { message } => BridgeView::ConnectionFailed {
                message: message@,
            },
            BridgeEvent::Other { name } => BridgeView::Other { name: name@ },
        }
    }
}

impl DeepView for EventEnvelope {
    type V = EnvelopeView;

    open spec fn deep_view(&self) -> EnvelopeView {
        EnvelopeView { request_id: self.request_id.deep_view(), event: self.event.deep_view() }
    }
}

impl DeepView for BridgeCommand {
    type V = CommandView;

    open spec fn deep_view(&self) -> CommandView {
        match self {
            BridgeCommand::Initialize { cwd } => CommandView::Initialize { cwd: cwd@ },
            BridgeCommand::CreateSession { cwd, resume, launch_settings } =>
            CommandView::CreateSession {
                cwd: cwd@,
                resume: resume.deep_view(),
                launch_settings: launch_settings.deep_view(),
            },
            BridgeCommand::Prompt { session_id, chunks } => CommandView::Prompt {
                session_id: session_id@,
                chunks: chunks.deep_view(),
            },
            BridgeCommand::CancelTurn { session_id } => CommandView::CancelTurn {
                session_id: session_id@,
            },
        }
    }
}

/// The name of an event.
pub open spec fn name_of(event: BridgeView) -> Seq<char> {
    match event {
        BridgeView::Initialized { .. } => "initialized"@,
        BridgeView::Connected { .. } => "connected"@,
        BridgeView::SessionReplaced { .. } => "session_replaced"@,
        BridgeView::SessionUpdate { .. } => "session_update"@,
        BridgeView::PermissionRequest { .. } => "permission_request"@,
        BridgeView::QuestionRequest { .. } => "question_request"@,
        BridgeView::ElicitationRequest { .. } => "elicitation_request"@,
        BridgeView::SlashError { .. } => "slash_error"@,
        BridgeView::RuntimeReloadFailed { .. } => "runtime_reload_failed"@,
        BridgeView::TurnComplete { .. } => "turn_complete"@,
        BridgeView::TurnError { .. } => "turn_error"@,
        BridgeView::AuthRequired { .. } => "auth_required"@,
        BridgeView::ConnectionFailed { .. } => "connection_failed"@,
        BridgeView::Other { name } => name,
    }
}

impl BridgeEvent {
    /// [`name_of`]: the name of the event.
    pub fn event_name(&self) -> (r: &str)
        ensures
            r@ == name_of(self.deep_view()),
    {
        match self {
            BridgeEvent::Initialized { .. } => "initialized",
            BridgeEvent::Connected { .. } => "connected",
            BridgeEvent::SessionReplaced { .. } => "session_replaced",
            BridgeEvent::SessionUpdate { .. } => "session_update",
            BridgeEvent::PermissionRequest { .. } => "permission_request",
            BridgeEvent::QuestionRequest { .. } => "question_request",
            BridgeEvent::ElicitationRequest { .. } => "elicitation_request",
            BridgeEvent::SlashError { .. } => "slash_error",
            BridgeEvent::RuntimeReloadFailed { .. } => "runtime_reload_failed",
            BridgeEvent::TurnComplete { .. } => "turn_complete",
            BridgeEvent::TurnError { .. } => "turn_error",
            BridgeEvent::AuthRequired { .. } => "auth_required",
            BridgeEvent::ConnectionFailed { .. } => "connection_failed",
            BridgeEvent::Other { name } => name.as_str(),
        }
    }
}

/// Each event has the name of the protocol, and any other event the name that it bears.
pub proof fn events_have_their_names(event: BridgeView)
    ensures
        event is Initialized ==> name_of(event) == "initialized"@,
        event is Connected ==> name_of(event) == "connected"@,
        event is SessionReplaced ==> name_of(event) == "session_replaced"@,
        event is SessionUpdate ==> name_of(event) == "session_update"@,
        event is PermissionRequest ==> name_of(event) == "permission_request"@,
        event is QuestionRequest ==> name_of(event) == "question_request"@,
        event is ElicitationRequest ==> name_of(event) == "elicitation_request"@,
        event is SlashError ==> name_of(event) == "slash_error"@,
        event is RuntimeReloadFailed ==> name_of(event) == "runtime_reload_failed"@,
        event is TurnComplete ==> name_of(event) == "turn_complete"@,
        event is TurnError ==> name_of(event) == "turn_error"@,
        event is AuthRequired ==> name_of(event) == "auth_required"@,
        event is ConnectionFailed ==> name_of(event) == "connection_failed"@,
        event matches BridgeView::Other { name } ==> name_of(event) == name,
{
}

} // verus!

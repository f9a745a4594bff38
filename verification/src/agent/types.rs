//! Values that travel between the application and the agent bridge.

use crate::json::{Json, Tree};
use vstd::prelude::*;

verus! {

/// Why a turn ended.
#[derive(Debug, Clone, Copy, PartialEq, Eq)]
pub enum TerminalReason {
    Completed,
    BlockingLimit,
    RapidRefillBreaker,
    PromptTooLong,
    ImageError,
    ModelError,
    AbortedStreaming,
    AbortedTools,
    StopHookPrevented,
    HookStopped,
    ToolDeferred,
    MaxTurns,
}

/// The name under which a reason is stored.
pub open spec fn stored_reason(reason: TerminalReason) -> Seq<char> {
    match reason {
        TerminalReason::Completed => "completed"@,
        TerminalReason::BlockingLimit => "blocking_limit"@,
        TerminalReason::RapidRefillBreaker => "rapid_refill_breaker"@,
        TerminalReason::PromptTooLong => "prompt_too_long"@,
        TerminalReason::ImageError => "image_error"@,
        TerminalReason::ModelError => "model_error"@,
        TerminalReason::AbortedStreaming => "aborted_streaming"@,
        TerminalReason::AbortedTools => "aborted_tools"@,
        TerminalReason::StopHookPrevented => "stop_hook_prevented"@,
        TerminalReason::HookStopped => "hook_stopped"@,
        TerminalReason::ToolDeferred => "tool_deferred"@,
        TerminalReason::MaxTurns => "max_turns"@,
    }
}

impl TerminalReason {
    /// [`stored_reason`]: the name under which the reason is stored.
    pub fn as_stored(self) -> (r: &'static str)
        ensures
            r@ == stored_reason(self),
    {
        match self {
            TerminalReason::Completed => "completed",
            TerminalReason::BlockingLimit => "blocking_limit",
            TerminalReason::RapidRefillBreaker => "rapid_refill_breaker",
            TerminalReason::PromptTooLong => "prompt_too_long",
            TerminalReason::ImageError => "image_error",
            TerminalReason::ModelError => "model_error",
            TerminalReason::AbortedStreaming => "aborted_streaming",
            TerminalReason::AbortedTools => "aborted_tools",
            TerminalReason::StopHookPrevented => "stop_hook_prevented",
            TerminalReason::HookStopped => "hook_stopped",
            TerminalReason::ToolDeferred => "tool_deferred",
            TerminalReason::MaxTurns => "max_turns",
        }
    }
}

/// What the bridge says of itself once it is up.
#[derive(Debug, PartialEq, Eq)]
pub struct InitializeResult {
    pub agent_name: String,
    pub agent_version: String,
    /// What the agent can do, handed on as it is.
    pub capabilities: Json,
}

/// A piece of a prompt.
#[derive(Debug, PartialEq, Eq)]
pub struct PromptChunk {
    pub kind: String,
    pub value: Json,
}

/// What a session is started with.
#[derive(Debug, PartialEq, Eq)]
pub struct SessionLaunchSettings {
    pub settings: Option<Json>,
}

/// The content of a [`PromptChunk`].
pub struct PromptChunkView {
    pub kind: Seq<char>,
    pub value: Tree,
}

/// The content of a [`SessionLaunchSettings`].
pub struct LaunchSettingsView {
    pub settings: Option<Tree>,
}

impl DeepView for PromptChunk {
    type V = PromptChunkView;

    open spec fn deep_view(&self) -> PromptChunkView {
        PromptChunkView { kind: self.kind@, value: self.value.tree() }
    }
}

impl DeepView for SessionLaunchSettings {
    type V = LaunchSettingsView;

    open spec fn deep_view(&self) -> LaunchSettingsView {
        LaunchSettingsView { settings: self.settings.deep_view() }
    }
}

impl SessionLaunchSettings {
    /// The same settings once more.
    pub fn copy(&self) -> (r: SessionLaunchSettings)
        ensures
            r.deep_view() == self.deep_view(),
    {
        SessionLaunchSettings {
            settings: match &self.settings {
                Some(json) => Some(json.copy()),
                None => None,
            },
        }
    }
}

/// Each reason is stored under the name of the protocol.
pub proof fn reasons_have_their_names()
    ensures
        stored_reason(TerminalReason::Completed) == "completed"@,
        stored_reason(TerminalReason::BlockingLimit) == "blocking_limit"@,
        stored_reason(TerminalReason::RapidRefillBreaker) == "rapid_refill_breaker"@,
        stored_reason(TerminalReason::PromptTooLong) == "prompt_too_long"@,
        stored_reason(TerminalReason::ImageError) == "image_error"@,
        stored_reason(TerminalReason::ModelError) == "model_error"@,
        stored_reason(TerminalReason::AbortedStreaming) == "aborted_streaming"@,
        stored_reason(TerminalReason::AbortedTools) == "aborted_tools"@,
        stored_reason(TerminalReason::StopHookPrevented) == "stop_hook_prevented"@,
        stored_reason(TerminalReason::HookStopped) == "hook_stopped"@,
        stored_reason(TerminalReason::ToolDeferred) == "tool_deferred"@,
        stored_reason(TerminalReason::MaxTurns) == "max_turns"@,
{
}

/// Different reasons are stored under different names.
pub proof fn different_reasons_have_different_names(a: TerminalReason, b: TerminalReason)
    requires
        a != b,
    ensures
        stored_reason(a) != stored_reason(b),
{
    reveal_strlit("completed");
    reveal_strlit("blocking_limit");
    reveal_strlit("rapid_refill_breaker");
    reveal_strlit("prompt_too_long");
    reveal_strlit("image_error");
    reveal_strlit("model_error");
    reveal_strlit("aborted_streaming");
    reveal_strlit("aborted_tools");
    reveal_strlit("stop_hook_prevented");
    reveal_strlit("hook_stopped");
    reveal_strlit("tool_deferred");
    reveal_strlit("max_turns");
    assert("completed"@.len() == 9 && "completed"@[0] == 'c');
    assert("max_turns"@.len() == 9 && "max_turns"@[0] == 'm');
    assert("image_error"@.len() == 11 && "image_error"@[0] == 'i');
    assert("model_error"@.len() == 11 && "model_error"@[0] == 'm');
    assert("hook_stopped"@.len() == 12);
    assert("aborted_tools"@.len() == 13 && "aborted_tools"@[0] == 'a');
    assert("tool_deferred"@.len() == 13 && "tool_deferred"@[0] == 't');
    assert("blocking_limit"@.len() == 14);
    assert("prompt_too_long"@.len() == 15);
    assert("aborted_streaming"@.len() == 17);
    assert("stop_hook_prevented"@.len() == 19);
    assert("rapid_refill_breaker"@.len() == 20);
}

} // verus!

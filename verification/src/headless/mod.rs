//! Print mode: one prompt, no interaction.
//!
//! [`run_print`] settles what can be settled before the bridge is started: the
//! permission mode, the prompt and the settings of the session. From then on
//! [`session::Session`] decides.

pub mod driver;
pub mod output;
pub mod session;
pub mod watchdog;

use crate::agent::types::{LaunchSettingsView, SessionLaunchSettings};
use crate::cli::{stored_mode, CliPermissionMode, PrintArgs, PrintArgsView};
use crate::headless::driver::{
    classify_prompt, exit_code, prompt_source, resolve_permission_mode, resolved_mode,
    HeadlessExit, PromptSource, PromptSourceView, ResolvedModeView, ResolvedPermissionMode,
};
use crate::json::{
    add_entry, entry_of, get, object_tree, Json, JsonNumber, NumberTree, Tree,
};
use crate::text::{trim, trimmed};
use vstd::prelude::*;

verus! {

/// The settings that a session is started with, in the order of their names: the
/// most turns and the model where they are given, and the permission mode.
pub open spec fn launch_settings_tree(
    permission_mode: Seq<char>,
    model: Option<Seq<char>>,
    max_turns: Option<u32>,
) -> Tree {
    let turns = match max_turns {
        Some(n) => seq![("maxTurns"@, Tree::Number(NumberTree::Unsigned(n as u64)))],
        None => Seq::empty(),
    };
    let named = match model {
        Some(m) => seq![("model"@, Tree::Text(m))],
        None => Seq::empty(),
    };
    let mode = Tree::Object(seq![("defaultMode"@, Tree::Text(permission_mode))]);
    Tree::Object(turns + named + seq![("permissions"@, mode)])
}

/// [`launch_settings_tree`]: the settings that a session is started with.
pub fn build_launch_settings(
    permission_mode: &str,
    model: Option<&str>,
    max_turns: Option<u32>,
) -> (r: SessionLaunchSettings)
    ensures
        r.deep_view() == (LaunchSettingsView {
            settings: Some(
                launch_settings_tree(
                    permission_mode@,
                    driver::given_text(model),
                    max_turns,
                ),
            ),
        }),
{
    let mut settings: Vec<(String, Json)> = Vec::new();
    if let Some(n) = max_turns {
        add_entry(&mut settings, "maxTurns", Json::Number(JsonNumber::Unsigned(n as u64)));
    }
    if let Some(m) = model {
        add_entry(&mut settings, "model", Json::Text(m.to_owned()));
    }
    let mut permissions: Vec<(String, Json)> = Vec::new();
    add_entry(&mut permissions, "defaultMode", Json::Text(permission_mode.to_owned()));
    proof {
        object_tree(permissions);
        assert(permissions.deep_view() =~= seq![("defaultMode"@, Tree::Text(permission_mode@))]);
    }
    add_entry(&mut settings, "permissions", Json::Object(permissions));
    proof {
        object_tree(settings);
        assert(settings.deep_view() =~= launch_settings_tree(
            permission_mode@,
            driver::given_text(model),
            max_turns,
        )->Object_0);
    }
    SessionLaunchSettings { settings: Some(Json::Object(settings)) }
}

/// What is known of standard input.
#[derive(Debug, PartialEq, Eq)]
pub enum Stdin {
    /// It is a terminal.
    Terminal,
    /// It is not a terminal, and has not been read.
    Unread,
    /// It has been read to its end.
    Read(String),
    /// It could not be read.
    ReadFailed(String),
}

/// What print mode has to do before the bridge is started.
#[derive(Debug, PartialEq, Eq)]
pub enum PrintStep {
    /// Read standard input, and ask again.
    ReadStdin,
    /// Write the lines to standard error and exit with the code.
    Refuse { messages: Vec<String>, code: i32 },
    /// Write the lines to standard error and start the session.
    Launch { messages: Vec<String>, prompt: String, launch_settings: SessionLaunchSettings },
}

/// The content of [`Stdin`].
pub enum StdinView {
    Terminal,
    Unread,
    Read(Seq<char>),
    ReadFailed(Seq<char>),
}

/// The content of a [`PrintStep`].
pub enum PrintStepView {
    ReadStdin,
    Refuse { messages: Seq<Seq<char>>, code: i32 },
    Launch {
        messages: Seq<Seq<char>>,
        prompt: Seq<char>,
        launch_settings: LaunchSettingsView,
    },
}

impl DeepView for Stdin {
    type V = StdinView;

    open spec fn deep_view(&self) -> StdinView {
        match self {
            Stdin::Terminal => StdinView::Terminal,
            Stdin::Unread => StdinView::Unread,
            Stdin::Read(text) => StdinView::Read(text@),
            Stdin::ReadFailed(message) => StdinView::ReadFailed(message@),
        }
    }
}

impl DeepView for PrintStep {
    type V = PrintStepView;

    open spec fn deep_view(&self) -> PrintStepView {
        match self {
            PrintStep::ReadStdin => PrintStepView::ReadStdin,
            PrintStep::Refuse { messages, code } => PrintStepView::Refuse {
                messages: messages.deep_view(),
                code: *code,
            },
            PrintStep::Launch { messages, prompt, launch_settings } => PrintStepView::Launch {
                messages: messages.deep_view(),
                prompt: prompt@,
                launch_settings: launch_settings.deep_view(),
            },
        }
    }
}

/// A refusal to follow the command line.
pub open spec fn usage_error(messages: Seq<Seq<char>>) -> PrintStepView {
    PrintStepView::Refuse { messages, code: exit_code(HeadlessExit::UsageError) }
}

/// What to tell where policy demands a permission mode.
pub open spec fn policy_messages() -> Seq<Seq<char>> {
    seq![
        "error: --permission-mode required by org policy (LINGXI_HEADLESS_REQUIRE_EXPLICIT_PERMISSION_MODE=1)"@,
        "hint: pass --permission-mode dontAsk or --dangerously-skip-permissions"@,
    ]
}

/// What to tell where there is no prompt and nobody to read it from.
pub open spec fn terminal_messages() -> Seq<Seq<char>> {
    seq![
        "error: stdin is a TTY and no positional prompt was provided"@,
        "hint: lingxi-ascendc -p \"your prompt here\""@,
    ]
}

/// What to do with a prompt: it is trimmed, and must not be blank.
pub open spec fn with_prompt(
    args: PrintArgsView,
    mode: Seq<char>,
    warnings: Seq<Seq<char>>,
    prompt: Seq<char>,
) -> PrintStepView {
    if trim(prompt).len() == 0 {
        usage_error(warnings.push("error: prompt is empty"@))
    } else {
        PrintStepView::Launch {
            messages: warnings,
            prompt: trim(prompt),
            launch_settings: LaunchSettingsView {
                settings: Some(launch_settings_tree(mode, args.model, args.max_turns)),
            },
        }
    }
}

/// What print mode has to do before the bridge is started. The permission mode is
/// settled first, then the prompt is looked for; a warning about the mode comes
/// before anything else that is told.
pub open spec fn print_step(
    args: PrintArgsView,
    skip: bool,
    mode: Option<CliPermissionMode>,
    require_explicit: bool,
    stdin: StdinView,
) -> PrintStepView {
    let chosen = match mode {
        Some(m) => Some(stored_mode(m)),
        None => None,
    };
    match resolved_mode(skip, chosen, require_explicit) {
        ResolvedModeView::RefuseExplicitRequired => usage_error(policy_messages()),
        ResolvedModeView::Mode { mode, warning } => {
            let warnings = match warning {
                Some(w) => seq![w],
                None => Seq::empty(),
            };
            match prompt_source(args.prompt, stdin is Terminal) {
                PromptSourceView::Provided(prompt) => with_prompt(args, mode, warnings, prompt),
                PromptSourceView::RefuseTty => usage_error(warnings + terminal_messages()),
                PromptSourceView::ReadStdin => match stdin {
                    StdinView::Read(text) => with_prompt(args, mode, warnings, text),
                    StdinView::ReadFailed(message) => usage_error(
                        warnings.push(
                            "error: failed to read prompt from stdin: "@ + message,
                        ),
                    ),
                    _ => PrintStepView::ReadStdin,
                },
            }
        },
    }
}

fn add_message(messages: &mut Vec<String>, message: String)
    ensures
        final(messages).deep_view() == old(messages).deep_view().push(message@),
{
    let ghost before = messages.deep_view();
    let ghost one = message@;
    messages.push(message);
    assert(messages.deep_view() =~= before.push(one));
}

fn refuse(messages: Vec<String>) -> (r: PrintStep)
    ensures
        r.deep_view() == usage_error(messages.deep_view()),
{
    PrintStep::Refuse { messages, code: HeadlessExit::UsageError.code() }
}

fn use_prompt(args: &PrintArgs, mode: &str, warnings: Vec<String>, prompt: &str) -> (r: PrintStep)
    ensures
        r.deep_view() == with_prompt(args.deep_view(), mode@, warnings.deep_view(), prompt@),
{
    let mut warnings = warnings;
    let prompt = trimmed(prompt);
    if prompt.as_str().is_empty() {
        add_message(&mut warnings, "error: prompt is empty".to_owned());
        return refuse(warnings);
    }
    let model = match &args.model {
        Some(m) => Some(m.as_str()),
        None => None,
    };
    assert(driver::given_text(model) == args.deep_view().model);
    let launch_settings = build_launch_settings(mode, model, args.max_turns);
    PrintStep::Launch { messages: warnings, prompt, launch_settings }
}

/// [`print_step`]: what print mode has to do before the bridge is started.
pub fn run_print(
    args: &PrintArgs,
    cli_dangerously_skip: bool,
    cli_permission_mode: Option<CliPermissionMode>,
    require_explicit: bool,
    stdin: Stdin,
) -> (r: PrintStep)
    ensures
        r.deep_view() == print_step(
            args.deep_view(),
            cli_dangerously_skip,
            cli_permission_mode,
            require_explicit,
            stdin.deep_view(),
        ),
{
    let chosen = match cli_permission_mode {
        Some(mode) => Some(mode.as_stored()),
        None => None,
    };
    let mut messages: Vec<String> = Vec::new();
    assert(messages.deep_view() =~= Seq::empty());
    let mode = match resolve_permission_mode(cli_dangerously_skip, chosen, require_explicit) {
        ResolvedPermissionMode::RefuseExplicitRequired => {
            add_message(
                &mut messages,
                "error: --permission-mode required by org policy (LINGXI_HEADLESS_REQUIRE_EXPLICIT_PERMISSION_MODE=1)".to_owned(),
            );
            add_message(
                &mut messages,
                "hint: pass --permission-mode dontAsk or --dangerously-skip-permissions".to_owned(),
            );
            assert(messages.deep_view() =~= policy_messages());
            return refuse(messages);
        },
        ResolvedPermissionMode::Mode { mode, warning } => {
            if let Some(warning) = warning {
                let ghost w = warning@;
                add_message(&mut messages, warning);
                assert(messages.deep_view() =~= seq![w]);
            }
            mode
        },
    };
    let ghost warnings = messages.deep_view();
    let prompt = match &args.prompt {
        Some(p) => Some(p.as_str()),
        None => None,
    };
    assert(driver::given_text(prompt) == args.deep_view().prompt);
    let stdin_is_tty = match &stdin {
        Stdin::Terminal => true,
        _ => false,
    };
    match classify_prompt(prompt, stdin_is_tty) {
        PromptSource::Provided(prompt) => use_prompt(args, mode, messages, prompt.as_str()),
        PromptSource::RefuseTty => {
            add_message(
                &mut messages,
                "error: stdin is a TTY and no positional prompt was provided".to_owned(),
            );
            add_message(
                &mut messages,
                "hint: lingxi-ascendc -p \"your prompt here\"".to_owned(),
            );
            assert(messages.deep_view() =~= warnings + terminal_messages());
            refuse(messages)
        },
        PromptSource::ReadStdin => match stdin {
            Stdin::Read(text) => use_prompt(args, mode, messages, text.as_str()),
            Stdin::ReadFailed(message) => {
                let mut line = "error: failed to read prompt from stdin: ".to_owned();
                line.append(message.as_str());
                add_message(&mut messages, line);
                refuse(messages)
            },
            _ => PrintStep::ReadStdin,
        },
    }
}

/// Why the bridge could not be started.
#[derive(Debug, PartialEq, Eq)]
pub enum BridgeStartError {
    /// It could not be found.
    Resolve(String),
    /// It could not be run.
    Spawn(String),
}

impl BridgeStartError {
    /// What to tell, and the code to exit with.
    pub fn report(&self) -> (r: (String, i32))
        ensures
            r.0@ == match self {
                BridgeStartError::Resolve(e) => "error: failed to resolve bridge: "@ + e@,
                BridgeStartError::Spawn(e) => "error: failed to spawn bridge: "@ + e@,
            },
            r.1 == exit_code(HeadlessExit::ConnectionFailed),
            r.1 == 4,
    {
        let line = match self {
            BridgeStartError::Resolve(e) => {
                let mut line = "error: failed to resolve bridge: ".to_owned();
                line.append(e.as_str());
                line
            },
            BridgeStartError::Spawn(e) => {
                let mut line = "error: failed to spawn bridge: ".to_owned();
                line.append(e.as_str());
                line
            },
        };
        (line, HeadlessExit::ConnectionFailed.code())
    }
}

/// Once standard input has been read, or where it need not be, print mode knows
/// what to do.
pub proof fn print_mode_reads_stdin_at_most_once(
    args: PrintArgsView,
    skip: bool,
    mode: Option<CliPermissionMode>,
    require_explicit: bool,
    stdin: StdinView,
)
    ensures
        print_step(args, skip, mode, require_explicit, stdin) is ReadStdin ==> stdin is Unread
            && args.prompt is None,
{
}

/// No session is started with a blank prompt.
pub proof fn launched_prompts_say_something(
    args: PrintArgsView,
    skip: bool,
    mode: Option<CliPermissionMode>,
    require_explicit: bool,
    stdin: StdinView,
)
    ensures
        print_step(args, skip, mode, require_explicit, stdin) matches PrintStepView::Launch {
            prompt,
            ..
        } ==> prompt.len() > 0,
{
}

/// The settings of a session say the permission mode, and the model and the most turns exactly
/// where they are given.
pub proof fn settings_say_what_was_asked(
    permission_mode: Seq<char>,
    model: Option<Seq<char>>,
    max_turns: Option<u32>,
)
    ensures
        ({
            let settings = launch_settings_tree(permission_mode, model, max_turns);
            &&& get(settings, "permissions"@) matches Some(below) && get(below, "defaultMode"@)
                == Some(Tree::Text(permission_mode))
            &&& get(settings, "model"@) == match model {
                Some(m) => Some(Tree::Text(m)),
                None => None,
            }
            &&& get(settings, "maxTurns"@) == match max_turns {
                Some(n) => Some(Tree::Number(NumberTree::Unsigned(n as u64))),
                None => None,
            }
        }),
{
    reveal_strlit("permissions");
    reveal_strlit("model");
    reveal_strlit("maxTurns");
    assert("permissions"@.len() == 11 && "model"@.len() == 5 && "maxTurns"@.len() == 8);
    reveal_with_fuel(entry_of, 4);
    let entries = launch_settings_tree(permission_mode, model, max_turns)->Object_0;
    let last = entries[entries.len() - 1];
    assert(last.0 == "permissions"@);
    let mode = seq![("defaultMode"@, Tree::Text(permission_mode))];
    assert(last.1 == Tree::Object(mode));
    assert(mode[0] == ("defaultMode"@, Tree::Text(permission_mode)));
    if model is Some && max_turns is Some {
        assert(entries[0].0 == "maxTurns"@ && entries[1].0 == "model"@);
        assert(entries.drop_first()[0] == entries[1]);
        assert(entries.drop_first().drop_first()[0] == entries[2]);
    } else if model is Some {
        assert(entries[0].0 == "model"@);
        assert(entries.drop_first()[0] == entries[1]);
    } else if max_turns is Some {
        assert(entries[0].0 == "maxTurns"@);
        assert(entries.drop_first()[0] == entries[1]);
    }
}

/// Print mode starts a session with the prompt, trimmed, of the command line or else of standard
/// input, in the mode that was chosen. To skip all permissions beats a mode that was chosen; it
/// is also what is done, with a warning first, where none was chosen. The model and the most
/// turns are those of the command line.
pub proof fn sessions_start_with_what_was_asked(
    args: PrintArgsView,
    skip: bool,
    mode: Option<CliPermissionMode>,
    require_explicit: bool,
    stdin: StdinView,
    prompt: Seq<char>,
)
    requires
        skip || mode is Some || !require_explicit,
        match args.prompt {
            Some(given) => given == prompt,
            None => stdin == StdinView::Read(prompt),
        },
        trim(prompt).len() > 0,
    ensures
        print_step(args, skip, mode, require_explicit, stdin) matches PrintStepView::Launch {
            messages,
            prompt: sent,
            launch_settings,
        } && {
            let chosen = if skip || mode is None {
                "bypassPermissions"@
            } else {
                stored_mode(mode->0)
            };
            &&& sent == trim(prompt)
            &&& launch_settings.settings == Some(
                launch_settings_tree(chosen, args.model, args.max_turns),
            )
            &&& messages.len() == if !skip && mode is None {
                1int
            } else {
                0int
            }
        },
{
}

/// Print mode refuses with code 64, and says why: where policy demands a mode and none was
/// chosen, where there is no prompt and standard input is a terminal or cannot be read, and where
/// the prompt is blank. Where a warning is due, it comes first.
pub proof fn refusals_say_why(
    args: PrintArgsView,
    skip: bool,
    mode: Option<CliPermissionMode>,
    require_explicit: bool,
    stdin: StdinView,
)
    ensures
        ({
            let step = print_step(args, skip, mode, require_explicit, stdin);
            let demanded = !skip && mode is None && require_explicit;
            let blank = match args.prompt {
                Some(given) => trim(given).len() == 0,
                None => stdin matches StdinView::Read(text) && trim(text).len() == 0,
            };
            let unread = args.prompt is None && (stdin is Terminal || stdin is ReadFailed);
            &&& step is Refuse <==> demanded || blank || unread
            &&& step matches PrintStepView::Refuse { messages, code } ==> {
                &&& code == 64
                &&& demanded ==> messages.len() == 2 && messages[0]
                    == "error: --permission-mode required by org policy (LINGXI_HEADLESS_REQUIRE_EXPLICIT_PERMISSION_MODE=1)"@
                    && messages[1]
                    == "hint: pass --permission-mode dontAsk or --dangerously-skip-permissions"@
                &&& !demanded && blank ==> messages.last() == "error: prompt is empty"@
                &&& !demanded && args.prompt is None && stdin is Terminal ==> messages.len() >= 2
                    && messages[messages.len() - 2]
                    == "error: stdin is a TTY and no positional prompt was provided"@
                    && messages.last() == "hint: lingxi-ascendc -p \"your prompt here\""@
                &&& !demanded && args.prompt is None && (stdin matches StdinView::ReadFailed(why)
                    && messages.last() != "error: failed to read prompt from stdin: "@ + why)
                    ==> false
            }
            &&& step is ReadStdin <==> !demanded && args.prompt is None && stdin is Unread
        }),
{
}

} // verus!

//! The command line, as parsed.

use crate::text::copied;
use vstd::prelude::*;

verus! {

/// How the agent asks for permission.
#[derive(Clone, Copy, Debug, PartialEq, Eq)]
pub enum CliPermissionMode {
    Default,
    Auto,
    AcceptEdits,
    Plan,
    DontAsk,
    BypassPermissions,
}

/// The name under which a permission mode is stored.
pub open spec fn stored_mode(mode: CliPermissionMode) -> Seq<char> {
    match mode {
        CliPermissionMode::Default => "default"@,
        CliPermissionMode::Auto => "auto"@,
        CliPermissionMode::AcceptEdits => "acceptEdits"@,
        CliPermissionMode::Plan => "plan"@,
        CliPermissionMode::DontAsk => "dontAsk"@,
        CliPermissionMode::BypassPermissions => "bypassPermissions"@,
    }
}

impl CliPermissionMode {
    /// [`stored_mode`]: the name under which the mode is stored.
    pub fn as_stored(self) -> (r: &'static str)
        ensures
            r@ == stored_mode(self),
    {
        match self {
            CliPermissionMode::Default => "default",
            CliPermissionMode::Auto => "auto",
            CliPermissionMode::AcceptEdits => "acceptEdits",
            CliPermissionMode::Plan => "plan",
            CliPermissionMode::DontAsk => "dontAsk",
            CliPermissionMode::BypassPermissions => "bypassPermissions",
        }
    }
}

/// What to log, by purpose.
#[derive(Clone, Debug, PartialEq, Eq)]
pub enum DiagnosticsPreset {
    Runtime,
    Session,
    Render,
    Bridge,
    Full,
}

/// The tracing filter of a preset.
pub open spec fn preset_filter(preset: DiagnosticsPreset) -> Seq<char> {
    match preset {
        DiagnosticsPreset::Runtime =>
        "info,bridge.lifecycle=debug,bridge.protocol=debug,app.session=debug,app.tool=debug,app.command=debug,app.permission=debug,app.network=debug,app.update=debug"@,
        DiagnosticsPreset::Session =>
        "info,bridge.lifecycle=debug,bridge.protocol=debug,app.session=debug,app.permission=debug,app.command=debug"@,
        DiagnosticsPreset::Render =>
        "info,app.render=trace,app.cache=debug,app.input=debug,app.paste=debug,app.perf=info"@,
        DiagnosticsPreset::Bridge =>
        "info,bridge.lifecycle=debug,bridge.protocol=debug,bridge.sdk=debug,bridge.permission=debug,bridge.mcp=debug"@,
        DiagnosticsPreset::Full =>
        "info,app.render=trace,app.perf=info,bridge.lifecycle=debug,bridge.protocol=debug,bridge.sdk=debug,bridge.permission=debug,bridge.mcp=debug,app.session=debug,app.tool=debug,app.command=debug,app.permission=debug,app.network=debug,app.update=debug,app.cache=debug,app.input=debug,app.paste=debug,app.config=debug,app.auth=debug"@,
    }
}

impl DiagnosticsPreset {
    /// [`preset_filter`]: the tracing filter of the preset.
    pub fn filter_directives(&self) -> (r: &'static str)
        ensures
            r@ == preset_filter(*self),
    {
        match self {
            DiagnosticsPreset::Runtime =>
            "info,bridge.lifecycle=debug,bridge.protocol=debug,app.session=debug,app.tool=debug,app.command=debug,app.permission=debug,app.network=debug,app.update=debug",
            DiagnosticsPreset::Session =>
            "info,bridge.lifecycle=debug,bridge.protocol=debug,app.session=debug,app.permission=debug,app.command=debug",
            DiagnosticsPreset::Render =>
            "info,app.render=trace,app.cache=debug,app.input=debug,app.paste=debug,app.perf=info",
            DiagnosticsPreset::Bridge =>
            "info,bridge.lifecycle=debug,bridge.protocol=debug,bridge.sdk=debug,bridge.permission=debug,bridge.mcp=debug",
            DiagnosticsPreset::Full =>
            "info,app.render=trace,app.perf=info,bridge.lifecycle=debug,bridge.protocol=debug,bridge.sdk=debug,bridge.permission=debug,bridge.mcp=debug,app.session=debug,app.tool=debug,app.command=debug,app.permission=debug,app.network=debug,app.update=debug,app.cache=debug,app.input=debug,app.paste=debug,app.config=debug,app.auth=debug",
        }
    }
}

/// What print mode writes.
#[derive(Clone, Copy, Debug, PartialEq, Eq)]
pub enum PrintOutputFormat {
    /// Text for people.
    Text,
    /// One JSON object per line.
    StreamJson,
}

/// The arguments of print mode.
#[derive(Clone, Debug, PartialEq, Eq)]
pub struct PrintArgs {
    /// The prompt; read from standard input where it is missing.
    pub prompt: Option<String>,
    pub output_format: PrintOutputFormat,
    /// The most agent turns.
    pub max_turns: Option<u32>,
    /// The most seconds in all.
    pub timeout_secs: Option<u64>,
    /// The most seconds without an event.
    pub idle_timeout_secs: u64,
    /// The session to resume.
    pub resume: Option<String>,
    /// Whether to continue the most recent session.
    pub continue_session: bool,
    pub model: Option<String>,
}

/// What to do.
#[derive(Clone, Debug, PartialEq, Eq)]
pub enum Command {
    /// Resume a session, or pick one where none is named.
    Resume { session_id: Option<String> },
    /// Send one prompt and stream the events to standard output.
    Print(PrintArgs),
}

/// The whole command line.
#[derive(Debug, PartialEq, Eq)]
pub struct Cli {
    pub command: Option<Command>,
    pub no_update_check: bool,
    /// The working directory.
    pub dir: Option<String>,
    pub bridge_script: Option<String>,
    pub enable_logs: bool,
    pub diagnostics_preset: Option<DiagnosticsPreset>,
    pub log_file: Option<String>,
    pub log_filter: Option<String>,
    pub log_append: bool,
    pub enable_perf: bool,
    pub perf_log: Option<String>,
    pub perf_append: bool,
    pub permission_mode: Option<CliPermissionMode>,
    pub dangerously_skip_permissions: bool,
    /// The prompt of `-p`, the short form of print mode.
    pub print: Option<String>,
}

/// The content of [`PrintArgs`].
pub struct PrintArgsView {
    pub prompt: Option<Seq<char>>,
    pub output_format: PrintOutputFormat,
    pub max_turns: Option<u32>,
    pub timeout_secs: Option<u64>,
    pub idle_timeout_secs: u64,
    pub resume: Option<Seq<char>>,
    pub continue_session: bool,
    pub model: Option<Seq<char>>,
}

/// The content of a [`Command`].
pub enum CommandLineView {
    Resume { session_id: Option<Seq<char>> },
    Print(PrintArgsView),
}

impl DeepView for PrintArgs {
    type V = PrintArgsView;

    open spec fn deep_view(&self) -> PrintArgsView {
        PrintArgsView {
            prompt: self.prompt.deep_view(),
            output_format: self.output_format,
            max_turns: self.max_turns,
            timeout_secs: self.timeout_secs,
            idle_timeout_secs: self.idle_timeout_secs,
            resume: self.resume.deep_view(),
            continue_session: self.continue_session,
            model: self.model.deep_view(),
        }
    }
}

impl DeepView for Command {
    type V = CommandLineView;

    open spec fn deep_view(&self) -> CommandLineView {
        match self {
            Command::Resume { session_id } => CommandLineView::Resume {
                session_id: session_id.deep_view(),
            },
            Command::Print(args) => CommandLineView::Print(args.deep_view()),
        }
    }
}

/// The seconds without an event that print mode allows where nothing else is said.
pub const DEFAULT_IDLE_TIMEOUT_SECS: u64 = 1800;

/// The arguments that a bare `-p` stands for.
pub open spec fn print_defaults(prompt: Seq<char>) -> PrintArgsView {
    PrintArgsView {
        prompt: Some(prompt),
        output_format: PrintOutputFormat::StreamJson,
        max_turns: None,
        timeout_secs: None,
        idle_timeout_secs: DEFAULT_IDLE_TIMEOUT_SECS,
        resume: None,
        continue_session: false,
        model: None,
    }
}

/// Why no command follows from a command line.
#[derive(Clone, Copy, Debug, PartialEq, Eq)]
pub enum ResolveError {
    /// Both `-p` and a subcommand were given.
    PrintWithSubcommand,
    /// Neither was given.
    NoSubcommand,
}

impl ResolveError {
    /// What to tell the user.
    pub fn message(&self) -> (r: String)
        ensures
            r@ == match self {
                ResolveError::PrintWithSubcommand =>
                "the argument '-p <PROMPT>' cannot be used with a subcommand"@,
                ResolveError::NoSubcommand => "no subcommand"@,
            },
    {
        match self {
            ResolveError::PrintWithSubcommand =>
            "the argument '-p <PROMPT>' cannot be used with a subcommand".to_owned(),
            ResolveError::NoSubcommand => "no subcommand".to_owned(),
        }
    }
}

impl PrintArgs {
    /// The same arguments once more.
    pub fn copy(&self) -> (r: PrintArgs)
        ensures
            r.deep_view() == self.deep_view(),
    {
        PrintArgs {
            prompt: copied(&self.prompt),
            output_format: self.output_format,
            max_turns: self.max_turns,
            timeout_secs: self.timeout_secs,
            idle_timeout_secs: self.idle_timeout_secs,
            resume: copied(&self.resume),
            continue_session: self.continue_session,
            model: copied(&self.model),
        }
    }
}

impl Command {
    /// The same command once more.
    pub fn copy(&self) -> (r: Command)
        ensures
            r.deep_view() == self.deep_view(),
    {
        match self {
            Command::Resume { session_id } => Command::Resume { session_id: copied(session_id) },
            Command::Print(args) => Command::Print(args.copy()),
        }
    }
}

/// The command that follows from a subcommand and the prompt of `-p`: the
/// subcommand, or print mode for the prompt. The two exclude each other.
pub open spec fn resolved_command(
    command: Option<CommandLineView>,
    print: Option<Seq<char>>,
) -> Result<CommandLineView, ResolveError> {
    match (command, print) {
        (Some(_), Some(_)) => Err(ResolveError::PrintWithSubcommand),
        (Some(given), None) => Ok(given),
        (None, Some(prompt)) => Ok(CommandLineView::Print(print_defaults(prompt))),
        (None, None) => Err(ResolveError::NoSubcommand),
    }
}

impl Cli {
    /// The permission mode that the flags ask for; `None` leaves it to the settings.
    pub fn resolved_permission_mode(&self) -> (r: Option<CliPermissionMode>)
        ensures
            r == if self.dangerously_skip_permissions {
                Some(CliPermissionMode::BypassPermissions)
            } else {
                self.permission_mode
            },
            self.dangerously_skip_permissions ==> r == Some(CliPermissionMode::BypassPermissions),
            !self.dangerously_skip_permissions ==> r == self.permission_mode,
    {
        if self.dangerously_skip_permissions {
            return Some(CliPermissionMode::BypassPermissions);
        }
        self.permission_mode
    }

    /// [`resolved_command`]: the command that follows from the command line.
    pub fn resolve_command(&self) -> (r: Result<Command, ResolveError>)
        ensures
            match r {
                Ok(command) => resolved_command(self.command.deep_view(), self.print.deep_view())
                    == Ok::<CommandLineView, ResolveError>(command.deep_view()),
                Err(e) => resolved_command(self.command.deep_view(), self.print.deep_view())
                    == Err::<CommandLineView, ResolveError>(e),
            },
    {
        match (&self.command, &self.print) {
            (Some(_), Some(_)) => Err(ResolveError::PrintWithSubcommand),
            (Some(command), None) => Ok(command.copy()),
            (None, Some(prompt)) => Ok(
                Command::Print(
                    PrintArgs {
                        prompt: Some(prompt.clone()),
                        output_format: PrintOutputFormat::StreamJson,
                        max_turns: None,
                        timeout_secs: None,
                        idle_timeout_secs: DEFAULT_IDLE_TIMEOUT_SECS,
                        resume: None,
                        continue_session: false,
                        model: None,
                    },
                ),
            ),
            (None, None) => Err(ResolveError::NoSubcommand),
        }
    }

    /// Whether the command line asks for print mode.
    pub fn wants_print(&self) -> (r: bool)
        ensures
            r == (self.print is Some || self.command matches Some(Command::Print(_))),
            self.print is Some ==> r,
            self.print is None && self.command is None ==> !r,
            self.command matches Some(Command::Print(_)) ==> r,
    {
        if self.print.is_some() {
            return true;
        }
        match &self.command {
            Some(Command::Print(_)) => true,
            _ => false,
        }
    }
}

/// `-p` with a prompt and the print subcommand with that prompt and nothing else
/// resolve alike.
pub proof fn short_print_is_the_print_command(prompt: Seq<char>)
    ensures
        resolved_command(None, Some(prompt)) == resolved_command(
            Some(CommandLineView::Print(print_defaults(prompt))),
            None,
        ),
        resolved_command(None, Some(prompt)) == Ok::<CommandLineView, ResolveError>(
            CommandLineView::Print(print_defaults(prompt)),
        ),
{
}

/// Where print mode is wanted and a command follows, that command is print mode.
pub proof fn wanted_print_resolves_to_print(
    command: Option<CommandLineView>,
    print: Option<Seq<char>>,
)
    requires
        print is Some || command matches Some(CommandLineView::Print(_)),
    ensures
        resolved_command(command, print) matches Ok(resolved) ==> resolved is Print,
{
}

/// Each permission mode is stored under the name that the bridge knows.
pub proof fn modes_have_their_names()
    ensures
        stored_mode(CliPermissionMode::Default) == "default"@,
        stored_mode(CliPermissionMode::Auto) == "auto"@,
        stored_mode(CliPermissionMode::AcceptEdits) == "acceptEdits"@,
        stored_mode(CliPermissionMode::Plan) == "plan"@,
        stored_mode(CliPermissionMode::DontAsk) == "dontAsk"@,
        stored_mode(CliPermissionMode::BypassPermissions) == "bypassPermissions"@,
{
}

/// Different permission modes are stored under different names.
pub proof fn different_modes_have_different_names(a: CliPermissionMode, b: CliPermissionMode)
    requires
        a != b,
    ensures
        stored_mode(a) != stored_mode(b),
{
    reveal_strlit("default");
    reveal_strlit("auto");
    reveal_strlit("acceptEdits");
    reveal_strlit("plan");
    reveal_strlit("dontAsk");
    reveal_strlit("bypassPermissions");
    assert("default"@.len() == 7 && "default"@[1] == 'e');
    assert("dontAsk"@.len() == 7 && "dontAsk"@[1] == 'o');
    assert("auto"@.len() == 4 && "auto"@[0] == 'a');
    assert("plan"@.len() == 4 && "plan"@[0] == 'p');
    assert("acceptEdits"@.len() == 11);
    assert("bypassPermissions"@.len() == 17);
}

/// `-p` prints one JSON object per line, gives up after half an hour without an event, and leaves
/// everything else open: the turns, the time in all, the model and the session to resume.
pub proof fn a_bare_prompt_leaves_the_rest_open(prompt: Seq<char>)
    ensures
        resolved_command(None, Some(prompt)) matches Ok(CommandLineView::Print(args)) && {
            &&& args.prompt == Some(prompt)
            &&& args.output_format == PrintOutputFormat::StreamJson
            &&& args.idle_timeout_secs == 1800
            &&& args.max_turns is None
            &&& args.timeout_secs is None
            &&& args.resume is None
            &&& !args.continue_session
            &&& args.model is None
        },
{
}

/// A subcommand alone is followed as it was given; a subcommand and `-p` exclude each other, and
/// without either there is nothing to follow.
pub proof fn subcommands_are_followed_as_given(command: CommandLineView, prompt: Seq<char>)
    ensures
        resolved_command(Some(command), None) == Ok::<CommandLineView, ResolveError>(command),
        resolved_command(Some(command), Some(prompt)) == Err::<CommandLineView, ResolveError>(
            ResolveError::PrintWithSubcommand,
        ),
        resolved_command(None, None) == Err::<CommandLineView, ResolveError>(
            ResolveError::NoSubcommand,
        ),
{
}

/// Each preset logs what its purpose needs, and everything else from the level of information on.
pub proof fn presets_have_their_filters()
    ensures
        preset_filter(DiagnosticsPreset::Runtime)
            == "info,bridge.lifecycle=debug,bridge.protocol=debug,app.session=debug,app.tool=debug,app.command=debug,app.permission=debug,app.network=debug,app.update=debug"@,
        preset_filter(DiagnosticsPreset::Session)
            == "info,bridge.lifecycle=debug,bridge.protocol=debug,app.session=debug,app.permission=debug,app.command=debug"@,
        preset_filter(DiagnosticsPreset::Render)
            == "info,app.render=trace,app.cache=debug,app.input=debug,app.paste=debug,app.perf=info"@,
        preset_filter(DiagnosticsPreset::Bridge)
            == "info,bridge.lifecycle=debug,bridge.protocol=debug,bridge.sdk=debug,bridge.permission=debug,bridge.mcp=debug"@,
        preset_filter(DiagnosticsPreset::Full)
            == "info,app.render=trace,app.perf=info,bridge.lifecycle=debug,bridge.protocol=debug,bridge.sdk=debug,bridge.permission=debug,bridge.mcp=debug,app.session=debug,app.tool=debug,app.command=debug,app.permission=debug,app.network=debug,app.update=debug,app.cache=debug,app.input=debug,app.paste=debug,app.config=debug,app.auth=debug"@,
{
}

} // verus!

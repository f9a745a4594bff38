use clap::builder::{PossibleValuesParser, RangedU64ValueParser};
use clap::{Arg, ArgAction, ArgMatches};
use lingxi_ascendc::cli::ResolveError;
use lingxi_ascendc::{Cli, CliPermissionMode, Command, DiagnosticsPreset, PrintArgs, PrintOutputFormat};

fn command_line() -> clap::Command {
    let print = clap::Command::new("print")
        .arg(Arg::new("prompt"))
        .arg(
            Arg::new("output_format")
                .long("output-format")
                .value_parser(PossibleValuesParser::new(["text", "stream-json"]))
                .default_value("stream-json"),
        )
        .arg(
            Arg::new("max_turns")
                .long("max-turns")
                .value_parser(RangedU64ValueParser::<u32>::new()),
        )
        .arg(
            Arg::new("timeout_secs")
                .long("timeout-secs")
                .value_parser(RangedU64ValueParser::<u64>::new()),
        )
        .arg(
            Arg::new("idle_timeout_secs")
                .long("idle-timeout-secs")
                .value_parser(RangedU64ValueParser::<u64>::new())
                .default_value("1800"),
        )
        .arg(Arg::new("resume").long("resume").conflicts_with("continue"))
        .arg(Arg::new("continue").long("continue").action(ArgAction::SetTrue))
        .arg(Arg::new("model").long("model"));
    clap::Command::new("lingxi-ascendc")
        .arg(Arg::new("print").short('p').long("print"))
        .subcommand(clap::Command::new("resume").arg(Arg::new("session_id")))
        .subcommand(print)
}

fn text(m: &ArgMatches, name: &str) -> Option<String> {
    m.get_one::<String>(name).cloned()
}

fn try_parse_from(args: &[&str]) -> Result<Cli, clap::Error> {
    let m = command_line().try_get_matches_from(args)?;
    let command = match m.subcommand() {
        Some(("resume", sub)) => Some(Command::Resume { session_id: text(sub, "session_id") }),
        Some((_, sub)) => Some(Command::Print(PrintArgs {
            prompt: text(sub, "prompt"),
            output_format: match text(sub, "output_format").as_deref() {
                Some("text") => PrintOutputFormat::Text,
                _ => PrintOutputFormat::StreamJson,
            },
            max_turns: sub.get_one::<u32>("max_turns").copied(),
            timeout_secs: sub.get_one::<u64>("timeout_secs").copied(),
            idle_timeout_secs: sub.get_one::<u64>("idle_timeout_secs").copied().unwrap_or(0),
            resume: text(sub, "resume"),
            continue_session: sub.get_flag("continue"),
            model: text(sub, "model"),
        })),
        None => None,
    };
    Ok(Cli { command, print: text(&m, "print"), ..bare() })
}

fn bare() -> Cli {
    Cli {
        command: None,
        no_update_check: false,
        dir: None,
        bridge_script: None,
        enable_logs: false,
        diagnostics_preset: None,
        log_file: None,
        log_filter: None,
        log_append: false,
        enable_perf: false,
        perf_log: None,
        perf_append: false,
        permission_mode: None,
        dangerously_skip_permissions: false,
        print: None,
    }
}

#[test]
fn cli_without_subcommand_starts_new_session() {
    let cli = try_parse_from(&["lingxi-ascendc"]).expect("parse");
    assert!(cli.command.is_none());
}

#[test]
fn cli_resume_without_id_requests_picker() {
    let cli = try_parse_from(&["lingxi-ascendc", "resume"]).expect("parse");
    assert_eq!(cli.command, Some(Command::Resume { session_id: None }));
}

#[test]
fn cli_resume_with_id_resumes_directly() {
    let cli = try_parse_from(&["lingxi-ascendc", "resume", "abc-123"]).expect("parse");
    assert_eq!(cli.command, Some(Command::Resume { session_id: Some("abc-123".to_owned()) }));
}

#[test]
fn cli_rejects_legacy_resume_flag() {
    assert!(try_parse_from(&["lingxi-ascendc", "--resume", "abc-123"]).is_err());
}

#[test]
fn cli_print_subcommand_with_positional_prompt() {
    let cli = try_parse_from(&["lingxi-ascendc", "print", "hello"]).expect("parse");
    let cmd = cli.resolve_command().expect("resolve");
    let Command::Print(args) = cmd else { panic!("expected Print, got {cmd:?}") };
    assert_eq!(args.prompt.as_deref(), Some("hello"));
    assert_eq!(args.output_format, PrintOutputFormat::StreamJson);
    assert_eq!(args.idle_timeout_secs, 1800);
    assert!(args.max_turns.is_none());
    assert!(args.timeout_secs.is_none());
}

#[test]
fn cli_top_level_dash_p_is_alias_for_print() {
    let cli = try_parse_from(&["lingxi-ascendc", "-p", "hi"]).expect("parse");
    let cmd = cli.resolve_command().expect("resolve");
    let Command::Print(args) = cmd else { panic!("expected Print") };
    assert_eq!(args.prompt.as_deref(), Some("hi"));
}

#[test]
fn cli_print_text_format_and_max_turns() {
    let cli = try_parse_from(&[
        "lingxi-ascendc", "print", "--output-format", "text",
        "--max-turns", "5", "go",
    ])
    .expect("parse");
    let Command::Print(args) = cli.resolve_command().expect("resolve") else { panic!() };
    assert_eq!(args.output_format, PrintOutputFormat::Text);
    assert_eq!(args.max_turns, Some(5));
    assert_eq!(args.prompt.as_deref(), Some("go"));
}

#[test]
fn cli_print_resume_and_continue_are_mutually_exclusive() {
    let err = try_parse_from(&[
        "lingxi-ascendc", "print", "--resume", "abc", "--continue", "hi",
    ])
    .expect_err("clap should reject");
    assert!(err.to_string().contains("cannot be used"), "actual: {err}");
}

#[test]
fn cli_dash_p_with_other_subcommand_is_rejected() {
    // `conflicts_with = "command"` is not supported by clap for subcommand-derived
    // fields, so parsing succeeds; the conflict is rejected manually inside
    // `resolve_command`. Verify the manual path actually triggers.
    let parsed = try_parse_from(&["lingxi-ascendc", "-p", "hi", "resume"])
        .expect("parsing succeeds; rejection happens in resolve_command");
    let err = parsed.resolve_command().expect_err(
        "-p with another subcommand must fail in resolve_command",
    );
    assert!(
        err.message().contains("cannot be used"),
        "actual: {err:?}"
    );
}

#[test]
fn both_forms_of_print_resolve_alike() {
    let short = try_parse_from(&["lingxi-ascendc", "-p", "hi"]).expect("parse");
    let long = try_parse_from(&["lingxi-ascendc", "print", "hi"]).expect("parse");
    let expected = Command::Print(PrintArgs {
        prompt: Some("hi".to_owned()),
        output_format: PrintOutputFormat::StreamJson,
        max_turns: None,
        timeout_secs: None,
        idle_timeout_secs: 1800,
        resume: None,
        continue_session: false,
        model: None,
    });
    assert_eq!(short.resolve_command().as_ref(), Ok(&expected));
    assert_eq!(long.resolve_command().as_ref(), Ok(&expected));
}

#[test]
fn a_bare_command_line_resolves_to_nothing() {
    let err = bare().resolve_command().unwrap_err();
    assert_eq!(err, ResolveError::NoSubcommand);
    assert_eq!(err.message(), "no subcommand");
    assert!(!bare().wants_print());
}

#[test]
fn skipping_permissions_beats_the_mode() {
    let cli = Cli { permission_mode: Some(CliPermissionMode::Plan), ..bare() };
    assert_eq!(cli.resolved_permission_mode(), Some(CliPermissionMode::Plan));
    let cli = Cli { dangerously_skip_permissions: true, ..cli };
    assert_eq!(cli.resolved_permission_mode(), Some(CliPermissionMode::BypassPermissions));
    assert_eq!(bare().resolved_permission_mode(), None);
}

#[test]
fn modes_and_presets_have_their_names() {
    let names: Vec<&str> = [
        CliPermissionMode::Default,
        CliPermissionMode::Auto,
        CliPermissionMode::AcceptEdits,
        CliPermissionMode::Plan,
        CliPermissionMode::DontAsk,
        CliPermissionMode::BypassPermissions,
    ]
    .into_iter()
    .map(CliPermissionMode::as_stored)
    .collect();
    assert_eq!(
        names,
        vec!["default", "auto", "acceptEdits", "plan", "dontAsk", "bypassPermissions"]
    );
    assert_eq!(
        DiagnosticsPreset::Render.filter_directives(),
        "info,app.render=trace,app.cache=debug,app.input=debug,app.paste=debug,app.perf=info"
    );
    assert!(DiagnosticsPreset::Full.filter_directives().ends_with("app.auth=debug"));
}

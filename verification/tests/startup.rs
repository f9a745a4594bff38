use lingxi_ascendc::cli::ResolveError;
use lingxi_ascendc::startup::{
    apply_settings_env_overrides, choose_workspace, exit_report, perf_refusal, python_path,
    resume_hint, start_mode, EnvOverride, RunOutcome, StartMode,
};
use lingxi_ascendc::{Cli, Command, PrintArgs, PrintOutputFormat};

fn setting(key: &str, value: &str, already_set: bool) -> EnvOverride {
    EnvOverride { key: key.to_owned(), value: value.to_owned(), already_set }
}

#[test]
fn settings_only_fill_the_gaps() {
    let chosen = apply_settings_env_overrides(&vec![
        setting("A", "1", false),
        setting("B", "2", true),
        setting("A", "3", false),
        setting("C", "4", false),
    ]);
    assert_eq!(
        chosen,
        vec![("A".to_owned(), "1".to_owned()), ("C".to_owned(), "4".to_owned())]
    );
    assert!(apply_settings_env_overrides(&Vec::new()).is_empty());
}

#[test]
fn workspaces_fall_back() {
    assert_eq!(choose_workspace(Some("d"), Some("c"), "."), "d");
    assert_eq!(choose_workspace(None, Some("c"), "."), "c");
    assert_eq!(choose_workspace(None, None, "."), ".");
}

#[test]
fn resources_come_first_on_the_python_path() {
    assert_eq!(python_path(b"/r".to_vec(), Some(b"/x".to_vec()), b':'), b"/r:/x".to_vec());
    assert_eq!(python_path(b"/r".to_vec(), Some(Vec::new()), b':'), b"/r".to_vec());
    assert_eq!(python_path(b"/r".to_vec(), None, b':'), b"/r".to_vec());
}

fn cli(command: Option<Command>, print: Option<&str>) -> Cli {
    Cli {
        command,
        no_update_check: false,
        dir: None,
        bridge_script: None,
        enable_logs: false,
        diagnostics_preset: None,
        log_file: None,
        log_filter: None,
        log_append: false,
        enable_perf: false,
        perf_log: None,
        perf_append: false,
        permission_mode: None,
        dangerously_skip_permissions: false,
        print: print.map(str::to_owned),
    }
}

#[test]
fn print_mode_starts_where_it_is_asked_for() {
    let args = PrintArgs {
        prompt: Some("hi".to_owned()),
        output_format: PrintOutputFormat::StreamJson,
        max_turns: None,
        timeout_secs: None,
        idle_timeout_secs: 1800,
        resume: None,
        continue_session: false,
        model: None,
    };
    let print = Command::Print(args.clone());
    let resume = Command::Resume { session_id: None };
    assert_eq!(start_mode(&cli(None, None)), Ok(StartMode::Interactive));
    assert_eq!(start_mode(&cli(Some(resume.clone()), None)), Ok(StartMode::Interactive));
    assert_eq!(start_mode(&cli(None, Some("hi"))), Ok(StartMode::Print(args.clone())));
    assert_eq!(start_mode(&cli(Some(print.clone()), None)), Ok(StartMode::Print(args)));
    for command in [print, resume] {
        assert_eq!(
            start_mode(&cli(Some(command), Some("hi"))),
            Err(ResolveError::PrintWithSubcommand)
        );
    }
}

#[test]
fn hints_and_refusals() {
    assert_eq!(
        resume_hint(true, Some("s1")).as_deref(),
        Some("Resume this session: lingxi-ascendc resume s1")
    );
    assert_eq!(resume_hint(false, Some("s1")), None);
    assert_eq!(resume_hint(true, None), None);
    assert!(perf_refusal(true, false).is_some());
    assert_eq!(perf_refusal(true, true), None);
    assert_eq!(perf_refusal(false, false), None);
}

#[test]
fn runs_end_with_a_code_and_a_message() {
    assert_eq!(exit_report(RunOutcome::Finished(4)), (None, 4));
    let known = RunOutcome::KnownError { message: "m".to_owned(), code: 9 };
    assert_eq!(exit_report(known), (Some("m".to_owned()), 9));
    let other = RunOutcome::OtherError { message: "m".to_owned() };
    assert_eq!(exit_report(other), (Some("m".to_owned()), 1));
}

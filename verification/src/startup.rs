//! What is settled before anything is started.

use crate::cli::{print_defaults, Cli, Command, PrintArgs, ResolveError};
use crate::text::same;
use vstd::prelude::*;

verus! {

/// A variable that the settings ask for.
#[derive(Debug, PartialEq, Eq)]
pub struct EnvOverride {
    pub key: String,
    pub value: String,
    /// Whether the environment has a value for it already.
    pub already_set: bool,
}

/// The content of an [`EnvOverride`].
pub struct EnvOverrideView {
    pub key: Seq<char>,
    pub value: Seq<char>,
    pub already_set: bool,
}

impl DeepView for EnvOverride {
    type V = EnvOverrideView;

    open spec fn deep_view(&self) -> EnvOverrideView {
        EnvOverrideView { key: self.key@, value: self.value@, already_set: self.already_set }
    }
}

/// Whether a variable is among those to set.
pub open spec fn sets(chosen: Seq<(Seq<char>, Seq<char>)>, key: Seq<char>) -> bool {
    exists|i: int| 0 <= i < chosen.len() && (#[trigger] chosen[i]).0 == key
}

/// The variables to set. What the environment has goes before the settings, and
/// of several settings for one variable the first counts.
pub open spec fn variables_to_set(overrides: Seq<EnvOverrideView>) -> Seq<(Seq<char>, Seq<char>)>
    decreases overrides.len(),
{
    if overrides.len() == 0 {
        Seq::empty()
    } else {
        let earlier = variables_to_set(overrides.drop_last());
        let last = overrides.last();
        if last.already_set || sets(earlier, last.key) {
            earlier
        } else {
            earlier.push((last.key, last.value))
        }
    }
}

fn key_is_chosen(chosen: &Vec<(String, String)>, key: &str) -> (r: bool)
    ensures
        r == sets(chosen.deep_view(), key@),
{
    let ghost all = chosen.deep_view();
    let mut i: usize = 0;
    while i < chosen.len()
        invariant
            i <= chosen@.len(),
            all == chosen.deep_view(),
            forall|j: int| 0 <= j < i ==> (#[trigger] all[j]).0 != key@,
        decreases chosen@.len() - i,
    {
        assert(all[i as int].0 == chosen@[i as int].0@);
        if same(chosen[i].0.as_str(), key) {
            return true;
        }
        i = i + 1;
    }
    false
}

/// [`variables_to_set`]: the variables to set, with their values, in order.
pub fn apply_settings_env_overrides(overrides: &Vec<EnvOverride>) -> (r: Vec<(String, String)>)
    ensures
        r.deep_view() == variables_to_set(overrides.deep_view()),
{
    let ghost all = overrides.deep_view();
    let mut chosen: Vec<(String, String)> = Vec::new();
    let mut i: usize = 0;
    assert(all.take(0) =~= Seq::empty());
    assert(chosen.deep_view() =~= Seq::empty());
    while i < overrides.len()
        invariant
            i <= overrides@.len(),
            all == overrides.deep_view(),
            chosen.deep_view() == variables_to_set(all.take(i as int)),
        decreases overrides@.len() - i,
    {
        let next = &overrides[i];
        proof {
            assert(all.take(i as int + 1).drop_last() =~= all.take(i as int));
            assert(all[i as int] == next.deep_view());
        }
        if !next.already_set && !key_is_chosen(&chosen, next.key.as_str()) {
            let ghost given = chosen.deep_view();
            chosen.push((next.key.clone(), next.value.clone()));
            assert(chosen.deep_view() =~= given.push((next.key@, next.value@)));
        }
        i = i + 1;
    }
    assert(all.take(i as int) =~= all);
    chosen
}

/// No variable that the environment has is set again, and none is set twice.
pub proof fn shell_environment_wins(overrides: Seq<EnvOverrideView>)
    ensures
        ({
            let chosen = variables_to_set(overrides);
            &&& forall|i: int, j: int|
                0 <= i < j < chosen.len() ==> (#[trigger] chosen[i]).0 != (#[trigger] chosen[j]).0
            &&& forall|i: int|
                0 <= i < chosen.len() ==> exists|k: int|
                    0 <= k < overrides.len() && !(#[trigger] overrides[k]).already_set
                        && overrides[k].key == (#[trigger] chosen[i]).0 && overrides[k].value
                        == chosen[i].1
        }),
    decreases overrides.len(),
{
    if overrides.len() > 0 {
        let before = overrides.drop_last();
        shell_environment_wins(before);
        let earlier = variables_to_set(before);
        let chosen = variables_to_set(overrides);
        assert forall|i: int| 0 <= i < chosen.len() implies exists|k: int|
            0 <= k < overrides.len() && !(#[trigger] overrides[k]).already_set && overrides[k].key
                == (#[trigger] chosen[i]).0 && overrides[k].value == chosen[i].1 by {
            if i < earlier.len() {
                assert(chosen[i] == earlier[i]);
                let k = choose|k: int|
                    0 <= k < before.len() && !(#[trigger] before[k]).already_set && before[k].key
                        == earlier[i].0 && before[k].value == earlier[i].1;
                assert(overrides[k] == before[k]);
            } else {
                let k = overrides.len() - 1;
                assert(overrides[k] == overrides.last());
            }
        }
    }
}

/// The workspace: the directory that was asked for, else the current one, else
/// the one that is left to fall back on.
pub fn choose_workspace<P>(dir: Option<P>, current: Option<P>, fallback: P) -> (r: P)
    ensures
        r == match (dir, current) {
            (Some(d), _) => d,
            (None, Some(c)) => c,
            (None, None) => fallback,
        },
        dir is Some ==> Some(r) == dir,
        dir is None && current is Some ==> Some(r) == current,
        dir is None && current is None ==> r == fallback,
{
    match dir {
        Some(d) => d,
        None => match current {
            Some(c) => c,
            None => fallback,
        },
    }
}

/// The search path for Python modules, as bytes: the packaged resources come
/// first, what was set before follows behind a separator.
pub fn python_path(resources: Vec<u8>, existing: Option<Vec<u8>>, separator: u8) -> (r: Vec<u8>)
    ensures
        r@ == match existing {
            Some(e) => if e@.len() > 0 {
                resources@.push(separator) + e@
            } else {
                resources@
            },
            None => resources@,
        },
        resources@.is_prefix_of(r@),
        existing matches Some(e) ==> e@.len() > 0 ==> {
            &&& r@.len() == resources@.len() + 1 + e@.len()
            &&& r@[resources@.len() as int] == separator
            &&& r@.skip(resources@.len() as int + 1) == e@
        },
        existing is None || existing->0@.len() == 0 ==> r@ == resources@,
{
    let ghost first = resources@;
    let ghost given = existing;
    let mut out = resources;
    match existing {
        Some(e) => {
            if e.len() > 0 {
                let mut e = e;
                out.push(separator);
                out.append(&mut e);
            }
        },
        None => {},
    }
    proof {
        assert(out@.subrange(0, first.len() as int) =~= first);
        if let Some(e) = given {
            if e@.len() > 0 {
                assert(out@.skip(first.len() as int + 1) =~= e@);
            }
        }
    }
    out
}

/// What the command line starts.
#[derive(Debug, PartialEq, Eq)]
pub enum StartMode {
    /// Print mode.
    Print(PrintArgs),
    /// The terminal interface.
    Interactive,
}

/// What the command line starts: print mode where it is asked for, by `-p` or by
/// the subcommand but not by both, else the terminal interface.
pub fn start_mode(cli: &Cli) -> (r: Result<StartMode, ResolveError>)
    ensures
        match (cli.print, cli.command) {
            (Some(_), Some(_)) => r == Err::<StartMode, _>(ResolveError::PrintWithSubcommand),
            (Some(prompt), None) => r matches Ok(StartMode::Print(args)) && args.deep_view()
                == print_defaults(prompt@),
            (None, Some(Command::Print(given))) => r matches Ok(StartMode::Print(args))
                && args.deep_view() == given.deep_view(),
            (None, _) => r == Ok::<StartMode, ResolveError>(StartMode::Interactive),
        },
        r is Err <==> cli.print is Some && cli.command is Some,
        cli.print is Some && cli.command is None ==> (r matches Ok(StartMode::Print(args))
            && args.deep_view().prompt == Some(cli.print->0@) && args.deep_view().resume is None),
        r matches Ok(StartMode::Interactive) <==> cli.print is None && !(cli.command matches Some(
            Command::Print(_),
        )),
{
    if !cli.wants_print() {
        return Ok(StartMode::Interactive);
    }
    match cli.resolve_command() {
        Ok(Command::Print(args)) => Ok(StartMode::Print(args)),
        Ok(Command::Resume { .. }) => Ok(StartMode::Interactive),
        Err(e) => Err(e),
    }
}

/// What refuses telemetry that the binary was not built for.
pub fn perf_refusal(requested: bool, built_in: bool) -> (r: Option<String>)
    ensures
        match r {
            Some(text) => requested && !built_in && text@
                == "perf telemetry requires a binary built with `--features perf`"@,
            None => !requested || built_in,
        },
        r is Some <==> requested && !built_in,
{
    if requested && !built_in {
        Some("perf telemetry requires a binary built with `--features perf`".to_owned())
    } else {
        None
    }
}

/// How to come back to a session, where it ended well and has an id.
pub fn resume_hint(success: bool, session_id: Option<&str>) -> (r: Option<String>)
    ensures
        match r {
            Some(text) => {
                &&& success
                &&& session_id matches Some(id) && text@
                    == "Resume this session: lingxi-ascendc resume "@ + id@
            },
            None => !success || session_id is None,
        },
        r is Some <==> success && session_id is Some,
{
    if !success {
        return None;
    }
    match session_id {
        Some(id) => {
            let mut text = "Resume this session: lingxi-ascendc resume ".to_owned();
            text.append(id);
            Some(text)
        },
        None => None,
    }
}

/// How a run of the program ended.
#[derive(Debug, PartialEq, Eq)]
pub enum RunOutcome {
    /// With an exit code.
    Finished(i32),
    /// With an error that knows what to tell the user and how to exit.
    KnownError { message: String, code: i32 },
    /// With any other error.
    OtherError { message: String },
}

/// What to write to standard error, if anything, and the code to exit with.
pub fn exit_report(outcome: RunOutcome) -> (r: (Option<String>, i32))
    ensures
        match outcome {
            RunOutcome::Finished(code) => r.0 is None && r.1 == code,
            RunOutcome::KnownError { message, code } => r.0.deep_view() == Some(message@) && r.1
                == code,
            RunOutcome::OtherError { message } => r.0.deep_view() == Some(message@) && r.1 == 1,
        },
        r.0 is None <==> outcome is Finished,
        outcome is OtherError ==> r.1 == 1,
{
    match outcome {
        RunOutcome::Finished(code) => (None, code),
        RunOutcome::KnownError { message, code } => (Some(message), code),
        RunOutcome::OtherError { message } => (Some(message), 1),
    }
}

/// A variable that the environment does not have, and that no setting before it sets, gets the
/// value of its setting; one that the environment has is left alone. The settings are gone through
/// in their order.
pub proof fn settings_fill_what_is_missing(overrides: Seq<EnvOverrideView>, more: EnvOverrideView)
    ensures
        ({
            let earlier = variables_to_set(overrides);
            let all = variables_to_set(overrides.push(more));
            let taken = exists|i: int|
                0 <= i < earlier.len() && (#[trigger] earlier[i]).0 == more.key;
            &&& variables_to_set(Seq::empty()).len() == 0
            &&& more.already_set ==> all == earlier
            &&& taken ==> all == earlier
            &&& !more.already_set && !taken ==> all == earlier + seq![(more.key, more.value)]
        }),
{
    assert(overrides.push(more).drop_last() =~= overrides);
    let earlier = variables_to_set(overrides);
    assert(earlier.push((more.key, more.value)) =~= earlier + seq![(more.key, more.value)]);
}

} // verus!

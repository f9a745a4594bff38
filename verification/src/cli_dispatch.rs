//! Which invocations go to the engine's own command line, and which to the
//! terminal interface.

use crate::text::same;
use vstd::prelude::*;

verus! {

/// What an invocation asks for.
#[derive(Debug, PartialEq, Eq)]
pub enum Action {
    /// A subcommand of the engine, with its arguments.
    CliMode(String, Vec<String>),
    /// The terminal interface, with all the arguments.
    TuiMode(Vec<String>),
}

/// The content of an [`Action`].
pub enum ActionView {
    CliMode(Seq<char>, Seq<Seq<char>>),
    TuiMode(Seq<Seq<char>>),
}

impl DeepView for Action {
    type V = ActionView;

    open spec fn deep_view(&self) -> ActionView {
        match self {
            Action::CliMode(name, rest) => ActionView::CliMode(name@, rest.deep_view()),
            Action::TuiMode(args) => ActionView::TuiMode(args.deep_view()),
        }
    }
}

/// The subcommands that belong to the engine.
pub const RESERVED_SUBCOMMANDS: [&'static str; 4] = ["run", "verify-env", "skill", "batch"];

/// Whether a subcommand belongs to the engine.
pub open spec fn is_reserved(name: Seq<char>) -> bool {
    name == "run"@ || name == "verify-env"@ || name == "skill"@ || name == "batch"@
}

/// [`is_reserved`]: whether a subcommand belongs to the engine.
pub fn is_reserved_subcommand(name: &str) -> (r: bool)
    ensures
        r == is_reserved(name@),
{
    let reserved = RESERVED_SUBCOMMANDS;
    let mut i: usize = 0;
    while i < 4
        invariant
            i <= 4,
            reserved@ == seq!["run", "verify-env", "skill", "batch"],
            forall|j: int| 0 <= j < i ==> (#[trigger] reserved@[j])@ != name@,
        decreases 4 - i,
    {
        if same(name, reserved[i]) {
            assert(reserved@[i as int]@ == name@);
            return true;
        }
        i = i + 1;
    }
    assert(reserved@[0]@ != name@ && reserved@[1]@ != name@ && reserved@[2]@ != name@
        && reserved@[3]@ != name@);
    false
}

/// What the arguments ask for.
pub open spec fn action_of(args: Seq<Seq<char>>) -> ActionView {
    if args.len() > 0 && is_reserved(args[0]) {
        ActionView::CliMode(args[0], args.skip(1))
    } else {
        ActionView::TuiMode(args)
    }
}

fn copy_from(args: &[String], from: usize) -> (r: Vec<String>)
    requires
        from <= args@.len(),
    ensures
        r.deep_view() == args.deep_view().skip(from as int),
{
    let ghost all = args.deep_view();
    let mut out: Vec<String> = Vec::new();
    let mut i: usize = from;
    assert(out.deep_view() =~= all.subrange(from as int, from as int));
    while i < args.len()
        invariant
            from <= i <= args@.len(),
            all == args.deep_view(),
            out.deep_view() == all.subrange(from as int, i as int),
        decreases args@.len() - i,
    {
        let ghost before = out.deep_view();
        assert(all[i as int] == args@[i as int]@);
        out.push(args[i].clone());
        assert(out.deep_view() =~= before.push(all[i as int]));
        assert(before.push(all[i as int]) =~= all.subrange(from as int, i as int + 1));
        i = i + 1;
    }
    assert(all.subrange(from as int, i as int) =~= all.skip(from as int));
    out
}

/// [`action_of`]: routes the arguments by the first of them.
pub fn dispatch(args: &[String]) -> (r: Action)
    ensures
        r.deep_view() == action_of(args.deep_view()),
{
    if args.len() > 0 {
        assert(args.deep_view()[0] == args@[0]@);
        if is_reserved_subcommand(args[0].as_str()) {
            return Action::CliMode(args[0].clone(), copy_from(args, 1));
        }
    }
    assert(args.deep_view().skip(0) =~= args.deep_view());
    Action::TuiMode(copy_from(args, 0))
}

/// No argument is lost or reordered on the way, whichever way that is.
pub proof fn dispatch_keeps_the_arguments(args: Seq<Seq<char>>)
    ensures
        match action_of(args) {
            ActionView::CliMode(name, rest) => args == seq![name] + rest && is_reserved(name),
            ActionView::TuiMode(all) => all == args && (args.len() > 0 ==> !is_reserved(args[0])),
        },
{
    if args.len() > 0 {
        assert(args =~= seq![args[0]] + args.skip(1));
    }
}

/// `run`, `verify-env`, `skill` and `batch` go to the engine with the arguments behind them;
/// every other invocation goes to the terminal interface with all its arguments.
pub proof fn four_subcommands_go_to_the_engine(name: Seq<char>, rest: Seq<Seq<char>>)
    ensures
        name == "run"@ || name == "verify-env"@ || name == "skill"@ || name == "batch"@
            ==> action_of(seq![name] + rest) == ActionView::CliMode(name, rest),
        name != "run"@ && name != "verify-env"@ && name != "skill"@ && name != "batch"@
            ==> action_of(seq![name] + rest) == ActionView::TuiMode(seq![name] + rest),
        action_of(Seq::empty()) == ActionView::TuiMode(Seq::empty()),
{
    let args = seq![name] + rest;
    assert(args[0] == name);
    assert(args.skip(1) =~= rest);
}

} // verus!

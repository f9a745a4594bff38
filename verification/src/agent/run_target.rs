//! Detection of workflow launches in shell commands.
//!
//! A launch of the `lingxi-ascendc` engine from a shell command tells where the
//! engine will write its event files. [`extract_run_target`] finds it.

use crate::paths::{join_path, path_join};
use crate::text::{
    after_prefix, char_is_space, chars_of, has_prefix, is_space, join, same, slice,
};
use vstd::prelude::*;

verus! {

/// Where a workflow launch will write its `events.jsonl`.
#[derive(Debug, Clone, PartialEq, Eq)]
pub struct RunTarget {
    /// The run id given with `--run-id`; `None` where the launch leaves it open.
    pub run_id: Option<String>,
    /// The directory that will hold the event files: `<cwd>/<run_id>` for an
    /// explicit run id, else the working directory itself.
    pub run_dir: String,
}

/// The content of a [`RunTarget`].
pub struct RunTargetView {
    pub run_id: Option<Seq<char>>,
    pub run_dir: Seq<char>,
}

impl DeepView for RunTarget {
    type V = RunTargetView;

    open spec fn deep_view(&self) -> RunTargetView {
        RunTargetView { run_id: self.run_id.deep_view(), run_dir: self.run_dir@ }
    }
}

impl RunTarget {
    /// The path of the events file. It is settled only where [`Self::run_id`] is
    /// `Some`; without a run id the engine picks a directory of its own.
    pub fn events_path(&self) -> (r: String)
        ensures
            r@ == path_join(self.run_dir@, "events.jsonl"@),
    {
        join_path(self.run_dir.as_str(), "events.jsonl")
    }

    /// The path of the subagent stream, beside the events file.
    pub fn agent_stream_path(&self) -> (r: String)
        ensures
            r@ == path_join(self.run_dir@, "agent_stream.jsonl"@),
    {
        join_path(self.run_dir.as_str(), "agent_stream.jsonl")
    }
}

/// The tokens of a command from some point on: `s` is what is left of it, `cur`
/// the token under way, `started` whether there is one, `single` and `double`
/// whether it stands inside such quotes.
pub open spec fn tokens_from(
    s: Seq<char>,
    cur: Seq<char>,
    started: bool,
    single: bool,
    double: bool,
) -> Seq<Seq<char>>
    decreases s.len(),
{
    if s.len() == 0 {
        if started {
            seq![cur]
        } else {
            Seq::empty()
        }
    } else {
        let c = s[0];
        let rest = s.drop_first();
        if c == '\\' && !single {
            if rest.len() > 0 {
                tokens_from(rest.drop_first(), cur.push(rest[0]), true, single, double)
            } else {
                tokens_from(rest, cur, started, single, double)
            }
        } else if c == '\'' && !double {
            tokens_from(rest, cur, true, !single, double)
        } else if c == '"' && !single {
            tokens_from(rest, cur, true, single, !double)
        } else if is_space(c) && !single && !double {
            if started {
                seq![cur] + tokens_from(rest, Seq::empty(), false, single, double)
            } else {
                tokens_from(rest, cur, false, single, double)
            }
        } else {
            tokens_from(rest, cur.push(c), true, single, double)
        }
    }
}

/// The tokens of a command: white space outside quotes separates them, quotes
/// group and vanish, and a backslash outside single quotes keeps the next
/// character as it is.
pub open spec fn shell_tokens(command: Seq<char>) -> Seq<Seq<char>> {
    tokens_from(command, Seq::empty(), false, false, false)
}

/// [`shell_tokens`]: splits a command at unquoted white space.
pub fn shell_split(command: &str) -> (r: Vec<String>)
    ensures
        r.deep_view() == shell_tokens(command@),
{
    let cs = chars_of(command);
    let n: usize = cs.len();
    let mut tokens: Vec<String> = Vec::new();
    let mut cur = String::new();
    let mut in_single = false;
    let mut in_double = false;
    let mut started = false;
    let mut i: usize = 0;
    assert(command@.skip(0) =~= command@);
    assert(tokens.deep_view() + shell_tokens(command@) =~= shell_tokens(command@));
    while i < n
        invariant
            cs@ == command@,
            n == cs@.len(),
            i <= n,
            shell_tokens(command@) == tokens.deep_view() + tokens_from(
                command@.skip(i as int),
                cur@,
                started,
                in_single,
                in_double,
            ),
        decreases n - i,
    {
        let c = cs[i];
        let ghost left = command@.skip(i as int);
        assert(left.drop_first() =~= command@.skip(i as int + 1));
        i = i + 1;
        if c == '\\' && !in_single {
            if i < n {
                assert(left.drop_first().drop_first() =~= command@.skip(i as int + 1));
                cur.push(cs[i]);
                started = true;
                i = i + 1;
            }
        } else if c == '\'' && !in_double {
            in_single = !in_single;
            started = true;
        } else if c == '"' && !in_single {
            in_double = !in_double;
            started = true;
        } else if char_is_space(c) && !in_single && !in_double {
            if started {
                let ghost before = tokens.deep_view();
                let ghost later = tokens_from(
                    command@.skip(i as int),
                    Seq::empty(),
                    false,
                    in_single,
                    in_double,
                );
                let ghost token = cur@;
                tokens.push(cur);
                cur = String::new();
                started = false;
                assert(tokens.deep_view() =~= before.push(token));
                assert(before + (seq![token] + later) =~= tokens.deep_view() + later);
            }
        } else {
            cur.push(c);
            started = true;
        }
    }
    let ghost before = tokens.deep_view();
    if started {
        let ghost token = cur@;
        tokens.push(cur);
        assert(tokens.deep_view() =~= before + seq![token]);
    }
    assert(tokens.deep_view() =~= shell_tokens(command@));
    tokens
}

/// A value without one pair of equal quotes around it, where there is one.
pub open spec fn unquoted(value: Seq<char>) -> Seq<char> {
    if value.len() >= 2 && value[0] == value.last() && (value[0] == '"' || value[0] == '\'') {
        value.subrange(1, value.len() - 1)
    } else {
        value
    }
}

/// [`unquoted`]: strips one pair of equal quotes.
pub fn unquote(value: &str) -> (r: String)
    ensures
        r@ == unquoted(value@),
{
    let cs = chars_of(value);
    let n: usize = cs.len();
    if n >= 2 && ((cs[0] == '"' && cs[n - 1] == '"') || (cs[0] == '\'' && cs[n - 1] == '\'')) {
        slice(value, 1, n - 1)
    } else {
        value.to_owned()
    }
}

/// Whether a token names the engine binary, with or without directories before it.
pub open spec fn names_binary(token: Seq<char>) -> bool {
    let name = "lingxi-ascendc"@;
    let k = token.len() - name.len();
    ||| token == name
    ||| k > 0 && token.skip(k) == name && (token[k - 1] == '/' || token[k - 1] == '\\')
}

/// [`names_binary`]: whether a token names the engine binary.
pub fn is_lingxi_binary(token: &str) -> (r: bool)
    ensures
        r == names_binary(token@),
{
    let name = "lingxi-ascendc";
    proof {
        reveal_strlit("lingxi-ascendc");
    }
    let cs = chars_of(token);
    let n: usize = cs.len();
    if n < 14 {
        return false;
    }
    let k: usize = n - 14;
    assert(token@.subrange(k as int, n as int) =~= token@.skip(k as int));
    if !same(token.substring_char(k, n), name) {
        assert(token@ == name@ ==> token@.skip(0) =~= token@);
        return false;
    }
    assert(k == 0 ==> token@.skip(0) =~= token@);
    k == 0 || cs[k - 1] == '/' || cs[k - 1] == '\\'
}

/// Whether a flag stands among the tokens, alone or with `=` and a value.
pub open spec fn has_flag(tokens: Seq<Seq<char>>, flag: Seq<char>) -> bool {
    exists|i: int| 0 <= i < tokens.len() && is_flag(#[trigger] tokens[i], flag)
}

/// Whether a token is the flag, alone or with `=` and a value.
pub open spec fn is_flag(token: Seq<char>, flag: Seq<char>) -> bool {
    token == flag || flag.push('=').is_prefix_of(token)
}

/// The value of the first occurrence of a flag: what follows its `=`, or the
/// token after it. Nothing where the flag is missing or the last token.
pub open spec fn value_of_flag(tokens: Seq<Seq<char>>, flag: Seq<char>) -> Option<Seq<char>>
    decreases tokens.len(),
{
    if tokens.len() == 0 {
        None
    } else if flag.push('=').is_prefix_of(tokens[0]) {
        Some(unquoted(tokens[0].skip(flag.len() as int + 1)))
    } else if tokens[0] == flag {
        if tokens.len() > 1 {
            Some(unquoted(tokens[1]))
        } else {
            None
        }
    } else {
        value_of_flag(tokens.drop_first(), flag)
    }
}

fn with_equals(flag: &str) -> (r: String)
    ensures
        r@ == flag@.push('='),
{
    let mut out = flag.to_owned();
    out.push('=');
    out
}

/// [`has_flag`] on the tokens from position `from` on.
pub fn flag_present(tokens: &Vec<String>, from: usize, flag: &str) -> (r: bool)
    requires
        from <= tokens@.len(),
    ensures
        r == has_flag(tokens.deep_view().skip(from as int), flag@),
{
    let eq_prefix = with_equals(flag);
    let ghost all = tokens.deep_view().skip(from as int);
    let mut i: usize = from;
    while i < tokens.len()
        invariant
            from <= i <= tokens@.len(),
            all == tokens.deep_view().skip(from as int),
            eq_prefix@ == flag@.push('='),
            forall|j: int| 0 <= j < i - from ==> !is_flag(#[trigger] all[j], flag@),
        decreases tokens@.len() - i,
    {
        assert(all[i - from] == tokens@[i as int]@);
        if same(tokens[i].as_str(), flag) || has_prefix(tokens[i].as_str(), eq_prefix.as_str()) {
            assert(is_flag(all[i - from], flag@));
            return true;
        }
        i = i + 1;
    }
    false
}

/// [`value_of_flag`] on the tokens from position `from` on.
pub fn flag_value(tokens: &Vec<String>, from: usize, flag: &str) -> (r: Option<String>)
    requires
        from <= tokens@.len(),
    ensures
        r.deep_view() == value_of_flag(tokens.deep_view().skip(from as int), flag@),
{
    let eq_prefix = with_equals(flag);
    let ghost all = tokens.deep_view();
    let mut i: usize = from;
    while i < tokens.len()
        invariant
            from <= i <= tokens@.len(),
            all == tokens.deep_view(),
            eq_prefix@ == flag@.push('='),
            value_of_flag(all.skip(from as int), flag@) == value_of_flag(
                all.skip(i as int),
                flag@,
            ),
        decreases tokens@.len() - i,
    {
        let ghost left = all.skip(i as int);
        assert(left[0] == tokens@[i as int]@);
        assert(left.drop_first() =~= all.skip(i as int + 1));
        match after_prefix(tokens[i].as_str(), eq_prefix.as_str()) {
            Some(value) => {
                return Some(unquote(value.as_str()));
            },
            None => {},
        }
        if same(tokens[i].as_str(), flag) {
            if i + 1 < tokens.len() {
                assert(left[1] == tokens@[i as int + 1]@);
                return Some(unquote(tokens[i + 1].as_str()));
            }
            return None;
        }
        i = i + 1;
    }
    None
}

/// The position of the first token that names the engine binary.
pub open spec fn binary_position(tokens: Seq<Seq<char>>) -> Option<int> {
    if exists|i: int| 0 <= i < tokens.len() && names_binary(#[trigger] tokens[i]) {
        Some(
            choose|i: int|
                {
                    &&& 0 <= i < tokens.len()
                    &&& names_binary(#[trigger] tokens[i])
                    &&& forall|j: int| 0 <= j < i ==> !names_binary(#[trigger] tokens[j])
                },
        )
    } else {
        None
    }
}

/// The first token that is no flag.
pub open spec fn subcommand_of(tokens: Seq<Seq<char>>) -> Option<Seq<char>>
    decreases tokens.len(),
{
    if tokens.len() == 0 {
        None
    } else if tokens[0].len() > 0 && tokens[0][0] == '-' {
        subcommand_of(tokens.drop_first())
    } else {
        Some(tokens[0])
    }
}

/// The scenario commands, which delegate to `run`.
pub open spec fn is_scenario_name(name: Seq<char>) -> bool {
    name == "generate"@ || name == "debug"@ || name == "optimize"@ || name == "research"@
}

/// Outcome of scanning a command for a fresh workflow launch.
pub enum RunDetect {
    /// A launch with an explicit `--run-id`.
    WithId(String),
    /// A `run` that leaves the run id open.
    WithoutId,
}

/// The content of a [`RunDetect`].
pub enum Launch {
    WithId(Seq<char>),
    WithoutId,
}

impl DeepView for RunDetect {
    type V = Launch;

    open spec fn deep_view(&self) -> Launch {
        match self {
            RunDetect::WithId(id) => Launch::WithId(id@),
            RunDetect::WithoutId => Launch::WithoutId,
        }
    }
}

/// The launch that the tokens after the binary ask for. A `run` is one unless it
/// resumes a run or asks for its status; a scenario command is one only with an
/// explicit run id.
pub open spec fn launch_of(rest: Seq<Seq<char>>) -> Option<Launch> {
    let id = value_of_flag(rest, "--run-id"@);
    match subcommand_of(rest) {
        None => None,
        Some(name) => if name == "run"@ {
            if has_flag(rest, "--resume"@) || has_flag(rest, "--status"@) {
                None
            } else {
                match id {
                    Some(id) => Some(Launch::WithId(id)),
                    None => Some(Launch::WithoutId),
                }
            }
        } else if is_scenario_name(name) {
            match id {
                Some(id) => Some(Launch::WithId(id)),
                None => None,
            }
        } else {
            None
        },
    }
}

/// The launch that a command asks for, if any.
pub open spec fn launch_in(tokens: Seq<Seq<char>>) -> Option<Launch> {
    match binary_position(tokens) {
        None => None,
        Some(i) => launch_of(tokens.skip(i + 1)),
    }
}

/// Where a command in a working directory will write its event files, if it is a
/// fresh workflow launch.
pub open spec fn run_target_of(command: Seq<char>, cwd: Seq<char>) -> Option<RunTargetView> {
    match launch_in(shell_tokens(command)) {
        None => None,
        Some(Launch::WithId(id)) => Some(
            RunTargetView { run_id: Some(id), run_dir: path_join(cwd, id) },
        ),
        Some(Launch::WithoutId) => Some(RunTargetView { run_id: None, run_dir: cwd }),
    }
}

/// [`launch_in`]: looks for a fresh workflow launch among the tokens of a command.
pub fn parse_run_invocation(tokens: &Vec<String>) -> (r: Option<RunDetect>)
    ensures
        r.deep_view() == launch_in(tokens.deep_view()),
{
    let ghost all = tokens.deep_view();
    let mut bin: usize = 0;
    while bin < tokens.len() && !is_lingxi_binary(tokens[bin].as_str())
        invariant
            bin <= tokens@.len(),
            all == tokens.deep_view(),
            forall|j: int| 0 <= j < bin ==> !names_binary(#[trigger] all[j]),
        decreases tokens@.len() - bin,
    {
        assert(all[bin as int] == tokens@[bin as int]@);
        bin = bin + 1;
    }
    if bin >= tokens.len() {
        assert(binary_position(all) is None);
        return None;
    }
    assert(all[bin as int] == tokens@[bin as int]@);
    assert(names_binary(all[bin as int]));
    assert(binary_position(all) == Some(bin as int));
    let from: usize = bin + 1;
    let ghost rest = all.skip(from as int);
    let mut at: usize = from;
    while at < tokens.len() && has_prefix(tokens[at].as_str(), "-")
        invariant
            from <= at <= tokens@.len(),
            all == tokens.deep_view(),
            rest == all.skip(from as int),
            subcommand_of(rest) == subcommand_of(all.skip(at as int)),
        decreases tokens@.len() - at,
    {
        proof {
            reveal_strlit("-");
            let left = all.skip(at as int);
            assert(left[0] == tokens@[at as int]@);
            assert(left[0][0] == "-"@[0]);
            assert(left.drop_first() =~= all.skip(at as int + 1));
        }
        at = at + 1;
    }
    if at >= tokens.len() {
        return None;
    }
    proof {
        reveal_strlit("-");
        let left = all.skip(at as int);
        assert(left[0] == tokens@[at as int]@);
        if left[0].len() > 0 && left[0][0] == '-' {
            assert("-"@ =~= left[0].subrange(0, 1));
            assert("-"@.is_prefix_of(left[0]));
        }
        assert(subcommand_of(rest) == Some(tokens@[at as int]@));
    }
    let name = tokens[at].as_str();
    let is_run = same(name, "run");
    let is_scenario = same(name, "generate") || same(name, "debug") || same(name, "optimize")
        || same(name, "research");
    if !is_run && !is_scenario {
        return None;
    }
    if is_run && (flag_present(tokens, from, "--resume") || flag_present(
        tokens,
        from,
        "--status",
    )) {
        return None;
    }
    proof {
        reveal_strlit("run");
        reveal_strlit("generate");
        reveal_strlit("debug");
        reveal_strlit("optimize");
        reveal_strlit("research");
    }
    match flag_value(tokens, from, "--run-id") {
        Some(id) => Some(RunDetect::WithId(id)),
        None => if is_run {
            Some(RunDetect::WithoutId)
        } else {
            None
        },
    }
}

/// Detects a fresh workflow launch in a shell command and resolves where its
/// event files will live, relative to the working directory.
///
/// Any other command gives `None`, among them `resume` and `status` requests, so
/// that every shell launch can be screened with it.
pub fn extract_run_target(command: &str, cwd: &str) -> (r: Option<RunTarget>)
    ensures
        r.deep_view() == run_target_of(command@, cwd@),
{
    let tokens = shell_split(command);
    match parse_run_invocation(&tokens) {
        Some(RunDetect::WithId(id)) => {
            let run_dir = join_path(cwd, id.as_str());
            Some(RunTarget { run_id: Some(id), run_dir })
        },
        Some(RunDetect::WithoutId) => Some(RunTarget { run_id: None, run_dir: cwd.to_owned() }),
        None => None,
    }
}

/// Whether a character means nothing to the shell but itself, or separates words.
pub open spec fn is_bare(c: char) -> bool {
    c != '\\' && c != '\'' && c != '"'
}

/// Whether a text is a word that needs no quotes.
pub open spec fn is_plain_word(word: Seq<char>) -> bool {
    &&& word.len() > 0
    &&& forall|i: int| 0 <= i < word.len() ==> is_bare(#[trigger] word[i]) && !is_space(word[i])
}

proof fn bare_text_splits_at_spaces(
    s: Seq<char>,
    rest: Seq<char>,
    cur: Seq<char>,
    started: bool,
)
    requires
        forall|i: int| 0 <= i < s.len() ==> is_bare(#[trigger] s[i]),
        !started ==> cur.len() == 0,
    ensures
        tokens_from(s + seq![' '] + rest, cur, started, false, false) == tokens_from(
            s,
            cur,
            started,
            false,
            false,
        ) + tokens_from(rest, Seq::empty(), false, false, false),
    decreases s.len(),
{
    let all = s + seq![' '] + rest;
    let later = tokens_from(rest, Seq::empty(), false, false, false);
    if s.len() == 0 {
        assert(all.drop_first() =~= rest);
        assert(all[0] == ' ');
        if !started {
            assert(cur =~= Seq::empty());
            assert(Seq::<Seq<char>>::empty() + later =~= later);
        }
    } else {
        let c = s[0];
        assert(is_bare(c));
        assert(all[0] == c);
        assert(all.drop_first() =~= s.drop_first() + seq![' '] + rest);
        assert forall|i: int| 0 <= i < s.drop_first().len() implies is_bare(
            #[trigger] s.drop_first()[i],
        ) by {
            assert(s.drop_first()[i] == s[i + 1]);
        }
        if is_space(c) {
            if started {
                bare_text_splits_at_spaces(s.drop_first(), rest, Seq::empty(), false);
                let inner = tokens_from(s.drop_first(), Seq::empty(), false, false, false);
                assert(seq![cur] + (inner + later) =~= (seq![cur] + inner) + later);
            } else {
                bare_text_splits_at_spaces(s.drop_first(), rest, cur, false);
            }
        } else {
            bare_text_splits_at_spaces(s.drop_first(), rest, cur.push(c), true);
        }
    }
}

proof fn plain_text_is_taken_in(word: Seq<char>, cur: Seq<char>)
    requires
        forall|i: int| 0 <= i < word.len() ==> is_bare(#[trigger] word[i]) && !is_space(word[i]),
    ensures
        tokens_from(word, cur, true, false, false) == seq![cur + word],
    decreases word.len(),
{
    if word.len() == 0 {
        assert(cur + word =~= cur);
    } else {
        assert(is_bare(word[0]));
        assert forall|i: int| 0 <= i < word.drop_first().len() implies is_bare(
            #[trigger] word.drop_first()[i],
        ) && !is_space(word.drop_first()[i]) by {
            assert(word.drop_first()[i] == word[i + 1]);
        }
        plain_text_is_taken_in(word.drop_first(), cur.push(word[0]));
        assert(cur.push(word[0]) + word.drop_first() =~= cur + word);
    }
}

/// A word that needs no quotes is one token.
pub proof fn plain_word_is_one_token(word: Seq<char>)
    requires
        is_plain_word(word),
    ensures
        shell_tokens(word) == seq![word],
{
    assert(is_bare(word[0]));
    assert forall|i: int| 0 <= i < word.drop_first().len() implies is_bare(
        #[trigger] word.drop_first()[i],
    ) && !is_space(word.drop_first()[i]) by {
        assert(word.drop_first()[i] == word[i + 1]);
    }
    plain_text_is_taken_in(word.drop_first(), Seq::empty().push(word[0]));
    assert(Seq::empty().push(word[0]) + word.drop_first() =~= word);
}

proof fn joined_words_are_bare(parts: Seq<Seq<char>>)
    requires
        forall|i: int| 0 <= i < parts.len() ==> is_plain_word(#[trigger] parts[i]),
    ensures
        forall|i: int| 0 <= i < join(parts, " "@).len() ==> is_bare(#[trigger] join(parts, " "@)[i]),
    decreases parts.len(),
{
    reveal_strlit(" ");
    let all = join(parts, " "@);
    if parts.len() == 1 {
        assert(is_plain_word(parts[0]));
    } else if parts.len() > 1 {
        let below = parts.drop_last();
        assert forall|i: int| 0 <= i < below.len() implies is_plain_word(#[trigger] below[i]) by {
            assert(below[i] == parts[i]);
        }
        joined_words_are_bare(below);
        assert(is_plain_word(parts[parts.len() - 1]));
        let head = join(below, " "@);
        assert forall|i: int| 0 <= i < all.len() implies is_bare(#[trigger] all[i]) by {
            if i < head.len() {
                assert(all[i] == head[i]);
            } else if i > head.len() {
                assert(all[i] == parts.last()[i - head.len() - 1]);
            }
        }
    }
}

/// Words that need no quotes come back as they were once they have been joined by
/// spaces and split again.
pub proof fn joined_words_split_again(parts: Seq<Seq<char>>)
    requires
        forall|i: int| 0 <= i < parts.len() ==> is_plain_word(#[trigger] parts[i]),
    ensures
        shell_tokens(join(parts, " "@)) == parts,
    decreases parts.len(),
{
    reveal_strlit(" ");
    if parts.len() == 0 {
        assert(shell_tokens(join(parts, " "@)) =~= parts);
    } else if parts.len() == 1 {
        plain_word_is_one_token(parts[0]);
        assert(seq![parts[0]] =~= parts);
    } else {
        let below = parts.drop_last();
        let word = parts[parts.len() - 1];
        assert(is_plain_word(word));
        assert forall|i: int| 0 <= i < below.len() implies is_plain_word(#[trigger] below[i]) by {
            assert(below[i] == parts[i]);
        }
        joined_words_split_again(below);
        joined_words_are_bare(below);
        plain_word_is_one_token(word);
        bare_text_splits_at_spaces(join(below, " "@), word, Seq::empty(), false);
        assert(" "@ =~= seq![' ']);
        assert(below + seq![word] =~= parts);
    }
}

proof fn single_quoted_text_is_taken_in(text: Seq<char>, cur: Seq<char>)
    requires
        !text.contains('\''),
    ensures
        tokens_from(text.push('\''), cur, true, true, false) == seq![cur + text],
    decreases text.len(),
{
    let all = text.push('\'');
    if text.len() == 0 {
        assert(all.drop_first() =~= Seq::empty());
        assert(cur + text =~= cur);
        assert(tokens_from(Seq::empty(), cur, true, false, false) == seq![cur]);
    } else {
        assert(text.contains(text[0]));
        assert(all[0] == text[0]);
        assert(all.drop_first() =~= text.drop_first().push('\''));
        assert forall|c: char| text.drop_first().contains(c) implies text.contains(c) by {
            let i = choose|i: int| 0 <= i < text.drop_first().len() && text.drop_first()[i] == c;
            assert(text[i + 1] == c);
        }
        single_quoted_text_is_taken_in(text.drop_first(), cur.push(text[0]));
        assert(cur.push(text[0]) + text.drop_first() =~= cur + text);
    }
}

/// A text in single quotes is one token, whatever it holds but the quote itself.
pub proof fn single_quotes_keep_a_text_whole(text: Seq<char>)
    requires
        !text.contains('\''),
    ensures
        shell_tokens(seq!['\''] + text + seq!['\'']) == seq![text],
{
    let all = seq!['\''] + text + seq!['\''];
    assert(all[0] == '\'');
    assert(all.drop_first() =~= text.push('\''));
    single_quoted_text_is_taken_in(text, Seq::empty());
    assert(Seq::<char>::empty() + text =~= text);
}

proof fn double_quoted_text_is_taken_in(text: Seq<char>, cur: Seq<char>)
    requires
        !text.contains('"'),
        !text.contains('\\'),
    ensures
        tokens_from(text.push('"'), cur, true, false, true) == seq![cur + text],
    decreases text.len(),
{
    let all = text.push('"');
    if text.len() == 0 {
        assert(all.drop_first() =~= Seq::empty());
        assert(cur + text =~= cur);
        assert(tokens_from(Seq::empty(), cur, true, false, false) == seq![cur]);
    } else {
        assert(text.contains(text[0]));
        assert(all[0] == text[0]);
        assert(all.drop_first() =~= text.drop_first().push('"'));
        assert forall|c: char| text.drop_first().contains(c) implies text.contains(c) by {
            let i = choose|i: int| 0 <= i < text.drop_first().len() && text.drop_first()[i] == c;
            assert(text[i + 1] == c);
        }
        double_quoted_text_is_taken_in(text.drop_first(), cur.push(text[0]));
        assert(cur.push(text[0]) + text.drop_first() =~= cur + text);
    }
}

/// A text in double quotes is one token, whatever it holds but the quote itself
/// and the backslash.
pub proof fn double_quotes_keep_a_text_whole(text: Seq<char>)
    requires
        !text.contains('"'),
        !text.contains('\\'),
    ensures
        shell_tokens(seq!['"'] + text + seq!['"']) == seq![text],
{
    let all = seq!['"'] + text + seq!['"'];
    assert(all[0] == '"');
    assert(all.drop_first() =~= text.push('"'));
    double_quoted_text_is_taken_in(text, Seq::empty());
    assert(Seq::<char>::empty() + text =~= text);
}

/// A backslash keeps the next character as it is, be it a space, a quote or
/// another backslash.
pub proof fn backslash_keeps_a_character(c: char)
    ensures
        shell_tokens(seq!['\\', c]) == seq![seq![c]],
{
    let all = seq!['\\', c];
    let rest = all.drop_first();
    assert(rest[0] == c);
    assert(rest.drop_first() =~= Seq::empty());
    assert(Seq::<char>::empty().push(c) =~= seq![c]);
    assert(tokens_from(Seq::empty(), seq![c], true, false, false) == seq![seq![c]]);
}

/// Both forms of a flag give the same value.
pub proof fn both_flag_forms_agree(flag: Seq<char>, value: Seq<char>, rest: Seq<Seq<char>>)
    requires
        flag.len() > 0,
    ensures
        value_of_flag(seq![flag.push('=') + value] + rest, flag) == Some(unquoted(value)),
        value_of_flag(seq![flag, value] + rest, flag) == Some(unquoted(value)),
{
    let whole = flag.push('=') + value;
    let with_equals = seq![whole] + rest;
    assert(with_equals[0] == whole);
    assert(whole.subrange(0, flag.len() as int + 1) =~= flag.push('='));
    assert(whole.skip(flag.len() as int + 1) =~= value);
    let apart = seq![flag, value] + rest;
    assert(apart[0] == flag && apart[1] == value);
}

/// A command that does not call the engine is no launch.
pub proof fn other_commands_are_no_launch(command: Seq<char>, cwd: Seq<char>)
    requires
        forall|i: int|
            0 <= i < shell_tokens(command).len() ==> !names_binary(
                #[trigger] shell_tokens(command)[i],
            ),
    ensures
        run_target_of(command, cwd) is None,
{
}

/// A run that is resumed or asked for its status is no fresh launch, and neither
/// is a scenario without a run id.
pub proof fn only_fresh_launches_have_a_target(command: Seq<char>, cwd: Seq<char>, at: int)
    requires
        binary_position(shell_tokens(command)) == Some(at),
    ensures
        ({
            let rest = shell_tokens(command).skip(at + 1);
            let name = subcommand_of(rest);
            &&& name == Some("run"@) && (has_flag(rest, "--resume"@) || has_flag(
                rest,
                "--status"@,
            )) ==> run_target_of(command, cwd) is None
            &&& name != Some("run"@) && value_of_flag(rest, "--run-id"@) is None ==> run_target_of(
                command,
                cwd,
            ) is None
            &&& name is None ==> run_target_of(command, cwd) is None
        }),
{
}

/// The event files of a launch lie in the directory of its run id below the
/// working directory; a launch without one is left at the working directory.
pub proof fn run_directory_follows_the_run_id(command: Seq<char>, cwd: Seq<char>)
    ensures
        run_target_of(command, cwd) matches Some(target) ==> target.run_dir == match target.run_id {
            Some(id) => path_join(cwd, id),
            None => cwd,
        },
{
}

/// A word calls the engine exactly where it is the name of the binary, or ends in it behind a
/// slash or a backslash.
pub proof fn the_engine_is_called_by_its_name(word: Seq<char>, dir: Seq<char>)
    ensures
        names_binary("lingxi-ascendc"@),
        names_binary(dir + seq!['/'] + "lingxi-ascendc"@),
        names_binary(dir + seq!['\\'] + "lingxi-ascendc"@),
        names_binary(word) ==> word.len() >= 14 && word.skip(word.len() - 14)
            == "lingxi-ascendc"@,
        names_binary(word) && word.len() > 14 ==> word[word.len() - 15] == '/' || word[word.len()
            - 15] == '\\',
{
    reveal_strlit("lingxi-ascendc");
    let name = "lingxi-ascendc"@;
    assert(name.len() == 14);
    assert(name.skip(0) =~= name);
    let slash = dir + seq!['/'] + name;
    let back = dir + seq!['\\'] + name;
    assert(slash.skip(slash.len() - 14) =~= name);
    assert(back.skip(back.len() - 14) =~= name);
}

/// One pair of equal quotes around a value vanishes, and a value without quotes at its ends
/// stays as it is.
pub proof fn quotes_around_a_value_vanish(value: Seq<char>)
    ensures
        unquoted(seq!['"'] + value + seq!['"']) == value,
        unquoted(seq!['\''] + value + seq!['\'']) == value,
        value.len() == 0 || (value[0] != '"' && value[0] != '\'') ==> unquoted(value) == value,
        value.len() > 0 && value.last() != '"' && value.last() != '\'' ==> unquoted(value) == value,
{
    let double = seq!['"'] + value + seq!['"'];
    assert(double.subrange(1, double.len() - 1) =~= value);
    let single = seq!['\''] + value + seq!['\''];
    assert(single.subrange(1, single.len() - 1) =~= value);
}

/// Whether a word is a flag with a dash in front.
pub open spec fn has_dash(word: Seq<char>) -> bool {
    word.len() > 0 && word[0] == '-'
}

/// The subcommand is the first word without a dash in front; without one there is none.
pub proof fn the_first_bare_word_is_the_subcommand(words: Seq<Seq<char>>, at: int)
    requires
        0 <= at <= words.len(),
        forall|i: int| 0 <= i < at ==> has_dash(#[trigger] words[i]),
        at < words.len() ==> !has_dash(words[at]),
    ensures
        subcommand_of(words) == if at < words.len() {
            Some(words[at])
        } else {
            None
        },
    decreases at,
{
    if at > 0 {
        assert(has_dash(words[0]));
        let rest = words.drop_first();
        assert forall|i: int| 0 <= i < at - 1 implies has_dash(#[trigger] rest[i]) by {
            assert(rest[i] == words[i + 1]);
        }
        the_first_bare_word_is_the_subcommand(rest, at - 1);
    }
}

/// The value of a flag is what its first occurrence gives: the next word, or what follows its
/// equals sign.
pub proof fn the_first_flag_gives_the_value(words: Seq<Seq<char>>, flag: Seq<char>, at: int)
    requires
        0 <= at < words.len(),
        forall|i: int|
            0 <= i < at ==> (#[trigger] words[i]) != flag && !(flag + seq!['=']).is_prefix_of(
                words[i],
            ),
    ensures
        words[at] == flag && at + 1 < words.len() ==> value_of_flag(words, flag) == Some(
            unquoted(words[at + 1]),
        ),
        words[at] == flag && at + 1 == words.len() ==> value_of_flag(words, flag) is None,
        (flag + seq!['=']).is_prefix_of(words[at]) ==> value_of_flag(words, flag) == Some(
            unquoted(words[at].skip(flag.len() as int + 1)),
        ),
    decreases at,
{
    assert(flag + seq!['='] =~= flag.push('='));
    if at > 0 {
        assert(words[0] != flag && !(flag + seq!['=']).is_prefix_of(words[0]));
        let rest = words.drop_first();
        assert forall|i: int| 0 <= i < at - 1 implies (#[trigger] rest[i]) != flag && !(flag
            + seq!['=']).is_prefix_of(rest[i]) by {
            assert(rest[i] == words[i + 1]);
        }
        the_first_flag_gives_the_value(rest, flag, at - 1);
    } else if words[0] == flag {
        assert(!flag.push('=').is_prefix_of(flag));
    }
}

/// A command that calls the engine with `run`, `generate`, `debug`, `optimize` or `research` as
/// its first word without a dash, and that gives a run id, is a fresh launch: its run id is that
/// id, and its event files lie in the directory of the id below the working directory. Only a
/// `run` that is resumed or asked for its status is none. What stands before the engine makes no
/// difference, and neither does the order of the flags.
pub proof fn launches_with_a_run_id_are_detected(
    command: Seq<char>,
    cwd: Seq<char>,
    before: Seq<Seq<char>>,
    engine: Seq<char>,
    rest: Seq<Seq<char>>,
    name_at: int,
    flag_at: int,
    id: Seq<char>,
)
    requires
        shell_tokens(command) == before + seq![engine] + rest,
        forall|i: int| 0 <= i < before.len() ==> !names_binary(#[trigger] before[i]),
        names_binary(engine),
        0 <= name_at < rest.len(),
        forall|i: int| 0 <= i < name_at ==> has_dash(#[trigger] rest[i]),
        rest[name_at] == "run"@ || rest[name_at] == "generate"@ || rest[name_at] == "debug"@
            || rest[name_at] == "optimize"@ || rest[name_at] == "research"@,
        rest[name_at] == "run"@ ==> forall|i: int|
            0 <= i < rest.len() ==> (#[trigger] rest[i]) != "--resume"@ && rest[i] != "--status"@
                && !("--resume"@ + seq!['=']).is_prefix_of(rest[i]) && !("--status"@
                + seq!['=']).is_prefix_of(rest[i]),
        0 <= flag_at < rest.len(),
        forall|i: int|
            0 <= i < flag_at ==> (#[trigger] rest[i]) != "--run-id"@ && !("--run-id"@
                + seq!['=']).is_prefix_of(rest[i]),
        rest[flag_at] == "--run-id"@ && flag_at + 1 < rest.len() && rest[flag_at + 1] == id
            || rest[flag_at] == "--run-id"@ + seq!['='] + id,
        id.len() == 0 || (id[0] != '"' && id[0] != '\''),
    ensures
        run_target_of(command, cwd) matches Some(target) && {
            &&& target.run_id == Some(id)
            &&& target.run_dir == path_join(cwd, id)
        },
{
    engine_position(before, engine, rest);
    let name = rest[name_at];
    subcommands_have_no_dash();
    the_first_bare_word_is_the_subcommand(rest, name_at);
    let eq = "--run-id"@ + seq!['='];
    if rest[flag_at] != "--run-id"@ {
        let whole = eq + id;
        assert(rest[flag_at] =~= whole);
        assert(whole.subrange(0, eq.len() as int) =~= eq);
        assert(whole.skip("--run-id"@.len() as int + 1) =~= id);
    }
    the_first_flag_gives_the_value(rest, "--run-id"@, flag_at);
    quotes_around_a_value_vanish(id);
    assert("--resume"@ + seq!['='] =~= "--resume"@.push('='));
    assert("--status"@ + seq!['='] =~= "--status"@.push('='));
    if name == "run"@ {
        assert(!has_flag(rest, "--resume"@));
        assert(!has_flag(rest, "--status"@));
    }
}

/// A `run` without a run id is a launch too, unless it is resumed or asked for its status: its
/// run id is left open, and the working directory stands for its own. Any other subcommand than
/// the five is no launch, with a run id or without.
pub proof fn launches_without_a_run_id(
    command: Seq<char>,
    cwd: Seq<char>,
    before: Seq<Seq<char>>,
    engine: Seq<char>,
    rest: Seq<Seq<char>>,
    name_at: int,
)
    requires
        shell_tokens(command) == before + seq![engine] + rest,
        forall|i: int| 0 <= i < before.len() ==> !names_binary(#[trigger] before[i]),
        names_binary(engine),
        0 <= name_at < rest.len(),
        forall|i: int| 0 <= i < name_at ==> has_dash(#[trigger] rest[i]),
        !has_dash(rest[name_at]),
    ensures
        rest[name_at] == "run"@ && value_of_flag(rest, "--run-id"@) is None && !has_flag(
            rest,
            "--resume"@,
        ) && !has_flag(rest, "--status"@) ==> (run_target_of(command, cwd) matches Some(target)
            && target.run_id is None && target.run_dir == cwd),
        rest[name_at] == "run"@ && (has_flag(rest, "--resume"@) || has_flag(rest, "--status"@))
            ==> run_target_of(command, cwd) is None,
        rest[name_at] != "run"@ && value_of_flag(rest, "--run-id"@) is None ==> run_target_of(
            command,
            cwd,
        ) is None,
        rest[name_at] != "run"@ && rest[name_at] != "generate"@ && rest[name_at] != "debug"@
            && rest[name_at] != "optimize"@ && rest[name_at] != "research"@ ==> run_target_of(
            command,
            cwd,
        ) is None,
{
    engine_position(before, engine, rest);
    the_first_bare_word_is_the_subcommand(rest, name_at);
}

/// A flag stands among words exactly where one of them is the flag, alone or with an equals sign
/// behind it.
pub proof fn flags_stand_alone_or_with_a_value(words: Seq<Seq<char>>, flag: Seq<char>)
    ensures
        has_flag(words, flag) <==> exists|i: int|
            0 <= i < words.len() && ((#[trigger] words[i]) == flag || (flag
                + seq!['=']).is_prefix_of(words[i])),
{
    assert(flag + seq!['='] =~= flag.push('='));
    if has_flag(words, flag) {
        let i = choose|i: int| 0 <= i < words.len() && is_flag(#[trigger] words[i], flag);
        assert(words[i] == flag || (flag + seq!['=']).is_prefix_of(words[i]));
    }
}

proof fn subcommands_have_no_dash()
    ensures
        !has_dash("run"@),
        !has_dash("generate"@),
        !has_dash("debug"@),
        !has_dash("optimize"@),
        !has_dash("research"@),
{
    reveal_strlit("run");
    reveal_strlit("generate");
    reveal_strlit("debug");
    reveal_strlit("optimize");
    reveal_strlit("research");
}

proof fn engine_position(before: Seq<Seq<char>>, engine: Seq<char>, rest: Seq<Seq<char>>)
    requires
        forall|i: int| 0 <= i < before.len() ==> !names_binary(#[trigger] before[i]),
        names_binary(engine),
    ensures
        launch_in(before + seq![engine] + rest) == launch_of(rest),
{
    let all = before + seq![engine] + rest;
    let n = before.len() as int;
    assert(all[n] == engine);
    assert forall|j: int| 0 <= j < n implies !names_binary(#[trigger] all[j]) by {
        assert(all[j] == before[j]);
    }
    let found = binary_position(all)->0;
    assert(0 <= found < all.len() && names_binary(all[found]));
    if found < n {
        assert(!names_binary(all[found]));
    }
    if n < found {
        assert(!names_binary(all[n]));
    }
    assert(all.skip(n + 1) =~= rest);
}

} // verus!

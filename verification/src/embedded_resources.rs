//! The resources packaged into the binary: the slash commands among them, the
//! layout that they are unpacked to, and which unpacked directories are stale.

use crate::order::{sort_by_key, sorted_by_key};
use crate::text::{after_prefix, chars_of, lines, lines_of, same, slice, trim, trimmed};
use vstd::prelude::*;

verus! {

/// The file that marks a directory as unpacked resources.
pub const MARKER_FILENAME: &'static str = ".lingxi_marker";

/// The file that is locked as long as a process uses the directory.
pub const LOCK_FILENAME: &'static str = ".lingxi_lock";

/// The plugin manifest that is written beside the resources.
pub const PLUGIN_MANIFEST: &'static str =
    "{\n  \"name\": \"lingxi-ascendc\",\n  \"version\": \"0.1.0\",\n  \"description\": \"Lingxi AscendC commands, agents, and skills\",\n  \"author\": {\n    \"name\": \"Lingxi AscendC\"\n  }\n}\n";

/// `include_dir::Dir`: a tree of packaged files, opaque here.
#[verifier::external_type_specification]
#[verifier::external_body]
pub struct ExDir<'a>(include_dir::Dir<'a>);

/// A packaged file.
#[derive(Debug, PartialEq, Eq)]
pub struct EmbeddedFile {
    pub path: String,
    /// The content, where it is text.
    pub contents: Option<String>,
}

impl DeepView for EmbeddedFile {
    type V = (Seq<char>, Option<Seq<char>>);

    open spec fn deep_view(&self) -> (Seq<char>, Option<Seq<char>>) {
        (self.path@, self.contents.deep_view())
    }
}

/// The directories in a packaged tree by the path under which
/// `include_dir::Dir::get_dir` finds them, each with the path and the text of the
/// files that `include_dir::Dir::files` lists in it.
pub uninterp spec fn packaged_dirs(root: include_dir::Dir<'static>) -> Map<
    Seq<char>,
    Seq<(Seq<char>, Option<Seq<char>>)>,
>;

/// Calls `include_dir::Dir::get_dir` and lists the files of the directory that it
/// finds, each with its path and, where it is text, its content.
#[verifier::external_body]
fn files_in(root: &include_dir::Dir<'static>, path: &str) -> (r: Option<Vec<EmbeddedFile>>)
    ensures
        match r {
            Some(files) => {
                &&& packaged_dirs(*root).dom().contains(path@)
                &&& files.deep_view() == packaged_dirs(*root)[path@]
            },
            None => !packaged_dirs(*root).dom().contains(path@),
        },
{
    let dir = root.get_dir(path)?;
    let files = dir.files().map(|file| EmbeddedFile {
        path: file.path().to_string_lossy().into_owned(),
        contents: file.contents_utf8().map(str::to_owned),
    });
    Some(files.collect())
}

/// A slash command packaged into the binary, by the stem of its file's name.
#[derive(Debug, Clone, PartialEq, Eq)]
pub struct EmbeddedCommand {
    pub name: String,
    pub description: String,
    pub argument_hint: String,
}

/// The content of an [`EmbeddedCommand`].
pub struct CommandInfo {
    pub name: Seq<char>,
    pub description: Seq<char>,
    pub argument_hint: Seq<char>,
}

impl DeepView for EmbeddedCommand {
    type V = CommandInfo;

    open spec fn deep_view(&self) -> CommandInfo {
        CommandInfo {
            name: self.name@,
            description: self.description@,
            argument_hint: self.argument_hint@,
        }
    }
}

/// The value of the last line with a key among the first `n` lines, trimmed;
/// empty where there is none.
pub open spec fn last_value(all: Seq<Seq<char>>, n: nat, key: Seq<char>) -> Seq<char>
    decreases n,
{
    if n == 0 {
        Seq::empty()
    } else if key.is_prefix_of(all[n - 1]) {
        trim(all[n - 1].skip(key.len() as int))
    } else {
        last_value(all, (n - 1) as nat, key)
    }
}

/// The number of lines before the first one that is a fence of three dashes.
pub open spec fn lines_before_fence(all: Seq<Seq<char>>) -> nat
    decreases all.len(),
{
    if all.len() == 0 || trim(all[0]) == "---"@ {
        0
    } else {
        1 + lines_before_fence(all.drop_first())
    }
}

/// The description and the argument hint in the front matter of a command: the
/// lines between two fences at the start of the text. The closing fence may be
/// missing. Without an opening fence there is no front matter.
pub open spec fn frontmatter(content: Seq<char>) -> (Seq<char>, Seq<char>) {
    let all = lines(content);
    if all.len() > 0 && trim(all[0]) == "---"@ {
        let body = all.drop_first();
        let n = lines_before_fence(body);
        (last_value(body, n, "description:"@), last_value(body, n, "argument-hint:"@))
    } else {
        (Seq::empty(), Seq::empty())
    }
}

/// [`frontmatter`]: the description and the argument hint of a command.
pub fn parse_command_frontmatter(content: &str) -> (r: (String, String))
    ensures
        (r.0@, r.1@) == frontmatter(content@),
{
    let all = lines_of(content);
    let ghost shown = all.deep_view();
    let mut description = String::new();
    let mut argument_hint = String::new();
    assert(description@ =~= Seq::empty());
    assert(argument_hint@ =~= Seq::empty());
    if all.len() == 0 {
        return (description, argument_hint);
    }
    assert(shown[0] == all@[0]@);
    if !same(trimmed(all[0].as_str()).as_str(), "---") {
        return (description, argument_hint);
    }
    let ghost body = shown.drop_first();
    proof {
        reveal_strlit("description:");
        reveal_strlit("argument-hint:");
        assert("description:"@[0] == 'd');
        assert("argument-hint:"@[0] == 'a');
    }
    let mut i: usize = 1;
    assert(body.skip(0) =~= body);
    while i < all.len()
        invariant
            1 <= i <= all@.len(),
            shown == all.deep_view(),
            body == shown.drop_first(),
            lines_before_fence(body) == i - 1 + lines_before_fence(body.skip(i - 1)),
            description@ == last_value(body, (i - 1) as nat, "description:"@),
            argument_hint@ == last_value(body, (i - 1) as nat, "argument-hint:"@),
            "description:"@.len() > 0,
            "argument-hint:"@.len() > 0,
            "description:"@[0] == 'd',
            "argument-hint:"@[0] == 'a',
            shown == lines(content@),
            trim(shown[0]) == "---"@,
        decreases all@.len() - i,
    {
        let line = all[i].as_str();
        assert(body[i - 1] == line@);
        assert(body.skip(i - 1)[0] == line@);
        assert(body.skip(i - 1).drop_first() =~= body.skip(i as int));
        if same(trimmed(line).as_str(), "---") {
            return (description, argument_hint);
        }
        match after_prefix(line, "description:") {
            Some(rest) => {
                assert(line@[0] == 'd');
                description = trimmed(rest.as_str());
            },
            None => {
                match after_prefix(line, "argument-hint:") {
                    Some(rest) => {
                        argument_hint = trimmed(rest.as_str());
                    },
                    None => {},
                }
            },
        }
        i = i + 1;
    }
    assert(lines_before_fence(body.skip(i - 1)) == 0);
    (description, argument_hint)
}

/// Where the last occurrence of a character ends, or the start where there is none.
pub open spec fn after_last(s: Seq<char>, c: char) -> int
    decreases s.len(),
{
    if s.len() == 0 {
        0
    } else if s.last() == c {
        s.len() as int
    } else {
        after_last(s.drop_last(), c)
    }
}

/// The last component of a path.
pub open spec fn file_name(path: Seq<char>) -> Seq<char> {
    path.skip(after_last(path, '/'))
}

/// The stem of the name of a Markdown file: the name without its extension, which
/// is what follows the last dot, unless the name has no other dot than its first
/// character.
pub open spec fn markdown_stem(path: Seq<char>) -> Option<Seq<char>> {
    let name = file_name(path);
    let dot = after_last(name, '.') - 1;
    if dot > 0 && name.skip(dot + 1) == "md"@ {
        Some(name.take(dot))
    } else {
        None
    }
}

fn position_after_last(cs: &Vec<char>, from: usize, c: char) -> (r: usize)
    requires
        from <= cs@.len(),
    ensures
        from <= r <= cs@.len(),
        r - from == after_last(cs@.skip(from as int), c),
{
    let ghost rest = cs@.skip(from as int);
    let mut i: usize = cs.len();
    assert(rest.take(i - from) =~= rest);
    while i > from && cs[i - 1] != c
        invariant
            from <= i <= cs@.len(),
            rest == cs@.skip(from as int),
            after_last(rest, c) == after_last(rest.take(i - from), c),
        decreases i,
    {
        assert(rest.take(i - from).drop_last() =~= rest.take(i - from - 1));
        i = i - 1;
    }
    i
}

fn stem_of(path: &str) -> (r: Option<String>)
    ensures
        r.deep_view() == markdown_stem(path@),
{
    let cs = chars_of(path);
    let n: usize = cs.len();
    assert(cs@.skip(0) =~= cs@);
    let from: usize = position_after_last(&cs, 0, '/');
    let after_dot: usize = position_after_last(&cs, from, '.');
    let ghost name = file_name(path@);
    assert(name =~= cs@.skip(from as int));
    if after_dot - from <= 1 {
        return None;
    }
    let ext = slice(path, after_dot, n);
    assert(ext@ =~= name.skip(after_dot - from));
    if !same(ext.as_str(), "md") {
        return None;
    }
    let stem = slice(path, from, after_dot - 1);
    assert(stem@ =~= name.take(after_dot - from - 1));
    Some(stem)
}

/// What is known of a command: its description and its argument hint.
pub struct Frontmatter {
    pub description: String,
    pub argument_hint: String,
}

impl DeepView for Frontmatter {
    type V = (Seq<char>, Seq<char>);

    open spec fn deep_view(&self) -> (Seq<char>, Seq<char>) {
        (self.description@, self.argument_hint@)
    }
}

/// The commands among the files, in their order, each by its name. A file is one
/// if it is a Markdown file and its content is text.
pub open spec fn commands_among(files: Seq<(Seq<char>, Option<Seq<char>>)>) -> Seq<
    (Seq<char>, (Seq<char>, Seq<char>)),
>
    decreases files.len(),
{
    if files.len() == 0 {
        Seq::empty()
    } else {
        let rest = commands_among(files.drop_last());
        match (markdown_stem(files.last().0), files.last().1) {
            (Some(name), Some(content)) => rest.push((name, frontmatter(content))),
            _ => rest,
        }
    }
}

/// A command by its name and its front matter.
pub open spec fn command_info(entry: (Seq<char>, (Seq<char>, Seq<char>))) -> CommandInfo {
    CommandInfo { name: entry.0, description: entry.1.0, argument_hint: entry.1.1 }
}

/// The commands among the files, in the order of their names.
pub open spec fn commands_in(files: Seq<(Seq<char>, Option<Seq<char>>)>) -> Seq<CommandInfo> {
    sort_by_key(commands_among(files)).map_values(
        |entry: (Seq<char>, (Seq<char>, Seq<char>))| command_info(entry),
    )
}

/// [`commands_in`]: the commands among the files, in the order of their names.
pub fn commands_of(files: &Vec<EmbeddedFile>) -> (r: Vec<EmbeddedCommand>)
    ensures
        r.deep_view() == commands_in(files.deep_view()),
{
    let ghost all = files.deep_view();
    let mut found: Vec<(String, Frontmatter)> = Vec::new();
    let mut i: usize = 0;
    assert(all.take(0) =~= Seq::empty());
    assert(found.deep_view() =~= Seq::empty());
    while i < files.len()
        invariant
            i <= files@.len(),
            all == files.deep_view(),
            found.deep_view() == commands_among(all.take(i as int)),
        decreases files@.len() - i,
    {
        proof {
            assert(all.take(i as int + 1).drop_last() =~= all.take(i as int));
            assert(all[i as int] == files@[i as int].deep_view());
        }
        match (stem_of(files[i].path.as_str()), &files[i].contents) {
            (Some(name), Some(content)) => {
                let ghost given = found.deep_view();
                let (description, argument_hint) = parse_command_frontmatter(content.as_str());
                let ghost added = (name@, (description@, argument_hint@));
                found.push((name, Frontmatter { description, argument_hint }));
                assert(found.deep_view() =~= given.push(added));
            },
            _ => {},
        }
        i = i + 1;
    }
    assert(all.take(i as int) =~= all);
    let sorted = sorted_by_key(found);
    let ghost order = sorted@;
    let ghost shown = sorted.deep_view();
    let mut out: Vec<EmbeddedCommand> = Vec::new();
    for entry in it: sorted.into_iter()
        invariant
            it.seq() == order,
            shown.len() == order.len(),
            forall|j: int| 0 <= j < order.len() ==> #[trigger] shown[j] == order[j].deep_view(),
            out@.len() == it.index(),
            forall|j: int|
                0 <= j < out@.len() ==> (#[trigger] out@[j]).deep_view() == command_info(shown[j]),
    {
        assert(shown[it.index() as int] == entry.deep_view());
        let (name, about) = entry;
        out.push(
            EmbeddedCommand {
                name,
                description: about.description,
                argument_hint: about.argument_hint,
            },
        );
    }
    assert(out.deep_view() =~= commands_in(all));
    out
}

/// The path of a directory in the home of the packaged plugin.
pub open spec fn below_home(home: Seq<char>, name: Seq<char>) -> Seq<char> {
    home + "/"@ + name
}

fn path_below_home(home: &str, name: &str) -> (r: String)
    ensures
        r@ == below_home(home@, name@),
{
    let mut path = home.to_owned();
    path.append("/");
    path.append(name);
    path
}

/// The slash commands in a packaged tree, in the order of their names; none where
/// the home of the plugin has no directory for them.
pub fn list_embedded_commands(root: &include_dir::Dir<'static>, home: &str) -> (r: Vec<
    EmbeddedCommand,
>)
    ensures
        r.deep_view() == if packaged_dirs(*root).dom().contains(
            below_home(home@, "commands"@),
        ) {
            commands_in(packaged_dirs(*root)[below_home(home@, "commands"@)])
        } else {
            Seq::empty()
        },
{
    match files_in(root, path_below_home(home, "commands").as_str()) {
        Some(files) => commands_of(&files),
        None => {
            let none: Vec<EmbeddedCommand> = Vec::new();
            assert(none.deep_view() =~= Seq::empty());
            none
        },
    }
}

/// The directories that a plugin is made of, of those that there are.
pub open spec fn plugin_parts(commands: bool, agents: bool, skills: bool) -> Seq<Seq<char>> {
    let first = if commands {
        seq!["commands"@]
    } else {
        Seq::empty()
    };
    let second = if agents {
        seq!["agents"@]
    } else {
        Seq::empty()
    };
    let third = if skills {
        seq!["skills"@]
    } else {
        Seq::empty()
    };
    first + second + third
}

/// [`plugin_parts`]: the directories that a plugin is made of.
pub fn plugin_dirs(commands: bool, agents: bool, skills: bool) -> (r: Vec<String>)
    ensures
        r.deep_view() == plugin_parts(commands, agents, skills),
{
    let mut names: Vec<String> = Vec::new();
    if commands {
        names.push("commands".to_owned());
    }
    if agents {
        names.push("agents".to_owned());
    }
    if skills {
        names.push("skills".to_owned());
    }
    assert(names.deep_view() =~= plugin_parts(commands, agents, skills));
    names
}

fn has_dir(root: &include_dir::Dir<'static>, path: &str) -> (r: bool)
    ensures
        r == packaged_dirs(*root).dom().contains(path@),
{
    files_in(root, path).is_some()
}

/// Which directories in the home of the plugin are unpacked once more, beside the
/// plugin manifest. A tree without that home is no plugin.
pub fn plugin_layout(root: &include_dir::Dir<'static>, home: &str) -> (r: Option<Vec<String>>)
    ensures
        ({
            let dirs = packaged_dirs(*root).dom();
            match r {
                Some(names) => dirs.contains(home@) && names.deep_view() == plugin_parts(
                    dirs.contains(below_home(home@, "commands"@)),
                    dirs.contains(below_home(home@, "agents"@)),
                    dirs.contains(below_home(home@, "skills"@)),
                ),
                None => !dirs.contains(home@),
            }
        }),
{
    if !has_dir(root, home) {
        return None;
    }
    let commands = has_dir(root, path_below_home(home, "commands").as_str());
    let agents = has_dir(root, path_below_home(home, "agents").as_str());
    let skills = has_dir(root, path_below_home(home, "skills").as_str());
    Some(plugin_dirs(commands, agents, skills))
}

/// What is known of a lock file.
#[derive(Debug, Clone, Copy, PartialEq, Eq)]
pub enum LockState {
    /// There is none.
    Absent,
    /// It could not be opened.
    Unreadable,
    /// Nobody holds it.
    Free,
    /// A process holds it.
    Held,
    /// It could not be told whether a process holds it.
    Unknown,
}

/// What is known of something in the directory for temporary files. Times are
/// nanoseconds on a common clock.
#[derive(Debug, Clone, Copy, PartialEq, Eq)]
pub struct OrphanCandidate {
    pub is_dir: bool,
    pub has_marker: bool,
    pub lock: LockState,
    /// When the marker was last written, where that can be told.
    pub modified: Option<i128>,
}

/// A day in nanoseconds.
pub const ORPHAN_AGE_NANOS: i128 = 86_400_000_000_000;

/// Whether unpacked resources have been left behind: the marker is there, no
/// process holds the lock or might, and the marker is more than a day old.
pub open spec fn is_left_behind(candidate: OrphanCandidate, now: i128) -> bool {
    &&& candidate.is_dir
    &&& candidate.has_marker
    &&& candidate.lock == LockState::Absent || candidate.lock == LockState::Free
    &&& candidate.modified matches Some(modified) && modified < now - ORPHAN_AGE_NANOS
}

/// [`is_left_behind`]: whether to remove something as left behind.
pub fn cleanup_orphans(candidate: &OrphanCandidate, now: i128) -> (r: bool)
    ensures
        r == is_left_behind(*candidate, now),
{
    if !candidate.is_dir || !candidate.has_marker {
        return false;
    }
    match candidate.lock {
        LockState::Absent => {},
        LockState::Free => {},
        _ => {
            return false;
        },
    }
    match (candidate.modified, now.checked_sub(ORPHAN_AGE_NANOS)) {
        (Some(modified), Some(cutoff)) => modified < cutoff,
        _ => false,
    }
}

/// Resources that a process holds are never removed, however old they are.
pub proof fn held_resources_are_kept(candidate: OrphanCandidate, now: i128)
    requires
        candidate.lock == LockState::Held,
    ensures
        !is_left_behind(candidate, now),
{
}

/// What does not bear the marker is never removed.
pub proof fn unmarked_directories_are_kept(candidate: OrphanCandidate, now: i128)
    requires
        !candidate.has_marker,
    ensures
        !is_left_behind(candidate, now),
{
}

/// The commands are listed in the order of their names.
pub proof fn commands_are_sorted(files: Seq<(Seq<char>, Option<Seq<char>>)>)
    ensures
        forall|i: int, j: int|
            0 <= i < j < commands_in(files).len() ==> !crate::text::text_less(
                (#[trigger] commands_in(files)[j]).name,
                (#[trigger] commands_in(files)[i]).name,
            ),
        commands_in(files).len() == commands_among(files).len(),
{
    crate::order::sort_by_key_sorts(commands_among(files));
    let sorted = sort_by_key(commands_among(files));
    assert forall|i: int, j: int| 0 <= i < j < commands_in(files).len() implies
        !crate::text::text_less(
        (#[trigger] commands_in(files)[j]).name,
        (#[trigger] commands_in(files)[i]).name,
    ) by {
        assert(commands_in(files)[i].name == sorted[i].0);
        assert(commands_in(files)[j].name == sorted[j].0);
    }
}

/// The value of a key is what follows it on the last line that begins with it, trimmed; without
/// such a line it is empty.
pub proof fn the_last_line_counts(all: Seq<Seq<char>>, n: nat, key: Seq<char>, at: int)
    requires
        -1 <= at < n <= all.len(),
        at >= 0 ==> key.is_prefix_of(all[at]),
        forall|i: int| at < i < n ==> !key.is_prefix_of(#[trigger] all[i]),
    ensures
        at >= 0 ==> last_value(all, n, key) == trim(all[at].skip(key.len() as int)),
        at < 0 ==> last_value(all, n, key).len() == 0,
    decreases n,
{
    if n > 0 && at < n - 1 {
        assert(!key.is_prefix_of(all[n - 1]));
        the_last_line_counts(all, (n - 1) as nat, key, at);
    }
}

/// The description and the argument hint of a command stand in the lines between a fence of three
/// dashes at the start of its text and the next such fence, or the end of the text. Without a fence
/// at the start there are none.
pub proof fn front_matter_stands_between_fences(
    content: Seq<char>,
    fence: Seq<char>,
    body: Seq<Seq<char>>,
    rest: Seq<Seq<char>>,
    at: int,
    hint_at: int,
)
    requires
        lines(content) == seq![fence] + body + rest,
        forall|i: int| 0 <= i < body.len() ==> trim(#[trigger] body[i]) != "---"@,
        rest.len() > 0 ==> trim(rest[0]) == "---"@,
        -1 <= at < body.len(),
        at >= 0 ==> "description:"@.is_prefix_of(body[at]),
        forall|i: int| at < i < body.len() ==> !"description:"@.is_prefix_of(#[trigger] body[i]),
        -1 <= hint_at < body.len(),
        hint_at >= 0 ==> "argument-hint:"@.is_prefix_of(body[hint_at]),
        forall|i: int|
            hint_at < i < body.len() ==> !"argument-hint:"@.is_prefix_of(#[trigger] body[i]),
    ensures
        ({
            let (description, hint) = frontmatter(content);
            let opened = trim(fence) == "---"@;
            &&& description == if opened && at >= 0 {
                trim(body[at].skip(12))
            } else {
                Seq::empty()
            }
            &&& hint == if opened && hint_at >= 0 {
                trim(body[hint_at].skip(14))
            } else {
                Seq::empty()
            }
        }),
{
    reveal_strlit("description:");
    reveal_strlit("argument-hint:");
    let all = lines(content);
    assert(all[0] == fence);
    let inner = all.drop_first();
    assert(inner =~= body + rest);
    fence_ends_the_front_matter(body, rest);
    let n = body.len();
    assert forall|i: int| at < i < n implies !"description:"@.is_prefix_of(#[trigger] inner[i]) by {
        assert(inner[i] == body[i]);
    }
    assert forall|i: int| hint_at < i < n implies !"argument-hint:"@.is_prefix_of(
        #[trigger] inner[i],
    ) by {
        assert(inner[i] == body[i]);
    }
    the_last_line_counts(inner, n, "description:"@, at);
    the_last_line_counts(inner, n, "argument-hint:"@, hint_at);
    if at < 0 {
        assert(last_value(inner, n, "description:"@) =~= Seq::empty());
    }
    if hint_at < 0 {
        assert(last_value(inner, n, "argument-hint:"@) =~= Seq::empty());
    }
}

proof fn fence_ends_the_front_matter(body: Seq<Seq<char>>, rest: Seq<Seq<char>>)
    requires
        forall|i: int| 0 <= i < body.len() ==> trim(#[trigger] body[i]) != "---"@,
        rest.len() > 0 ==> trim(rest[0]) == "---"@,
    ensures
        lines_before_fence(body + rest) == body.len(),
    decreases body.len(),
{
    let all = body + rest;
    if body.len() == 0 {
        assert(all =~= rest);
    } else {
        assert(all[0] == body[0]);
        assert(all.drop_first() =~= body.drop_first() + rest);
        assert forall|i: int| 0 <= i < body.drop_first().len() implies trim(
            #[trigger] body.drop_first()[i],
        ) != "---"@ by {
            assert(body.drop_first()[i] == body[i + 1]);
        }
        fence_ends_the_front_matter(body.drop_first(), rest);
    }
}

proof fn last_occurrence(head: Seq<char>, c: char, tail: Seq<char>)
    requires
        !tail.contains(c),
    ensures
        after_last(head + seq![c] + tail, c) == head.len() + 1,
        after_last(tail, c) == 0,
    decreases tail.len(),
{
    let all = head + seq![c] + tail;
    if tail.len() == 0 {
        assert(all.last() == c);
    } else {
        let less = tail.drop_last();
        assert(tail.contains(tail.last()));
        assert forall|d: char| less.contains(d) implies tail.contains(d) by {
            let i = choose|i: int| 0 <= i < less.len() && less[i] == d;
            assert(tail[i] == d);
        }
        last_occurrence(head, c, less);
        assert(all.last() == tail.last());
        assert(all.drop_last() =~= head + seq![c] + less);
    }
}

/// The name of a command is the name of its Markdown file without the directories before it and
/// without the ending. A file with another ending is no command.
pub proof fn commands_are_named_by_their_file(
    dir: Seq<char>,
    stem: Seq<char>,
    ending: Seq<char>,
)
    requires
        stem.len() > 0,
        !stem.contains('/'),
        !ending.contains('/'),
        !ending.contains('.'),
    ensures
        markdown_stem(dir + seq!['/'] + stem + ".md"@) == Some(stem),
        ending != "md"@ ==> markdown_stem(dir + seq!['/'] + stem + seq!['.'] + ending) is None,
{
    reveal_strlit(".md");
    reveal_strlit("md");
    let md = "md"@;
    assert(".md"@ =~= seq!['.'] + md);
    assert(md =~= seq!['m', 'd']);
    stem_of_a_path(dir, stem, ending);
    stem_of_a_path(dir, stem, md);
    assert(dir + seq!['/'] + stem + ".md"@ =~= dir + seq!['/'] + stem + seq!['.'] + md);
}

proof fn stem_of_a_path(dir: Seq<char>, stem: Seq<char>, ending: Seq<char>)
    requires
        stem.len() > 0,
        !stem.contains('/'),
        !ending.contains('/'),
        !ending.contains('.'),
    ensures
        markdown_stem(dir + seq!['/'] + stem + seq!['.'] + ending) == if ending == "md"@ {
            Some(stem)
        } else {
            None
        },
{
    let path = dir + seq!['/'] + stem + seq!['.'] + ending;
    let name = stem + seq!['.'] + ending;
    assert forall|i: int| 0 <= i < name.len() implies name[i] != '/' by {
        if i < stem.len() {
            assert(stem.contains(stem[i]));
        } else if i > stem.len() {
            assert(name[i] == ending[i - stem.len() - 1]);
            assert(ending.contains(ending[i - stem.len() - 1]));
        }
    }
    last_occurrence(dir, '/', name);
    assert(path =~= dir + seq!['/'] + name);
    assert(path.skip(dir.len() as int + 1) =~= name);
    assert(file_name(path) == name);
    last_occurrence(stem, '.', ending);
    assert(name.skip(stem.len() as int + 1) =~= ending);
    assert(name.take(stem.len() as int) =~= stem);
}

/// Every Markdown file whose content is text is a command, with what its front matter says; other
/// files are none.
pub proof fn markdown_files_are_commands(
    files: Seq<(Seq<char>, Option<Seq<char>>)>,
    path: Seq<char>,
    content: Seq<char>,
)
    ensures
        ({
            let more = commands_among(files.push((path, Some(content))));
            let about = frontmatter(content);
            &&& commands_among(Seq::empty()).len() == 0
            &&& commands_among(files.push((path, None))) == commands_among(files)
            &&& markdown_stem(path) is None ==> more == commands_among(files)
            &&& markdown_stem(path) matches Some(name) ==> {
                &&& more.drop_last() == commands_among(files)
                &&& more.last() == (name, about)
                &&& command_info(more.last()).name == name
                &&& command_info(more.last()).description == about.0
                &&& command_info(more.last()).argument_hint == about.1
            }
        }),
{
    assert(files.push((path, Some(content))).drop_last() =~= files);
    assert(files.push((path, None::<Seq<char>>)).drop_last() =~= files);
    if let Some(name) = markdown_stem(path) {
        let more = commands_among(files.push((path, Some(content))));
        assert(more.drop_last() =~= commands_among(files));
    }
}

/// Unpacked resources are removed exactly where they are a directory with the marker that nobody
/// holds, and the marker was written more than a day ago.
pub proof fn only_old_and_free_resources_are_removed(candidate: OrphanCandidate, now: i128)
    ensures
        is_left_behind(candidate, now) <==> {
            &&& candidate.is_dir
            &&& candidate.has_marker
            &&& candidate.lock != LockState::Held
            &&& candidate.lock != LockState::Unknown
            &&& candidate.lock != LockState::Unreadable
            &&& candidate.modified is Some
            &&& now - candidate.modified->0 > 24 * 60 * 60 * 1_000_000_000
        },
{
}

/// A plugin is made of its commands, its agents and its skills, in this order, of those that there
/// are.
pub proof fn plugins_are_made_of_their_parts(commands: bool, agents: bool, skills: bool)
    ensures
        ({
            let parts = plugin_parts(commands, agents, skills);
            &&& parts.contains("commands"@) <==> commands
            &&& parts.contains("agents"@) <==> agents
            &&& parts.contains("skills"@) <==> skills
            &&& plugin_parts(true, true, true) == seq!["commands"@, "agents"@, "skills"@]
            &&& parts.len() <= 3
        }),
{
    reveal_strlit("commands");
    reveal_strlit("agents");
    reveal_strlit("skills");
    assert("commands"@.len() == 8);
    assert("agents"@.len() == 6 && "agents"@[0] == 'a');
    assert("skills"@.len() == 6 && "skills"@[0] == 's');
    let parts = plugin_parts(commands, agents, skills);
    if commands {
        assert(parts[0] == "commands"@);
    }
    if agents {
        assert(parts[if commands {
            1
        } else {
            0int
        }] == "agents"@);
    }
    if skills {
        assert(parts[parts.len() - 1] == "skills"@);
    }
    assert(plugin_parts(true, true, true) =~= seq!["commands"@, "agents"@, "skills"@]);
}

/// A directory in the home of the plugin lies one slash below it.
pub proof fn directories_lie_below_the_home(home: Seq<char>, name: Seq<char>)
    ensures
        below_home(home, name) == home + seq!['/'] + name,
        home.is_prefix_of(below_home(home, name)),
        below_home(home, name).skip(home.len() as int + 1) == name,
{
    reveal_strlit("/");
    assert(below_home(home, name) =~= home + seq!['/'] + name);
    assert(below_home(home, name).subrange(0, home.len() as int) =~= home);
    assert(below_home(home, name).skip(home.len() as int + 1) =~= name);
}

} // verus!

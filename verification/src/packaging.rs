//! What is packaged into the binary: the manifest of resources, the rules for
//! their paths, and the version string.

use crate::paths::is_absolute;
use crate::text::{
    before, chars_of, cut_before, decimal, decimal_of, has_prefix, lines, lines_of, lower, lowered,
    same, same_letter, slice, spells, trim, trimmed, words, words_of,
};
use vstd::prelude::*;

verus! {

/// Whether a resource is a file or a directory.
#[derive(Debug, Clone, Copy, PartialEq, Eq)]
pub enum ResourceKind {
    File,
    Dir,
}

/// An entry of the manifest.
#[derive(Debug, PartialEq, Eq)]
pub struct ResourceEntry {
    pub kind: ResourceKind,
    /// Whether the entry is passed over where its source is missing.
    pub optional: bool,
    pub source: String,
    /// The path in the package, where it differs from that of the source.
    pub dest: Option<String>,
}

/// What is wrong with a line of the manifest.
#[derive(Debug, PartialEq, Eq)]
pub enum ManifestProblem {
    InvalidKind(String),
    MissingPath,
    MissingDestination,
    ExpectedAs(String),
    ExtraFields,
}

/// What is wrong with a manifest, and on which line, counted from one.
#[derive(Debug, PartialEq, Eq)]
pub struct ManifestError {
    pub line: usize,
    pub problem: ManifestProblem,
}

/// The content of a [`ResourceEntry`].
pub struct EntryView {
    pub kind: ResourceKind,
    pub optional: bool,
    pub source: Seq<char>,
    pub dest: Option<Seq<char>>,
}

/// The content of a [`ManifestProblem`].
pub enum ProblemView {
    InvalidKind(Seq<char>),
    MissingPath,
    MissingDestination,
    ExpectedAs(Seq<char>),
    ExtraFields,
}

impl DeepView for ResourceEntry {
    type V = EntryView;

    open spec fn deep_view(&self) -> EntryView {
        EntryView {
            kind: self.kind,
            optional: self.optional,
            source: self.source@,
            dest: self.dest.deep_view(),
        }
    }
}

impl DeepView for ManifestProblem {
    type V = ProblemView;

    open spec fn deep_view(&self) -> ProblemView {
        match self {
            ManifestProblem::InvalidKind(word) => ProblemView::InvalidKind(word@),
            ManifestProblem::MissingPath => ProblemView::MissingPath,
            ManifestProblem::MissingDestination => ProblemView::MissingDestination,
            ManifestProblem::ExpectedAs(word) => ProblemView::ExpectedAs(word@),
            ManifestProblem::ExtraFields => ProblemView::ExtraFields,
        }
    }
}

/// The text of a problem, without the line.
pub open spec fn problem_text(problem: ProblemView) -> Seq<char> {
    match problem {
        ProblemView::InvalidKind(word) => "invalid resource kind `"@ + word + "`"@,
        ProblemView::MissingPath => "missing resource path"@,
        ProblemView::MissingDestination => "missing destination path after `as`"@,
        ProblemView::ExpectedAs(word) => "expected `as <dest>` or end of line, got `"@ + word
            + "`"@,
        ProblemView::ExtraFields => "unexpected extra fields"@,
    }
}

fn quoted(head: &str, word: &str) -> (r: String)
    ensures
        r@ == head@ + word@ + "`"@,
{
    let mut out = head.to_owned();
    out.append(word);
    out.append("`");
    out
}

impl ManifestError {
    /// What to tell of the problem.
    pub fn message(&self) -> (r: String)
        ensures
            r@ == problem_text(self.problem.deep_view()) + " on line "@ + decimal(
                self.line as nat,
            ),
    {
        let mut out = match &self.problem {
            ManifestProblem::InvalidKind(word) => quoted(
                "invalid resource kind `",
                word.as_str(),
            ),
            ManifestProblem::MissingPath => "missing resource path".to_owned(),
            ManifestProblem::MissingDestination =>
            "missing destination path after `as`".to_owned(),
            ManifestProblem::ExpectedAs(word) => quoted(
                "expected `as <dest>` or end of line, got `",
                word.as_str(),
            ),
            ManifestProblem::ExtraFields => "unexpected extra fields".to_owned(),
        };
        out.append(" on line ");
        out.append(decimal_of(self.line as u64).as_str());
        out
    }
}

/// The kind that a word names, and whether it is optional.
pub open spec fn kind_named(word: Seq<char>) -> Option<(ResourceKind, bool)> {
    if word == "file"@ {
        Some((ResourceKind::File, false))
    } else if word == "file?"@ {
        Some((ResourceKind::File, true))
    } else if word == "dir"@ {
        Some((ResourceKind::Dir, false))
    } else if word == "dir?"@ {
        Some((ResourceKind::Dir, true))
    } else {
        None
    }
}

/// The entry that the words of a line describe: a kind, a path and, if wanted,
/// `as` and another path.
pub open spec fn entry_in(fields: Seq<Seq<char>>) -> Result<EntryView, ProblemView> {
    match kind_named(fields[0]) {
        None => Err(ProblemView::InvalidKind(fields[0])),
        Some((kind, optional)) => if fields.len() == 1 {
            Err(ProblemView::MissingPath)
        } else if fields.len() == 2 {
            Ok(EntryView { kind, optional, source: fields[1], dest: None })
        } else if fields[2] != "as"@ {
            Err(ProblemView::ExpectedAs(fields[2]))
        } else if fields.len() == 3 {
            Err(ProblemView::MissingDestination)
        } else if fields.len() == 4 {
            Ok(EntryView { kind, optional, source: fields[1], dest: Some(fields[3]) })
        } else {
            Err(ProblemView::ExtraFields)
        },
    }
}

/// The words of a line that are not in a comment.
pub open spec fn fields_on(line: Seq<char>) -> Seq<Seq<char>> {
    words(trim(before(line, '#')))
}

/// What the first `n` lines of a manifest say: their entries, or the first
/// problem and its line. Lines without a word say nothing.
pub open spec fn manifest_of(all: Seq<Seq<char>>, n: nat) -> Result<
    Seq<EntryView>,
    (nat, ProblemView),
>
    decreases n,
{
    if n == 0 {
        Ok(Seq::empty())
    } else {
        match manifest_of(all, (n - 1) as nat) {
            Err(e) => Err(e),
            Ok(entries) => {
                let fields = fields_on(all[n - 1]);
                if fields.len() == 0 {
                    Ok(entries)
                } else {
                    match entry_in(fields) {
                        Ok(entry) => Ok(entries.push(entry)),
                        Err(problem) => Err((n, problem)),
                    }
                }
            },
        }
    }
}

/// What a manifest says.
pub open spec fn manifest_in(content: Seq<char>) -> Result<Seq<EntryView>, (nat, ProblemView)> {
    manifest_of(lines(content), lines(content).len())
}

fn read_entry(fields: &Vec<String>) -> (r: Result<ResourceEntry, ManifestProblem>)
    requires
        fields@.len() > 0,
    ensures
        match r {
            Ok(entry) => entry_in(fields.deep_view()) == Ok::<EntryView, ProblemView>(
                entry.deep_view(),
            ),
            Err(problem) => entry_in(fields.deep_view()) == Err::<EntryView, ProblemView>(
                problem.deep_view(),
            ),
        },
{
    let ghost all = fields.deep_view();
    assert(forall|i: int| 0 <= i < fields@.len() ==> #[trigger] all[i] == fields@[i]@);
    proof {
        reveal_strlit("file");
        reveal_strlit("file?");
        reveal_strlit("dir");
        reveal_strlit("dir?");
    }
    let word = fields[0].as_str();
    let (kind, optional) = if same(word, "file") {
        (ResourceKind::File, false)
    } else if same(word, "file?") {
        (ResourceKind::File, true)
    } else if same(word, "dir") {
        (ResourceKind::Dir, false)
    } else if same(word, "dir?") {
        (ResourceKind::Dir, true)
    } else {
        return Err(ManifestProblem::InvalidKind(fields[0].clone()));
    };
    if fields.len() == 1 {
        return Err(ManifestProblem::MissingPath);
    }
    let source = fields[1].clone();
    if fields.len() == 2 {
        return Ok(ResourceEntry { kind, optional, source, dest: None });
    }
    if !same(fields[2].as_str(), "as") {
        return Err(ManifestProblem::ExpectedAs(fields[2].clone()));
    }
    if fields.len() == 3 {
        return Err(ManifestProblem::MissingDestination);
    }
    if fields.len() > 4 {
        return Err(ManifestProblem::ExtraFields);
    }
    Ok(ResourceEntry { kind, optional, source, dest: Some(fields[3].clone()) })
}

proof fn problem_stays(all: Seq<Seq<char>>, n: nat, m: nat)
    requires
        n <= m,
        manifest_of(all, n) is Err,
    ensures
        manifest_of(all, m) == manifest_of(all, n),
    decreases m,
{
    if n < m {
        problem_stays(all, n, (m - 1) as nat);
    }
}

/// [`manifest_in`]: reads a manifest.
pub fn parse_manifest(content: &str) -> (r: Result<Vec<ResourceEntry>, ManifestError>)
    ensures
        match r {
            Ok(entries) => manifest_in(content@) == Ok::<Seq<EntryView>, (nat, ProblemView)>(
                entries.deep_view(),
            ),
            Err(e) => manifest_in(content@) == Err::<Seq<EntryView>, (nat, ProblemView)>(
                (e.line as nat, e.problem.deep_view()),
            ),
        },
{
    let all = lines_of(content);
    let ghost shown = all.deep_view();
    let mut entries: Vec<ResourceEntry> = Vec::new();
    let mut i: usize = 0;
    assert(entries.deep_view() =~= Seq::empty());
    while i < all.len()
        invariant
            i <= all@.len(),
            shown == all.deep_view(),
            shown == lines(content@),
            manifest_of(shown, i as nat) == Ok::<Seq<EntryView>, (nat, ProblemView)>(
                entries.deep_view(),
            ),
        decreases all@.len() - i,
    {
        assert(shown[i as int] == all@[i as int]@);
        let line = trimmed(cut_before(all[i].as_str(), '#').as_str());
        let fields = words_of(line.as_str());
        assert(fields.deep_view() == fields_on(shown[i as int]));
        if fields.len() > 0 {
            match read_entry(&fields) {
                Ok(entry) => {
                    let ghost given = entries.deep_view();
                    let ghost added = entry.deep_view();
                    entries.push(entry);
                    assert(entries.deep_view() =~= given.push(added));
                },
                Err(problem) => {
                    proof {
                        problem_stays(shown, i as nat + 1, shown.len());
                    }
                    return Err(ManifestError { line: i + 1, problem });
                },
            }
        }
        i = i + 1;
    }
    Ok(entries)
}

/// Why a path cannot be packaged.
#[derive(Debug, PartialEq, Eq)]
pub enum PathError {
    Empty,
    /// The path leads out of the repository.
    NotRelative(String),
}

impl PathError {
    /// What to tell of the path.
    pub fn message(&self) -> (r: String)
        ensures
            r@ == match self {
                PathError::Empty => "empty resource path"@,
                PathError::NotRelative(path) => "resource path must be repository-relative: "@
                    + path@,
            },
    {
        match self {
            PathError::Empty => "empty resource path".to_owned(),
            PathError::NotRelative(path) => {
                let mut out = "resource path must be repository-relative: ".to_owned();
                out.append(path.as_str());
                out
            },
        }
    }
}

/// Whether the component of a path that begins at `i` is the parent directory.
pub open spec fn parent_at(path: Seq<char>, i: int) -> bool {
    &&& 0 <= i <= path.len() - 2
    &&& path[i] == '.' && path[i + 1] == '.'
    &&& i == 0 || path[i - 1] == '/'
    &&& i + 2 == path.len() || path[i + 2] == '/'
}

/// Whether a path goes up to a parent directory.
pub open spec fn goes_up(path: Seq<char>) -> bool {
    exists|i: int| parent_at(path, i)
}

/// Whether a path can be packaged: it is not empty and stays in the repository.
pub open spec fn is_packageable(path: Seq<char>) -> bool {
    path.len() > 0 && !is_absolute(path) && !goes_up(path)
}

fn has_parent_component(path: &str) -> (r: bool)
    ensures
        r == goes_up(path@),
{
    let cs = chars_of(path);
    let n: usize = cs.len();
    if n < 2 {
        return false;
    }
    let mut i: usize = 0;
    while i <= n - 2
        invariant
            cs@ == path@,
            n == cs@.len(),
            2 <= n,
            i <= n - 1,
            forall|j: int| 0 <= j < i ==> !parent_at(path@, j),
        decreases n - i,
    {
        if cs[i] == '.' && cs[i + 1] == '.' && (i == 0 || cs[i - 1] == '/') && (i + 2 == n
            || cs[i + 2] == '/') {
            assert(parent_at(path@, i as int));
            return true;
        }
        i = i + 1;
    }
    false
}

/// Checks that a path can be packaged. See [`is_packageable`].
pub fn validate_resource_path(path: &str) -> (r: Result<(), PathError>)
    ensures
        match r {
            Ok(_) => is_packageable(path@),
            Err(PathError::Empty) => path@.len() == 0,
            Err(PathError::NotRelative(shown)) => path@.len() > 0 && !is_packageable(path@)
                && shown@ == path@,
        },
        path@.len() > 0 && path@[0] == '/' ==> r is Err,
{
    let cs = chars_of(path);
    if cs.len() == 0 {
        return Err(PathError::Empty);
    }
    if cs[0] == '/' || has_parent_component(path) {
        return Err(PathError::NotRelative(path.to_owned()));
    }
    Ok(())
}

/// Whether an entry is passed over: it is optional and its source is missing. A
/// required entry never is.
pub fn skip_missing_optional(optional: bool, source_exists: bool) -> (r: bool)
    ensures
        r == (optional && !source_exists),
        source_exists ==> !r,
        !optional ==> !r,
{
    optional && !source_exists
}

/// What to do for an entry of the manifest.
#[derive(Debug, PartialEq, Eq)]
pub enum PackagingStep {
    /// Nothing: the source is missing, and that is all right.
    SkipMissing,
    CopyFile { source: String, dest: String },
    CopyDir { source: String, dest: String },
}

/// The content of a [`PackagingStep`].
pub enum PackagingStepView {
    SkipMissing,
    CopyFile { source: Seq<char>, dest: Seq<char> },
    CopyDir { source: Seq<char>, dest: Seq<char> },
}

impl DeepView for PackagingStep {
    type V = PackagingStepView;

    open spec fn deep_view(&self) -> PackagingStepView {
        match self {
            PackagingStep::SkipMissing => PackagingStepView::SkipMissing,
            PackagingStep::CopyFile { source, dest } => PackagingStepView::CopyFile {
                source: source@,
                dest: dest@,
            },
            PackagingStep::CopyDir { source, dest } => PackagingStepView::CopyDir {
                source: source@,
                dest: dest@,
            },
        }
    }
}

/// Where an entry goes: to its destination, or to the path of its source.
pub open spec fn dest_of(entry: EntryView) -> Seq<char> {
    match entry.dest {
        Some(dest) => dest,
        None => entry.source,
    }
}

/// What to do for an entry with good paths.
pub open spec fn packaging_step(entry: EntryView, source_exists: bool) -> PackagingStepView {
    if entry.optional && !source_exists {
        PackagingStepView::SkipMissing
    } else {
        match entry.kind {
            ResourceKind::File => PackagingStepView::CopyFile {
                source: entry.source,
                dest: dest_of(entry),
            },
            ResourceKind::Dir => PackagingStepView::CopyDir {
                source: entry.source,
                dest: dest_of(entry),
            },
        }
    }
}

/// What to do for an entry of the manifest. Both paths must be good, even where
/// the entry is passed over.
pub fn plan_entry(entry: &ResourceEntry, source_exists: bool) -> (r: Result<
    PackagingStep,
    PathError,
>)
    ensures
        match r {
            Ok(step) => {
                &&& is_packageable(entry.source@)
                &&& is_packageable(dest_of(entry.deep_view()))
                &&& step.deep_view() == packaging_step(entry.deep_view(), source_exists)
            },
            Err(PathError::Empty) => entry.source@.len() == 0 || is_packageable(entry.source@)
                && dest_of(entry.deep_view()).len() == 0,
            Err(PathError::NotRelative(shown)) => if is_packageable(entry.source@) {
                shown@ == dest_of(entry.deep_view()) && shown@.len() > 0 && !is_packageable(shown@)
            } else {
                shown@ == entry.source@ && shown@.len() > 0
            },
        },
        r is Ok <==> is_packageable(entry.source@) && is_packageable(
            dest_of(entry.deep_view()),
        ),
        r matches Ok(step) ==> (step is SkipMissing <==> entry.optional && !source_exists),
{
    let dest = match &entry.dest {
        Some(dest) => dest.as_str(),
        None => entry.source.as_str(),
    };
    match validate_resource_path(entry.source.as_str()) {
        Ok(_) => {},
        Err(e) => {
            return Err(e);
        },
    }
    match validate_resource_path(dest) {
        Ok(_) => {},
        Err(e) => {
            return Err(e);
        },
    }
    if skip_missing_optional(entry.optional, source_exists) {
        return Ok(PackagingStep::SkipMissing);
    }
    let source = entry.source.clone();
    let dest = dest.to_owned();
    Ok(
        match entry.kind {
            ResourceKind::File => PackagingStep::CopyFile { source, dest },
            ResourceKind::Dir => PackagingStep::CopyDir { source, dest },
        },
    )
}

/// Whether a name is one of those that never belong into a package.
pub open spec fn is_junk_name(name: Seq<char>) -> bool {
    ||| name == "worktrees"@
    ||| name == ".worktrees"@
    ||| name == ".git"@
    ||| name == "__pycache__"@
    ||| name == ".DS_Store"@
    ||| name == ".pytest_cache"@
    ||| name == ".mypy_cache"@
    ||| name == ".ruff_cache"@
    ||| name == "settings.local.json"@
    ||| name == ".lingxi"@
    ||| name == "node_modules"@
}

/// Whether a name has the extension of compiled Python code, in any case.
pub open spec fn is_compiled_python(name: Seq<char>) -> bool {
    name.len() > 4 && lower(name.skip(name.len() - 4)) == ".pyc"@
}

/// Whether a directory entry is left out of the package.
pub open spec fn is_left_out(name: Seq<char>) -> bool {
    is_junk_name(name) || "._"@.is_prefix_of(name) || is_compiled_python(name)
}

/// [`is_left_out`]: whether a directory entry is left out of the package. `name`
/// is the name of the entry in its directory.
pub fn should_skip_resource(name: &str) -> (r: bool)
    requires
        !name@.contains('/'),
    ensures
        r == is_left_out(name@),
{
    let junk = same(name, "worktrees") || same(name, ".worktrees") || same(name, ".git") || same(
        name,
        "__pycache__",
    ) || same(name, ".DS_Store") || same(name, ".pytest_cache") || same(name, ".mypy_cache")
        || same(name, ".ruff_cache") || same(name, "settings.local.json") || same(name, ".lingxi")
        || same(name, "node_modules");
    if junk || has_prefix(name, "._") {
        return true;
    }
    let n: usize = name.unicode_len();
    if n <= 4 {
        return false;
    }
    let tail = slice(name, n - 4, n);
    assert(tail@ =~= name@.skip(n - 4));
    same(lowered(tail.as_str()).as_str(), ".pyc")
}

/// What to do with a directory entry while a directory is copied.
#[derive(Debug, Clone, Copy, PartialEq, Eq)]
pub enum CopyStep {
    LeaveOut,
    Descend,
    CopyFile,
}

/// What to do with a directory entry while a directory is copied: what is neither
/// a directory nor a file is left out.
pub fn copy_step(name: &str, is_dir: bool, is_file: bool) -> (r: CopyStep)
    requires
        !name@.contains('/'),
    ensures
        r == if is_left_out(name@) {
            CopyStep::LeaveOut
        } else if is_dir {
            CopyStep::Descend
        } else if is_file {
            CopyStep::CopyFile
        } else {
            CopyStep::LeaveOut
        },
        r == CopyStep::Descend <==> is_dir && !is_left_out(name@),
        r == CopyStep::CopyFile <==> is_file && !is_dir && !is_left_out(name@),
{
    if should_skip_resource(name) {
        CopyStep::LeaveOut
    } else if is_dir {
        CopyStep::Descend
    } else if is_file {
        CopyStep::CopyFile
    } else {
        CopyStep::LeaveOut
    }
}

/// What is known of where a binary was built from.
#[derive(Debug, PartialEq, Eq)]
pub struct BuildMetadata {
    pub sha: String,
    pub submodule_sha: String,
    pub dirty: bool,
    pub version_string: String,
}

/// A commit, or that it is unknown.
pub open spec fn known_sha(sha: Option<Seq<char>>) -> Seq<char> {
    match sha {
        Some(s) => s,
        None => "unknown"@,
    }
}

/// The version of a binary: the version of the crate, the commits it was built
/// from, and whether anything was changed since.
pub open spec fn version_text(
    version: Seq<char>,
    sha: Seq<char>,
    submodule_sha: Seq<char>,
    dirty: bool,
) -> Seq<char> {
    version + " ("@ + sha + "+sub:"@ + submodule_sha + if dirty {
        "-dirty"@
    } else {
        ""@
    } + ")"@
}

fn sha_or_unknown(sha: &Option<String>) -> (r: String)
    ensures
        r@ == known_sha(sha.deep_view()),
{
    match sha {
        Some(s) => s.clone(),
        None => "unknown".to_owned(),
    }
}

/// The commit that a query for it printed; nothing where the query failed, or
/// printed no text or none but white space.
pub fn git_short_sha(succeeded: bool, printed: Option<String>) -> (r: Option<String>)
    ensures
        match r {
            Some(sha) => {
                &&& succeeded
                &&& printed matches Some(text) && sha@ == trim(text@) && sha@.len() > 0
            },
            None => !succeeded || printed is None || (printed matches Some(text) && trim(
                text@,
            ).len() == 0),
        },
{
    if !succeeded {
        return None;
    }
    match printed {
        Some(text) => {
            let sha = trimmed(text.as_str());
            if sha.as_str().is_empty() {
                None
            } else {
                Some(sha)
            }
        },
        None => None,
    }
}

/// Whether a query for changes showed some.
pub fn git_is_dirty(succeeded: bool, printed_something: bool) -> (r: bool)
    ensures
        r == (succeeded && printed_something),
{
    succeeded && printed_something
}

/// What a binary is told of where it was built from.
pub fn build_metadata(
    version: Option<String>,
    sha: Option<String>,
    submodule_sha: Option<String>,
    dirty: bool,
    submodule_dirty: bool,
) -> (r: BuildMetadata)
    ensures
        r.sha@ == known_sha(sha.deep_view()),
        r.submodule_sha@ == known_sha(submodule_sha.deep_view()),
        r.dirty == (dirty || submodule_dirty),
        sha matches Some(s) ==> r.sha@ == s@,
        sha is None ==> r.sha@ == "unknown"@,
        submodule_sha matches Some(s) ==> r.submodule_sha@ == s@,
        submodule_sha is None ==> r.submodule_sha@ == "unknown"@,
        r.version_string@ == version_text(
            match version {
                Some(v) => v@,
                None => "0.0.0"@,
            },
            r.sha@,
            r.submodule_sha@,
            r.dirty,
        ),
{
    let sha = sha_or_unknown(&sha);
    let submodule_sha = sha_or_unknown(&submodule_sha);
    let dirty = dirty || submodule_dirty;
    let mut text = match version {
        Some(v) => v,
        None => "0.0.0".to_owned(),
    };
    text.append(" (");
    text.append(sha.as_str());
    text.append("+sub:");
    text.append(submodule_sha.as_str());
    if dirty {
        text.append("-dirty");
    } else {
        text.append("");
    }
    text.append(")");
    BuildMetadata { sha, submodule_sha, dirty, version_string: text }
}

/// A comment makes no difference to what a line says, and a line that is blank
/// but for a comment says nothing.
pub proof fn comments_say_nothing(line: Seq<char>, comment: Seq<char>)
    requires
        !line.contains('#'),
    ensures
        fields_on(line + seq!['#'] + comment) == fields_on(line),
        trim(line).len() == 0 ==> fields_on(line).len() == 0,
{
    text_before_comment(line, seq!['#'] + comment);
    assert(line + seq!['#'] + comment =~= line + (seq!['#'] + comment));
    text_before_comment(line, Seq::empty());
    assert(line + Seq::<char>::empty() =~= line);
}

proof fn text_before_comment(line: Seq<char>, rest: Seq<char>)
    requires
        !line.contains('#'),
        rest.len() == 0 || rest[0] == '#',
    ensures
        before(line + rest, '#') == line,
    decreases line.len(),
{
    let all = line + rest;
    if line.len() == 0 {
        assert(all =~= rest);
        assert(before(all, '#') =~= line);
    } else {
        assert(line.contains(line[0]));
        assert(all[0] == line[0]);
        assert(all.drop_first() =~= line.drop_first() + rest);
        assert forall|c: char| line.drop_first().contains(c) implies line.contains(c) by {
            let i = choose|i: int| 0 <= i < line.drop_first().len() && line.drop_first()[i] == c;
            assert(line[i + 1] == c);
        }
        text_before_comment(line.drop_first(), rest);
        assert(seq![line[0]] + line.drop_first() =~= line);
    }
}

/// An entry is passed over only where it is optional and missing; a required one
/// is always copied, so that a missing source is noticed.
pub proof fn required_entries_are_never_passed_over(entry: EntryView, source_exists: bool)
    ensures
        packaging_step(entry, source_exists) is SkipMissing <==> entry.optional && !source_exists,
        packaging_step(entry, true) != PackagingStepView::SkipMissing,
{
}

/// A line of the manifest names a file or a directory, with a question mark where it may be
/// missing, and a path; the resource goes to the same path, or to another one behind `as`.
pub proof fn lines_name_resources(path: Seq<char>, dest: Seq<char>)
    ensures
        ({
            let named = |kind: ResourceKind, optional: bool, word: Seq<char>|
                {
                    &&& entry_in(seq![word, path]) == Ok::<EntryView, ProblemView>(
                        EntryView { kind, optional, source: path, dest: None },
                    )
                    &&& entry_in(seq![word, path, "as"@, dest]) == Ok::<EntryView, ProblemView>(
                        EntryView { kind, optional, source: path, dest: Some(dest) },
                    )
                };
            &&& named(ResourceKind::File, false, "file"@)
            &&& named(ResourceKind::File, true, "file?"@)
            &&& named(ResourceKind::Dir, false, "dir"@)
            &&& named(ResourceKind::Dir, true, "dir?"@)
        }),
{
    kind_words_differ();
}

proof fn kind_words_differ()
    ensures
        "file"@.len() == 4,
        "file?"@.len() == 5,
        "dir"@.len() == 3,
        "dir?"@.len() == 4,
        "file"@[0] == 'f',
        "dir?"@[0] == 'd',
{
    reveal_strlit("file");
    reveal_strlit("file?");
    reveal_strlit("dir");
    reveal_strlit("dir?");
}

/// A line of the manifest is refused where its first word is none of the four kinds, where the
/// path is missing, where something else than `as` follows the path, where nothing follows `as`,
/// and where more follows behind that; and only there.
pub proof fn lines_are_refused_for_a_reason(fields: Seq<Seq<char>>)
    requires
        fields.len() > 0,
    ensures
        ({
            let kind = fields[0];
            let known = kind == "file"@ || kind == "file?"@ || kind == "dir"@ || kind == "dir?"@;
            let n = fields.len();
            &&& !known ==> entry_in(fields) == Err::<EntryView, ProblemView>(
                ProblemView::InvalidKind(kind),
            )
            &&& known && n == 1 ==> entry_in(fields) == Err::<EntryView, ProblemView>(
                ProblemView::MissingPath,
            )
            &&& known && n > 2 && fields[2] != "as"@ ==> entry_in(fields) == Err::<
                EntryView,
                ProblemView,
            >(ProblemView::ExpectedAs(fields[2]))
            &&& known && n == 3 && fields[2] == "as"@ ==> entry_in(fields) == Err::<
                EntryView,
                ProblemView,
            >(ProblemView::MissingDestination)
            &&& known && n > 4 && fields[2] == "as"@ ==> entry_in(fields) == Err::<
                EntryView,
                ProblemView,
            >(ProblemView::ExtraFields)
            &&& known && (n == 2 || n == 4 && fields[2] == "as"@) ==> entry_in(fields) is Ok
        }),
{
}

/// A manifest whose lines all say something has one entry per line, in their order, each that of
/// its line. Where a line is refused, the first such line is told, counted from one, with what is
/// wrong with it.
pub proof fn manifests_go_line_by_line(all: Seq<Seq<char>>, n: nat)
    requires
        n <= all.len(),
        forall|i: int| 0 <= i < n ==> fields_on(#[trigger] all[i]).len() > 0,
    ensures
        match manifest_of(all, n) {
            Ok(entries) => entries.len() == n && forall|i: int|
                0 <= i < n ==> Ok::<EntryView, ProblemView>(entries[i]) == entry_in(
                    fields_on(#[trigger] all[i]),
                ),
            Err((line, problem)) => {
                &&& 1 <= line <= n
                &&& entry_in(fields_on(all[line - 1])) == Err::<EntryView, ProblemView>(problem)
                &&& forall|i: int|
                    0 <= i < line - 1 ==> entry_in(fields_on(#[trigger] all[i])) is Ok
            },
        },
    decreases n,
{
    if n > 0 {
        manifests_go_line_by_line(all, (n - 1) as nat);
        assert(fields_on(all[n - 1]).len() > 0);
        match manifest_of(all, (n - 1) as nat) {
            Ok(entries) => {
                match entry_in(fields_on(all[n - 1])) {
                    Ok(entry) => {
                        let more = entries.push(entry);
                        assert forall|i: int| 0 <= i < n implies Ok::<EntryView, ProblemView>(
                            more[i],
                        ) == entry_in(fields_on(#[trigger] all[i])) by {
                            if i < n - 1 {
                                assert(more[i] == entries[i]);
                            }
                        }
                    },
                    Err(_) => {},
                }
            },
            Err(_) => {},
        }
    }
}

/// A line that says nothing makes no difference to a manifest.
pub proof fn blank_lines_are_passed_over(all: Seq<Seq<char>>, n: nat)
    requires
        n < all.len(),
        fields_on(all[n as int]).len() == 0,
    ensures
        manifest_of(all, n + 1) == manifest_of(all, n),
{
}

/// A path that starts at the root, or that goes up from any directory on its way, cannot be
/// packaged, and neither can an empty one.
pub proof fn paths_that_lead_out_are_refused(head: Seq<char>, tail: Seq<char>)
    ensures
        !is_packageable(Seq::empty()),
        !is_packageable(seq!['/'] + tail),
        !is_packageable(seq!['.', '.']),
        !is_packageable(seq!['.', '.', '/'] + tail),
        !is_packageable(head + seq!['/', '.', '.']),
        !is_packageable(head + seq!['/', '.', '.', '/'] + tail),
{
    assert((seq!['/'] + tail)[0] == '/');
    assert(parent_at(seq!['.', '.'], 0));
    assert(parent_at(seq!['.', '.', '/'] + tail, 0));
    assert(parent_at(head + seq!['/', '.', '.'], head.len() as int + 1));
    assert(parent_at(head + seq!['/', '.', '.', '/'] + tail, head.len() as int + 1));
}

/// Every other path can be packaged: one that does not start at the root and in which no two dots
/// stand together.
pub proof fn paths_that_stay_can_be_packaged(path: Seq<char>)
    requires
        path.len() > 0,
        path[0] != '/',
        forall|i: int|
            0 <= i < path.len() - 1 ==> (#[trigger] path[i]) != '.' || path[i + 1] != '.',
    ensures
        is_packageable(path),
{
    if goes_up(path) {
        let i = choose|i: int| parent_at(path, i);
        assert(path[i] == '.' && path[i + 1] == '.');
    }
}

/// A file is copied as a file and a directory as a directory, from its path to its destination,
/// which is the same path where none is given.
pub proof fn resources_are_copied_by_kind(entry: EntryView, source_exists: bool)
    requires
        source_exists || !entry.optional,
    ensures
        ({
            let to = if entry.dest is Some {
                entry.dest->0
            } else {
                entry.source
            };
            &&& entry.kind == ResourceKind::File ==> packaging_step(entry, source_exists) == (
            PackagingStepView::CopyFile { source: entry.source, dest: to })
            &&& entry.kind == ResourceKind::Dir ==> packaging_step(entry, source_exists) == (
            PackagingStepView::CopyDir { source: entry.source, dest: to })
        }),
{
}

/// Work trees, version control, caches, local settings, installed modules, the files that a Mac
/// leaves behind and compiled Python code are left out; whatever bears none of these names, none
/// of their beginnings and no such ending is not.
pub proof fn junk_is_left_out(name: Seq<char>, stem: Seq<char>, ending: Seq<char>)
    ensures
        is_left_out("worktrees"@),
        is_left_out(".worktrees"@),
        is_left_out(".git"@),
        is_left_out("__pycache__"@),
        is_left_out(".DS_Store"@),
        is_left_out(".pytest_cache"@),
        is_left_out(".mypy_cache"@),
        is_left_out(".ruff_cache"@),
        is_left_out("settings.local.json"@),
        is_left_out(".lingxi"@),
        is_left_out("node_modules"@),
        is_left_out(seq!['.', '_'] + name),
        stem.len() > 0 && spells(ending, ".pyc"@) ==> is_left_out(stem + ending),
        name != "worktrees"@ && name != ".worktrees"@ && name != ".git"@ && name != "__pycache__"@
            && name != ".DS_Store"@ && name != ".pytest_cache"@ && name != ".mypy_cache"@ && name
            != ".ruff_cache"@ && name != "settings.local.json"@ && name != ".lingxi"@ && name
            != "node_modules"@ && !(name.len() >= 2 && name[0] == '.' && name[1] == '_') && !(
        name.len() > 4 && spells(name.skip(name.len() - 4), ".pyc"@)) ==> !is_left_out(name),
{
    reveal_strlit("._");
    reveal_strlit(".pyc");
    let marked = seq!['.', '_'] + name;
    assert(marked.subrange(0, 2) =~= "._"@);
    assert("._"@.is_prefix_of(marked));
    assert(".pyc"@.len() == 4);
    if stem.len() > 0 && spells(ending, ".pyc"@) {
        let all = stem + ending;
        assert(all.skip(all.len() - 4) =~= ending);
        assert forall|i: int| 0 <= i < 4 implies lower(ending)[i] == ".pyc"@[i] by {
            assert(same_letter(ending[i], ".pyc"@[i]));
        }
        assert(lower(ending) =~= ".pyc"@);
    }
    if "._"@.is_prefix_of(name) {
        assert(name.subrange(0, 2)[0] == '.' && name.subrange(0, 2)[1] == '_');
    }
    if name.len() > 4 {
        let tail = name.skip(name.len() - 4);
        if lower(tail) == ".pyc"@ {
            assert forall|i: int| 0 <= i < 4 implies same_letter(#[trigger] tail[i], ".pyc"@[i]) by {
                assert(lower(tail)[i] == ".pyc"@[i]);
            }
        }
    }
}

/// The version of a binary says the version of the crate and, in brackets, the commit, the commit
/// of the submodule behind a plus sign, and whether anything was changed since.
pub proof fn versions_say_where_they_come_from(
    version: Seq<char>,
    sha: Seq<char>,
    submodule_sha: Seq<char>,
)
    ensures
        version_text(version, sha, submodule_sha, false) == version + " ("@ + sha + "+sub:"@
            + submodule_sha + ")"@,
        version_text(version, sha, submodule_sha, true) == version + " ("@ + sha + "+sub:"@
            + submodule_sha + "-dirty)"@,
        known_sha(None) == "unknown"@,
        known_sha(Some(sha)) == sha,
{
    reveal_strlit("");
    reveal_strlit("-dirty");
    reveal_strlit(")");
    reveal_strlit("-dirty)");
    assert("-dirty"@ + ")"@ =~= "-dirty)"@);
    assert(version_text(version, sha, submodule_sha, false) =~= version + " ("@ + sha + "+sub:"@
        + submodule_sha + ")"@);
    assert(version_text(version, sha, submodule_sha, true) =~= version + " ("@ + sha + "+sub:"@
        + submodule_sha + "-dirty)"@);
}

/// The problem of a line is told with the word that it is about.
pub proof fn problems_name_their_word(word: Seq<char>)
    ensures
        problem_text(ProblemView::InvalidKind(word)) == "invalid resource kind `"@ + word + "`"@,
        problem_text(ProblemView::MissingPath) == "missing resource path"@,
        problem_text(ProblemView::MissingDestination) == "missing destination path after `as`"@,
        problem_text(ProblemView::ExpectedAs(word))
            == "expected `as <dest>` or end of line, got `"@ + word + "`"@,
        problem_text(ProblemView::ExtraFields) == "unexpected extra fields"@,
{
}

} // verus!

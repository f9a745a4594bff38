use include_dir::{Dir, DirEntry, File};
use lingxi_ascendc::embedded_resources::{
    cleanup_orphans, commands_of, list_embedded_commands, parse_command_frontmatter,
    plugin_layout, EmbeddedFile, LockState, OrphanCandidate, ORPHAN_AGE_NANOS,
};

const COMMANDS: &[DirEntry<'static>] = &[
    DirEntry::File(File::new(
        ".home/commands/verify-env.md",
        b"---\ndescription: check the environment\n---\n",
    )),
    DirEntry::File(File::new(
        ".home/commands/gen-tilelang.md",
        b"---\ndescription: generate a kernel\nargument-hint: <op>\n---\n\nbody",
    )),
    DirEntry::File(File::new(".home/commands/notes.txt", b"---\ndescription: no\n---\n")),
    DirEntry::File(File::new(".home/commands/broken.md", b"\xff\xfe")),
    DirEntry::File(File::new(".home/commands/gen-ascendc.md", b"# no front matter")),
];

const HOME: &[DirEntry<'static>] = &[
    DirEntry::Dir(Dir::new(".home/commands", COMMANDS)),
    DirEntry::Dir(Dir::new(".home/skills", &[])),
];

const PACKAGED: Dir<'static> = Dir::new("", &[DirEntry::Dir(Dir::new(".home", HOME))]);

#[test]
fn list_embedded_commands_returns_packaged_slash_commands() {
    let commands = list_embedded_commands(&PACKAGED, ".home");
    let names: Vec<&str> = commands.iter().map(|c| c.name.as_str()).collect();
    assert!(names.contains(&"gen-tilelang"), "missing gen-tilelang: {names:?}");
    assert!(names.contains(&"gen-ascendc"), "missing gen-ascendc: {names:?}");
    assert!(names.contains(&"verify-env"), "missing verify-env: {names:?}");
    // Sorted output keeps the welcome banner stable across rebuilds.
    let mut sorted = names.clone();
    sorted.sort_unstable();
    assert_eq!(names, sorted);
    let gen_til = commands.iter().find(|c| c.name == "gen-tilelang").unwrap();
    assert!(!gen_til.description.is_empty(), "description missing for gen-tilelang");
    assert!(!gen_til.argument_hint.is_empty(), "argument-hint missing for gen-tilelang");
}

#[test]
fn parse_command_frontmatter_extracts_description_and_argument_hint() {
    let body = "---\ndescription: do something\nargument-hint: <arg>\n---\n\nbody";
    let (desc, hint) = parse_command_frontmatter(body);
    assert_eq!(desc, "do something");
    assert_eq!(hint, "<arg>");
}

#[test]
fn parse_command_frontmatter_handles_missing_frontmatter() {
    let (desc, hint) = parse_command_frontmatter("# just markdown");
    assert!(desc.is_empty());
    assert!(hint.is_empty());
}

#[test]
fn parse_command_frontmatter_handles_missing_argument_hint() {
    let body = "---\ndescription: only desc\n---\n";
    let (desc, hint) = parse_command_frontmatter(body);
    assert_eq!(desc, "only desc");
    assert!(hint.is_empty());
}

#[test]
fn only_readable_markdown_files_are_commands() {
    let names: Vec<String> =
        list_embedded_commands(&PACKAGED, ".home").into_iter().map(|c| c.name).collect();
    assert_eq!(names, vec!["gen-ascendc", "gen-tilelang", "verify-env"]);
    assert!(list_embedded_commands(&Dir::new("", &[]), ".home").is_empty());
    let file = |path: &str| EmbeddedFile {
        path: path.to_owned(),
        contents: Some(String::new()),
    };
    let found = commands_of(&vec![file("b.c.md"), file(".md"), file("x/.md"), file("a.MD")]);
    let names: Vec<&str> = found.iter().map(|c| c.name.as_str()).collect();
    assert_eq!(names, vec!["b.c"]);
}

#[test]
fn the_last_line_of_the_front_matter_counts() {
    let (desc, hint) = parse_command_frontmatter(
        " --- \r\ndescription: one\r\n description: indented\r\ndescription: two\r\n---\r\nargument-hint: no",
    );
    assert_eq!(desc, "two");
    assert_eq!(hint, "");
    let (desc, hint) = parse_command_frontmatter("---\ndescription:open\nargument-hint: x");
    assert_eq!((desc.as_str(), hint.as_str()), ("open", "x"));
    assert_eq!(parse_command_frontmatter(""), (String::new(), String::new()));
}

#[test]
fn plugins_hold_the_directories_that_are_packaged() {
    assert_eq!(
        plugin_layout(&PACKAGED, ".home"),
        Some(vec!["commands".to_owned(), "skills".to_owned()])
    );
    assert_eq!(plugin_layout(&Dir::new("", &[]), ".home"), None);
}

#[test]
fn only_old_marked_and_unused_directories_are_orphans() {
    let now: i128 = 10 * ORPHAN_AGE_NANOS;
    let old = OrphanCandidate {
        is_dir: true,
        has_marker: true,
        lock: LockState::Free,
        modified: Some(now - ORPHAN_AGE_NANOS - 1),
    };
    assert!(cleanup_orphans(&old, now));
    assert!(cleanup_orphans(&OrphanCandidate { lock: LockState::Absent, ..old }, now));
    for lock in [LockState::Held, LockState::Unreadable, LockState::Unknown] {
        assert!(!cleanup_orphans(&OrphanCandidate { lock, ..old }, now));
    }
    assert!(!cleanup_orphans(&OrphanCandidate { is_dir: false, ..old }, now));
    assert!(!cleanup_orphans(&OrphanCandidate { has_marker: false, ..old }, now));
    assert!(!cleanup_orphans(&OrphanCandidate { modified: None, ..old }, now));
    let young = OrphanCandidate { modified: Some(now - ORPHAN_AGE_NANOS), ..old };
    assert!(!cleanup_orphans(&young, now));
    assert!(!cleanup_orphans(&old, i128::MIN));
}

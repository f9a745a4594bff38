use lingxi_ascendc::packaging::{
    build_metadata, copy_step, git_is_dirty, git_short_sha, parse_manifest, plan_entry,
    should_skip_resource, skip_missing_optional, validate_resource_path, CopyStep, ManifestProblem,
    PackagingStep, PathError, ResourceEntry, ResourceKind,
};

#[test]
fn parse_dir_as_dest() {
    let manifest = "dir foo/bar as baz\n";
    let entries = parse_manifest(manifest).expect("parse should succeed");
    assert_eq!(entries.len(), 1);
    let e = &entries[0];
    assert!(matches!(e.kind, ResourceKind::Dir));
    assert_eq!(e.source, "foo/bar");
    assert_eq!(e.dest.as_deref(), Some("baz"));
}

#[test]
fn parse_file_as_dest() {
    let manifest = "file a/b.md as GUIDE.md\n";
    let entries = parse_manifest(manifest).expect("parse should succeed");
    assert_eq!(entries.len(), 1);
    let e = &entries[0];
    assert!(matches!(e.kind, ResourceKind::File));
    assert_eq!(e.source, "a/b.md");
    assert_eq!(e.dest.as_deref(), Some("GUIDE.md"));
}

#[test]
fn parse_dir_no_dest() {
    let manifest = "dir some/path\n";
    let entries = parse_manifest(manifest).expect("parse should succeed");
    assert_eq!(entries.len(), 1);
    let e = &entries[0];
    assert!(matches!(e.kind, ResourceKind::Dir));
    assert_eq!(e.source, "some/path");
    assert!(e.dest.is_none());
}

#[test]
fn parse_rejects_dir_as_missing_dest() {
    // "dir foo as" — `as` keyword present but no destination path
    let manifest = "dir foo as\n";
    let result = parse_manifest(manifest);
    assert!(result.is_err(), "should reject missing destination after `as`");
    let msg = result.unwrap_err().message();
    assert!(
        msg.contains("missing destination path"),
        "error message should mention missing destination: {msg}"
    );
}

#[test]
fn parse_rejects_unknown_keyword() {
    let manifest = "dir foo bar\n";
    let result = parse_manifest(manifest);
    assert!(result.is_err(), "should reject unexpected token after source");
    let msg = result.unwrap_err().message();
    assert!(msg.contains("expected `as <dest>`"), "got: {msg}");
}

#[test]
fn parse_rejects_extra_fields() {
    let manifest = "dir foo as bar extra\n";
    let result = parse_manifest(manifest);
    assert!(result.is_err(), "should reject extra fields after dest");
    let msg = result.unwrap_err().message();
    assert!(msg.contains("unexpected extra fields"), "got: {msg}");
}

#[test]
fn parse_ignores_comments_and_blank_lines() {
    let manifest = "\n# comment\nfile a.md\n\n# another\n";
    let entries = parse_manifest(manifest).expect("parse should succeed");
    assert_eq!(entries.len(), 1);
}


#[test]
fn parse_plain_kinds_are_required() {
    let entries = parse_manifest("file a.md\ndir some/path\n").expect("parse should succeed");
    assert_eq!(entries.len(), 2);
    assert!(!entries[0].optional, "plain `file` must be required");
    assert!(!entries[1].optional, "plain `dir` must be required");
}

#[test]
fn parse_optional_file() {
    let entries = parse_manifest("file? a/b.json as c/d.json\n").expect("parse should succeed");
    assert_eq!(entries.len(), 1);
    let e = &entries[0];
    assert!(matches!(e.kind, ResourceKind::File));
    assert!(e.optional, "`file?` must be optional");
    assert_eq!(e.source, "a/b.json");
    assert_eq!(e.dest.as_deref(), Some("c/d.json"));
}

#[test]
fn parse_optional_dir() {
    let entries = parse_manifest("dir? foo/bar as baz\n").expect("parse should succeed");
    assert_eq!(entries.len(), 1);
    let e = &entries[0];
    assert!(matches!(e.kind, ResourceKind::Dir));
    assert!(e.optional, "`dir?` must be optional");
    assert_eq!(e.source, "foo/bar");
    assert_eq!(e.dest.as_deref(), Some("baz"));
}

#[test]
fn skip_missing_optional_semantics() {
    assert!(skip_missing_optional(true, false), "optional missing => skip");
    assert!(!skip_missing_optional(false, false), "required missing => must not skip");
    assert!(!skip_missing_optional(true, true), "optional present => must not skip");
    assert!(!skip_missing_optional(false, true));
}

#[test]
fn manifest_errors_name_the_first_bad_line() {
    let e = parse_manifest("file a\n\nlink b\ndir\n").unwrap_err();
    assert_eq!(e.line, 3);
    assert_eq!(e.problem, ManifestProblem::InvalidKind("link".to_owned()));
    assert_eq!(e.message(), "invalid resource kind `link` on line 3");
    let e = parse_manifest("dir # no path\n").unwrap_err();
    assert_eq!(e.message(), "missing resource path on line 1");
    let e = parse_manifest("\r\ndir foo as\r\n").unwrap_err();
    assert_eq!(e.message(), "missing destination path after `as` on line 2");
    let e = parse_manifest("dir foo bar").unwrap_err();
    assert_eq!(e.message(), "expected `as <dest>` or end of line, got `bar` on line 1");
    let e = parse_manifest("dir a as b c").unwrap_err();
    assert_eq!(e.message(), "unexpected extra fields on line 1");
}

#[test]
fn trailing_comments_change_nothing() {
    let with = parse_manifest("file a.md as b.md # kept\n").unwrap();
    let without = parse_manifest("file a.md as b.md\n").unwrap();
    assert_eq!(with, without);
    assert_eq!(with.len(), 1);
}

#[test]
fn resource_paths_stay_in_the_repository() {
    assert!(validate_resource_path("foo/bar").is_ok());
    assert!(validate_resource_path("./foo").is_ok());
    assert!(validate_resource_path("foo/..bar").is_ok());
    assert!(validate_resource_path("foo..").is_ok());
    assert_eq!(validate_resource_path(""), Err(PathError::Empty));
    for bad in ["/etc", "..", "../x", "a/../b", "a/.."] {
        assert_eq!(validate_resource_path(bad), Err(PathError::NotRelative(bad.to_owned())));
    }
    assert_eq!(PathError::Empty.message(), "empty resource path");
    assert_eq!(
        PathError::NotRelative("/x".to_owned()).message(),
        "resource path must be repository-relative: /x"
    );
}

#[test]
fn entries_are_planned() {
    let entry = |kind, optional, source: &str, dest: Option<&str>| ResourceEntry {
        kind,
        optional,
        source: source.to_owned(),
        dest: dest.map(str::to_owned),
    };
    let file = entry(ResourceKind::File, false, "a.md", None);
    assert_eq!(
        plan_entry(&file, false),
        Ok(PackagingStep::CopyFile { source: "a.md".to_owned(), dest: "a.md".to_owned() })
    );
    let dir = entry(ResourceKind::Dir, true, "a/b", Some("c"));
    assert_eq!(
        plan_entry(&dir, true),
        Ok(PackagingStep::CopyDir { source: "a/b".to_owned(), dest: "c".to_owned() })
    );
    assert_eq!(plan_entry(&dir, false), Ok(PackagingStep::SkipMissing));
    let bad = entry(ResourceKind::Dir, true, "a/b", Some("../c"));
    assert_eq!(plan_entry(&bad, false), Err(PathError::NotRelative("../c".to_owned())));
}

#[test]
fn junk_is_left_out_of_packages() {
    for junk in
        ["worktrees", ".git", "__pycache__", "._x", "a.pyc", "a.PYC", "settings.local.json"]
    {
        assert!(should_skip_resource(junk), "{junk}");
    }
    for kept in ["a.py", ".pyc", "pyc", "git", "settings.json", "a.pyc.txt"] {
        assert!(!should_skip_resource(kept), "{kept}");
    }
    assert_eq!(copy_step("src", true, false), CopyStep::Descend);
    assert_eq!(copy_step("a.py", false, true), CopyStep::CopyFile);
    assert_eq!(copy_step("socket", false, false), CopyStep::LeaveOut);
    assert_eq!(copy_step("node_modules", true, false), CopyStep::LeaveOut);
}

#[test]
fn version_strings_name_the_commits() {
    let m = build_metadata(
        Some("1.2.3".to_owned()),
        git_short_sha(true, Some("abc\n".to_owned())),
        git_short_sha(true, Some("  ".to_owned())),
        git_is_dirty(true, false),
        git_is_dirty(true, true),
    );
    assert_eq!(m.sha, "abc");
    assert_eq!(m.submodule_sha, "unknown");
    assert!(m.dirty);
    assert_eq!(m.version_string, "1.2.3 (abc+sub:unknown-dirty)");
    let m = build_metadata(None, None, git_short_sha(false, Some("abc".to_owned())), false, false);
    assert_eq!(m.version_string, "0.0.0 (unknown+sub:unknown)");
    assert_eq!(git_short_sha(true, None), None);
    assert!(!git_is_dirty(false, true));
}

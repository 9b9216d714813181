use lean::read_tools::{
    apply_line_range, directory_listing, read_file_outcome, split_lines, DirectoryEntryKind,
    RawDirectoryEntry, ReadFileRange, ReadToolError, ReadTools,
};

#[test]
fn line_ranges_are_validated() {
    assert!(matches!(
        apply_line_range(
            "one\ntwo\n",
            ReadFileRange {
                start_line: Some(0),
                end_line: Some(1),
            },
        ),
        Err(ReadToolError::InvalidLineRange)
    ));
    assert!(matches!(
        apply_line_range(
            "one\ntwo\n",
            ReadFileRange {
                start_line: Some(2),
                end_line: Some(1),
            },
        ),
        Err(ReadToolError::InvalidLineRange)
    ));
    assert!(matches!(
        apply_line_range(
            "one\ntwo\n",
            ReadFileRange {
                start_line: Some(3),
                end_line: Some(3),
            },
        ),
        Err(ReadToolError::LineRangeOutOfBounds { .. })
    ));
}

#[test]
fn read_file_returns_inclusive_line_range() {
    let output = read_file_outcome(
        "/workspace/notes.txt".to_string(),
        true,
        Ok("one\ntwo\nthree\n".to_string()),
        ReadFileRange {
            start_line: Some(2),
            end_line: Some(3),
        },
    )
    .expect("line range should be readable");

    assert_eq!(output.content, "two\nthree");
    assert_eq!(output.start_line, Some(2));
    assert_eq!(output.end_line, Some(3));
}

#[test]
fn read_file_returns_complete_file_content() {
    let output = read_file_outcome(
        "/workspace/notes.txt".to_string(),
        true,
        Ok("one\ntwo\nthree\n".to_string()),
        ReadFileRange::default(),
    )
    .expect("file should be readable");
    assert_eq!(output.content, "one\ntwo\nthree\n");
    assert_eq!(output.path, "/workspace/notes.txt");

    let error = read_file_outcome(
        "/workspace/src".to_string(),
        false,
        Ok(String::new()),
        ReadFileRange::default(),
    )
    .expect_err("a directory is not a file");
    assert_eq!(error.message(), "path is not a file: /workspace/src");
}

#[test]
fn lines_follow_str_lines() {
    for text in ["", "a", "a\n", "a\r\nb", "a\n\nb\n", "x\r", "\n\n", "one\r\ntwo\r\n"] {
        let expected: Vec<String> = text.lines().map(|l| l.to_string()).collect();
        assert_eq!(split_lines(text), expected, "lines of {text:?}");
    }
}

#[test]
fn open_ended_ranges_default_to_the_file_bounds() {
    let text = "a\nb\nc";
    let range = |s, e| ReadFileRange { start_line: s, end_line: e };
    assert_eq!(apply_line_range(text, range(Some(2), None)), Ok("b\nc".to_string()));
    assert_eq!(apply_line_range(text, range(None, Some(1))), Ok("a".to_string()));
    assert_eq!(
        apply_line_range(text, range(Some(4), None)),
        Err(ReadToolError::LineRangeOutOfBounds {
            start_line: 4,
            end_line: 3,
            line_count: 3,
        })
    );
    assert_eq!(
        ReadToolError::LineRangeOutOfBounds {
            start_line: 4,
            end_line: 3,
            line_count: 3,
        }
        .message(),
        "line range 4..3 exceeds file length 3"
    );
}

#[test]
fn path_traversal_outside_workspace_is_rejected() {
    let tools = ReadTools::new("/tmp/t/workspace", Ok("/tmp/t/workspace".to_string()), true)
        .expect("read tools should build");

    let target = tools.target_path("../outside.txt");
    assert_eq!(target, "/tmp/t/workspace/../outside.txt");
    let error = tools
        .check_resolved(&target, Ok("/tmp/t/outside.txt".to_string()))
        .expect_err("outside traversal should be rejected");
    assert!(
        matches!(error, ReadToolError::EscapesWorkspace { .. }),
        "outside traversal should fail with workspace escape, got {error:?}"
    );

    assert_eq!(tools.target_path(""), "/tmp/t/workspace");
    assert_eq!(tools.target_path("/etc/passwd"), "/etc/passwd");
    assert_eq!(
        tools.check_resolved("x", Ok("/tmp/t/workspace/src/x".to_string())),
        Ok("/tmp/t/workspace/src/x".to_string())
    );
    assert!(matches!(
        tools.check_resolved("x", Ok("/tmp/t/workspace-other/x".to_string())),
        Err(ReadToolError::EscapesWorkspace { .. })
    ));
}

#[test]
fn list_directory_returns_sorted_entries() {
    let raw = |name: &str, is_dir: bool| RawDirectoryEntry {
        name: name.to_string(),
        is_symlink: false,
        is_dir,
        is_file: !is_dir,
    };
    let listing = directory_listing(
        "/w",
        true,
        Ok(vec![
            Ok(raw("zeta.txt", false)),
            Ok(raw("alpha", true)),
            Ok(raw("middle.txt", false)),
        ]),
    )
    .expect("workspace directory should be listable");

    let names = listing
        .entries
        .iter()
        .map(|entry| entry.name.as_str())
        .collect::<Vec<_>>();
    assert_eq!(names, ["alpha", "middle.txt", "zeta.txt"]);
    assert_eq!(listing.entries[0].kind, DirectoryEntryKind::Directory);
    assert_eq!(listing.entries[1].kind, DirectoryEntryKind::File);
    assert_eq!(listing.entries[0].path, "/w/alpha");

    let error = directory_listing(
        "/w",
        true,
        Ok(vec![Ok(raw("a", false)), Err("boom".to_string())]),
    )
    .expect_err("an unreadable entry should fail");
    assert_eq!(
        error,
        ReadToolError::ReadDirectoryEntry {
            path: "/w".to_string(),
            message: "boom".to_string(),
        }
    );
    assert_eq!(
        directory_listing("/w/file.txt", false, Ok(Vec::new())),
        Err(ReadToolError::NotDirectory {
            path: "/w/file.txt".to_string(),
        })
    );
}

#[test]
fn workspace_must_resolve_to_a_directory() {
    assert_eq!(
        ReadTools::new("missing", Err("not found".to_string()), false),
        Err(ReadToolError::ResolveWorkspace {
            path: "missing".to_string(),
            message: "not found".to_string(),
        })
    );
    assert_eq!(
        ReadTools::new("file.txt", Ok("/w/file.txt".to_string()), false),
        Err(ReadToolError::NotDirectory {
            path: "/w/file.txt".to_string(),
        })
    );
}

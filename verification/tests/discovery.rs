use giterdone::path::{destination_of, join, parent, strip_root, trim_trailing_sep};
use giterdone::text::joined_lines;
use giterdone::scanner::{
    find_collision, is_binary, is_junk, path_to_gitignore_pattern, scan,
    should_backup, CandidateEntry, EligibleFile, EntryKind, WalkedRoot, MAX_FILE_SIZE,
};

fn file(path: &str, size: u64, content: Option<&[u8]>) -> CandidateEntry {
    CandidateEntry {
        path: path.to_string(),
        kind: EntryKind::File,
        size,
        content: content.map(|c| c.to_vec()),
    }
}

fn dir(path: &str) -> CandidateEntry {
    CandidateEntry { path: path.to_string(), kind: EntryKind::Directory, size: 4096, content: None }
}

fn root(path: &str, is_dir: bool, entries: Vec<CandidateEntry>) -> WalkedRoot {
    WalkedRoot { path: path.to_string(), is_dir, entries }
}

fn pairs(files: &[EligibleFile]) -> Vec<(String, String)> {
    files.iter().map(|f| (f.source.clone(), f.destination.clone())).collect()
}

#[test]
fn size_ceiling_is_one_hundred_mebibytes() {
    assert_eq!(MAX_FILE_SIZE, 100 * 1024 * 1024);
}

#[test]
fn empty_content_is_not_binary() {
    assert!(!is_binary(&[]));
}

#[test]
fn zero_byte_makes_content_binary() {
    assert!(is_binary(b"plain text\0more text"));
    assert!(is_binary(&[0]));
}

#[test]
fn four_in_five_ascii_is_still_text() {
    assert!(!is_binary(&[b'a', b'b', b'c', b'd', 200]));
    assert!(!is_binary(b"only ascii here"));
}

#[test]
fn fewer_than_four_in_five_ascii_is_binary() {
    assert!(is_binary(&[b'a', b'b', b'c', 200, 201]));
    assert!(is_binary(&[255]));
    let mut bytes = vec![b'x'; 79];
    bytes.extend(vec![0x80u8; 21]);
    assert!(is_binary(&bytes));
    let mut bytes = vec![b'x'; 80];
    bytes.extend(vec![0x80u8; 20]);
    assert!(!is_binary(&bytes));
}

#[test]
fn junk_names_are_recognised() {
    assert!(is_junk(".DS_Store"));
    assert!(is_junk("/home/u/docs/.DS_Store"));
    assert!(is_junk("/home/u/Thumbs.db"));
    assert!(is_junk("/var/app/server.log"));
    assert!(is_junk("/var/app/.log"));
}

#[test]
fn other_names_are_not_junk() {
    assert!(!is_junk("/home/u/notes.txt"));
    assert!(!is_junk("/home/u/app.log/notes.txt"));
    assert!(!is_junk("/home/u/thumbs.db"));
    assert!(!is_junk("/home/u/x.DS_Store"));
    assert!(!is_junk("/home/u/catalog"));
    assert!(!is_junk(""));
}

#[test]
fn should_backup_applies_every_filter() {
    assert!(should_backup(&file("/a/notes.txt", 12, Some(b"hello world\n"))));
    assert!(should_backup(&file("/a/notes.txt", MAX_FILE_SIZE, Some(b"hello"))));
    assert!(!should_backup(&file("/a/notes.txt", MAX_FILE_SIZE + 1, Some(b"hello"))));
    assert!(!should_backup(&file("/a/image.png", 4, Some(&[0x89, 0x50, 0x00, 0x01]))));
    assert!(!should_backup(&file("/a/latin.txt", 3, Some(&[0xe9, 0xe8, b'a']))));
    assert!(!should_backup(&file("/a/run.log", 5, Some(b"hello"))));
    assert!(!should_backup(&file("/a/.DS_Store", 5, Some(b"hello"))));
}

#[test]
fn unreadable_file_is_not_taken_for_binary() {
    assert!(should_backup(&file("/a/secret.txt", 10, None)));
}

#[test]
fn directories_and_other_entries_are_never_eligible() {
    assert!(!should_backup(&dir("/a/docs")));
    let link = CandidateEntry {
        path: "/a/link".to_string(),
        kind: EntryKind::Other,
        size: 3,
        content: Some(b"abc".to_vec()),
    };
    assert!(!should_backup(&link));
}

#[test]
fn pattern_is_anchored_at_the_root() {
    assert_eq!(
        path_to_gitignore_pattern("/a/b/c.log", "/a"),
        Some("/b/c.log".to_string())
    );
    assert_eq!(
        path_to_gitignore_pattern("/a/big.bin", "/a/"),
        Some("/big.bin".to_string())
    );
    assert_eq!(path_to_gitignore_pattern("/a/big.bin", "/a/big.bin"), Some("/".to_string()));
}

#[test]
fn pattern_falls_back_to_the_whole_path() {
    assert_eq!(path_to_gitignore_pattern("/x/y.log", "/a"), Some("/x/y.log".to_string()));
    assert_eq!(path_to_gitignore_pattern("/ab/y.log", "/a"), Some("/ab/y.log".to_string()));
    assert_eq!(path_to_gitignore_pattern("x/y.log", "/a"), Some("/x/y.log".to_string()));
    assert_eq!(path_to_gitignore_pattern("/x/y.log", ""), Some("/x/y.log".to_string()));
}

#[test]
fn strip_root_respects_component_borders() {
    assert_eq!(strip_root("/a/b/c", "/a"), Some("b/c"));
    assert_eq!(strip_root("/a/b/c", "/a/b"), Some("c"));
    assert_eq!(strip_root("/a/b/c", "/a/b/c"), Some(""));
    assert_eq!(strip_root("/a/b/c", "/"), Some("a/b/c"));
    assert_eq!(strip_root("/a/b/c", ""), Some("/a/b/c"));
    assert_eq!(strip_root("/ab/c", "/a"), None);
    assert_eq!(strip_root("/a", "/a/b"), None);
    assert_eq!(strip_root("/x/b", "/a"), None);
}

#[test]
fn parent_drops_the_last_component() {
    assert_eq!(parent("/a/notes.txt"), Some("/a"));
    assert_eq!(parent("/a"), Some("/"));
    assert_eq!(parent("/"), None);
    assert_eq!(parent(""), None);
    assert_eq!(parent("notes.txt"), Some(""));
    assert_eq!(parent("/home/user/docs"), Some("/home/user"));
    assert_eq!(parent("/a/docs/"), Some("/a"));
    assert_eq!(parent("/a/docs//"), Some("/a"));
    assert_eq!(parent("/a/"), Some("/"));
    assert_eq!(parent("//"), None);
    assert_eq!(parent("docs/"), Some(""));
}

#[test]
fn join_appends_components() {
    assert_eq!(join("/a", "b/c"), "/a/b/c");
    assert_eq!(join("/", "b/c"), "/b/c");
    assert_eq!(join("/a", ""), "/a");
    assert_eq!(join("", "b"), "b");
}

#[test]
fn single_root_destination_is_relative_to_the_root() {
    assert_eq!(destination_of("/home/u/docs/sub/a.txt", "/home/u/docs", true), "sub/a.txt");
    assert_eq!(destination_of("/home/u/docs/a.txt", "/home/u/docs", true), "a.txt");
}

#[test]
fn single_root_destination_round_trips() {
    let root_path = "/home/u/docs";
    for source in ["/home/u/docs/a.txt", "/home/u/docs/x/y/z.md", "/home/u/docs/.hidden"] {
        let dest = destination_of(source, root_path, true);
        assert_eq!(join(root_path, &dest), source);
    }
}

#[test]
fn multi_root_destination_is_relative_to_the_parent() {
    assert_eq!(destination_of("/home/u/docs/a.txt", "/home/u/docs", false), "docs/a.txt");
    assert_eq!(destination_of("/a/notes.txt", "/a/notes.txt", false), "notes.txt");
    assert_eq!(destination_of("/notes.txt", "/notes.txt", false), "notes.txt");
}

#[test]
fn destination_falls_back_to_the_source_path() {
    assert_eq!(destination_of("/elsewhere/a.txt", "/home/u/docs", true), "/elsewhere/a.txt");
}

#[test]
fn scan_of_nothing_is_empty() {
    let (files, ignore) = scan(&[]).unwrap();
    assert!(files.is_empty());
    assert_eq!(ignore, "");
    let (files, ignore) = scan(&[root("/a", true, vec![])]).unwrap();
    assert!(files.is_empty());
    assert_eq!(ignore, "");
}

#[test]
fn scan_single_directory_root() {
    let roots = vec![root(
        "/home/u/docs",
        true,
        vec![
            dir("/home/u/docs"),
            file("/home/u/docs/a.txt", 5, Some(b"hello")),
            dir("/home/u/docs/sub"),
            file("/home/u/docs/sub/b.md", 3, Some(b"# b")),
            file("/home/u/docs/sub/trace.log", 3, Some(b"log")),
            file("/home/u/docs/blob.bin", 4, Some(&[0, 1, 2, 3])),
            file("/home/u/docs/.DS_Store", 4, Some(b"junk")),
        ],
    )];
    let (files, ignore) = scan(&roots).unwrap();
    assert_eq!(
        pairs(&files),
        vec![
            ("/home/u/docs/a.txt".to_string(), "a.txt".to_string()),
            ("/home/u/docs/sub/b.md".to_string(), "sub/b.md".to_string()),
        ]
    );
    assert_eq!(ignore, "/sub/trace.log\n/blob.bin\n/.DS_Store");
}

#[test]
fn every_excluded_file_is_listed_once_with_a_leading_slash() {
    let roots = vec![
        root(
            "/r1",
            true,
            vec![
                file("/r1/a.log", 1, Some(b"a")),
                file("/r1/keep.txt", 1, Some(b"a")),
                file("/r1/huge.txt", MAX_FILE_SIZE + 1, None),
            ],
        ),
        root("/r2", true, vec![file("/r2/Thumbs.db", 1, Some(b"a")), dir("/r2/d")]),
    ];
    let (files, ignore) = scan(&roots).unwrap();
    assert_eq!(files.len(), 1);
    let lines: Vec<&str> = ignore.split('\n').collect();
    assert_eq!(lines, vec!["/a.log", "/huge.txt", "/Thumbs.db"]);
    for line in lines {
        assert!(line.starts_with('/'));
    }
}

#[test]
fn scan_two_file_roots_one_too_large() {
    let roots = vec![
        root("/a/notes.txt", false, vec![file("/a/notes.txt", 12, Some(b"hello world\n"))]),
        root("/a/bigfile.bin", false, vec![file("/a/bigfile.bin", 150 * 1024 * 1024, None)]),
    ];
    let (files, ignore) = scan(&roots).unwrap();
    assert_eq!(pairs(&files), vec![("/a/notes.txt".to_string(), "notes.txt".to_string())]);
    assert_eq!(ignore.split('\n').count(), 1);
    assert_eq!(ignore, "/");
}

#[test]
fn scan_single_file_root_keeps_its_name() {
    let roots = vec![root("/a/notes.txt", false, vec![file("/a/notes.txt", 2, Some(b"hi"))])];
    let (files, _) = scan(&roots).unwrap();
    assert_eq!(pairs(&files), vec![("/a/notes.txt".to_string(), "notes.txt".to_string())]);
}

#[test]
fn same_basename_under_sibling_roots_does_not_collide() {
    let roots = vec![
        root("/home/u/docs", true, vec![file("/home/u/docs/readme.md", 2, Some(b"hi"))]),
        root("/home/u/code", true, vec![file("/home/u/code/readme.md", 2, Some(b"hi"))]),
    ];
    let (files, ignore) = scan(&roots).unwrap();
    assert_eq!(
        pairs(&files),
        vec![
            ("/home/u/docs/readme.md".to_string(), "docs/readme.md".to_string()),
            ("/home/u/code/readme.md".to_string(), "code/readme.md".to_string()),
        ]
    );
    assert_eq!(ignore, "");
}

#[test]
fn colliding_destinations_are_an_error() {
    let roots = vec![
        root("/a/x", true, vec![file("/a/x/f.txt", 2, Some(b"hi"))]),
        root("/b/x", true, vec![file("/b/x/g.txt", 2, Some(b"hi")), file("/b/x/f.txt", 2, Some(b"hi"))]),
    ];
    let err = scan(&roots).unwrap_err();
    assert_eq!(err.first_source, "/a/x/f.txt");
    assert_eq!(err.second_source, "/b/x/f.txt");
    assert_eq!(err.destination, "x/f.txt");
}

#[test]
fn find_collision_names_the_first_pair() {
    let files = vec![
        EligibleFile { source: "/1".to_string(), destination: "a".to_string() },
        EligibleFile { source: "/2".to_string(), destination: "b".to_string() },
        EligibleFile { source: "/3".to_string(), destination: "b".to_string() },
        EligibleFile { source: "/4".to_string(), destination: "a".to_string() },
    ];
    assert_eq!(find_collision(&files), Some((1, 2)));
    assert_eq!(find_collision(&files[..2].to_vec()), None);
    assert_eq!(find_collision(&Vec::new()), None);
}

#[test]
fn join_patterns_puts_line_feeds_between() {
    assert_eq!(joined_lines(&vec![]), "");
    assert_eq!(joined_lines(&vec!["/a".to_string()]), "/a");
    assert_eq!(joined_lines(&vec!["/a".to_string(), "/b".to_string(), "/c".to_string()]), "/a\n/b\n/c");
}

#[test]
fn scan_keeps_walk_order() {
    let make = || {
        vec![root(
            "/r",
            true,
            vec![file("/r/z.log", 1, Some(b"z")), file("/r/b.txt", 1, Some(b"b")), file("/r/a.log", 1, Some(b"a")), file("/r/a.txt", 1, Some(b"a"))],
        )]
    };
    let (files, ignore) = scan(&make()).unwrap();
    assert_eq!(ignore, "/z.log\n/a.log");
    assert_eq!(files[0].destination, "b.txt");
    assert_eq!(files[1].destination, "a.txt");
    let (again, ignore_again) = scan(&make()).unwrap();
    assert_eq!(pairs(&files), pairs(&again));
    assert_eq!(ignore, ignore_again);
}

#[test]
fn same_basename_under_differently_named_roots_does_not_collide() {
    let roots = vec![
        root("/a/x", true, vec![file("/a/x/f.txt", 2, Some(b"hi"))]),
        root("/b/y", true, vec![file("/b/y/f.txt", 2, Some(b"hi"))]),
    ];
    let (files, _) = scan(&roots).unwrap();
    assert_eq!(
        pairs(&files),
        vec![
            ("/a/x/f.txt".to_string(), "x/f.txt".to_string()),
            ("/b/y/f.txt".to_string(), "y/f.txt".to_string()),
        ]
    );
}

#[test]
fn single_file_root_is_not_single_root_mode() {
    let roots = vec![root("/a/b/notes.txt", false, vec![file("/a/b/notes.txt", 2, Some(b"hi"))])];
    let (files, ignore) = scan(&roots).unwrap();
    assert_eq!(files[0].destination, "notes.txt");
    assert_eq!(ignore, "");
    let junk = vec![root("/a/b/app.log", false, vec![file("/a/b/app.log", 2, Some(b"hi"))])];
    let (files, ignore) = scan(&junk).unwrap();
    assert!(files.is_empty());
    assert_eq!(ignore, "/");
}

#[test]
fn trailing_separators_are_passed_over() {
    assert_eq!(trim_trailing_sep("/a/docs/"), "/a/docs");
    assert_eq!(trim_trailing_sep("/a/docs"), "/a/docs");
    assert_eq!(trim_trailing_sep("///"), "/");
    assert_eq!(trim_trailing_sep("/"), "/");
    assert_eq!(trim_trailing_sep(""), "");
    assert_eq!(destination_of("/a/docs/x.txt", "/a/docs/", false), "docs/x.txt");
    assert_eq!(destination_of("/a/docs/x.txt", "/a/docs/", true), "x.txt");
    assert!(is_junk("/a/run.log/"));
    let roots = vec![
        root("/a/docs/", true, vec![file("/a/docs/x.txt", 2, Some(b"hi")), file("/a/docs/y.log", 2, Some(b"hi"))]),
        root("/a/code", true, vec![file("/a/code/x.txt", 2, Some(b"hi"))]),
    ];
    let (files, ignore) = scan(&roots).unwrap();
    assert_eq!(
        pairs(&files),
        vec![
            ("/a/docs/x.txt".to_string(), "docs/x.txt".to_string()),
            ("/a/code/x.txt".to_string(), "code/x.txt".to_string()),
        ]
    );
    assert_eq!(ignore, "/y.log");
}

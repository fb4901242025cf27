use docsync::error::{DocumentError, Target};
use docsync::model::DocumentFileType;
use docsync::path_guard::{
    check_new_path, check_trimmed_path, contains_traversal, creatable, decode_path, extension,
    file_name, folders_above, join, leaves_root, within,
};
use std::path::Path;

fn std_extension(path: &str) -> Option<String> {
    Path::new(path).extension().and_then(|e| e.to_str()).map(|e| e.to_string())
}

fn std_file_name(path: &str) -> Option<String> {
    Path::new(path).file_name().map(|n| n.to_string_lossy().to_string())
}

const SAMPLES: [&str; 28] = [
    "", "/", ".", "..", "a", "a.md", "a.b.md", ".hidden", ".hidden.md", "docs/a.md", "docs/a.md/",
    "docs/a.md/.", "docs/..", "docs/../a.json", "/abs/x.markdown", "a//b///c.md", "./a.md", "a.",
    "a..md", "..md", "dir.d/file", "dir/.", "dir/..", "trailing/slash/", "x/.y", "x/y.", "é/ü.md",
    "a/./b/./c.json",
];

#[test]
fn extension_agrees_with_the_standard_library() {
    for s in SAMPLES {
        assert_eq!(extension(s), std_extension(s), "extension of {:?}", s);
    }
}

#[test]
fn file_name_agrees_with_the_standard_library() {
    for s in SAMPLES {
        assert_eq!(file_name(s), std_file_name(s), "file name of {:?}", s);
    }
}

#[test]
fn join_agrees_with_the_standard_library() {
    let roots = ["", "/", "/repo", "/repo/", "repo", "a/b"];
    for root in roots {
        for s in SAMPLES {
            let expected = Path::new(root).join(s).to_string_lossy().to_string();
            assert_eq!(join(root, s), expected, "join of {:?} and {:?}", root, s);
        }
    }
}

#[test]
fn within_agrees_with_the_standard_library_on_absolute_paths() {
    let paths = [
        "/", "/repo", "/repo/", "/repo/docs", "/repo/docs/a.md", "/repo2", "/repo2/docs", "/rep",
        "/repo/./docs", "/other/repo", "/repo/docs/../..", "//repo//docs",
    ];
    for root in paths {
        for candidate in paths {
            let expected = Path::new(candidate).starts_with(Path::new(root));
            assert_eq!(within(root, candidate), expected, "{:?} within {:?}", candidate, root);
        }
    }
}

#[test]
fn relative_paths_are_inside_nothing() {
    assert!(!within("repo", "repo/docs"));
    assert!(!within("/repo", "repo/docs"));
    assert!(!within("", ""));
}

#[test]
fn sibling_with_common_prefix_is_outside() {
    assert!(within("/srv/repo", "/srv/repo/docs/a.md"));
    assert!(!within("/srv/repo", "/srv/repository/docs/a.md"));
    assert!(!within("/srv/repo", "/srv"));
}

#[test]
fn decode_resolves_escapes_once() {
    assert_eq!(decode_path("docs/a%20b.md"), Ok("docs/a b.md".to_string()));
    assert_eq!(decode_path("docs%2Fa.md"), Ok("docs/a.md".to_string()));
    assert_eq!(decode_path("a%2520b"), Ok("a%20b".to_string()));
    assert_eq!(decode_path("plain.md"), Ok("plain.md".to_string()));
    assert_eq!(decode_path("100%"), Ok("100%".to_string()));
    assert_eq!(decode_path("%zz"), Ok("%zz".to_string()));
    assert_eq!(decode_path("%2e%2e/x"), Ok("../x".to_string()));
    assert_eq!(decode_path("%F0%9F%91%BE"), Ok("\u{1F47E}".to_string()));
}

#[test]
fn decode_refuses_bytes_that_are_not_utf8() {
    assert_eq!(decode_path("%FF"), Err(DocumentError::InvalidEncoding));
    assert_eq!(decode_path("docs/%C3%28.md"), Err(DocumentError::InvalidEncoding));
}

#[test]
fn a_component_of_two_dots_is_a_traversal() {
    assert!(contains_traversal(".."));
    assert!(contains_traversal("../a.md"));
    assert!(contains_traversal("a/../b.md"));
    assert!(contains_traversal("a/b/.."));
    assert!(contains_traversal("/../x"));
    assert!(contains_traversal("a//..//b"));
    assert!(!contains_traversal("a..b.md"));
    assert!(!contains_traversal("..a/b"));
    assert!(!contains_traversal("a../b"));
    assert!(!contains_traversal("a/.../b"));
    assert!(!contains_traversal("a.b.md"));
    assert!(!contains_traversal("./a/.b"));
    assert!(!contains_traversal(""));
    assert!(!contains_traversal("."));
}

#[test]
fn a_path_steps_out_where_it_climbs_above_its_start() {
    for path in ["..", "../x.md", "a/../../x.md", "a/b/../../../x", "./../x", "a/./../..", "x/../.."] {
        assert!(leaves_root(path), "{:?}", path);
    }
    for path in [
        "", ".", "a.md", "a/../b.md", "docs/../docs/a.md", "a/b/../../c", "a..b", "/../x", "/..",
        "a/b/..", "...", "a/.../b",
    ] {
        assert!(!leaves_root(path), "{:?}", path);
    }
}

#[test]
fn file_types_by_extension() {
    assert_eq!(DocumentFileType::of_path("a.md"), Some(DocumentFileType::Markdown));
    assert_eq!(DocumentFileType::of_path("a.markdown"), Some(DocumentFileType::Markdown));
    assert_eq!(DocumentFileType::of_path("a.json"), Some(DocumentFileType::Json));
    assert_eq!(DocumentFileType::of_path("a.MD"), Some(DocumentFileType::Markdown));
    assert_eq!(DocumentFileType::of_path("DOCS/B.Markdown"), Some(DocumentFileType::Markdown));
    assert_eq!(DocumentFileType::of_path("a.JSON"), Some(DocumentFileType::Json));
    assert_eq!(DocumentFileType::of_path("a.mdx"), None);
    assert_eq!(DocumentFileType::of_path("a.m"), None);
    assert_eq!(DocumentFileType::of_path("a."), None);
    assert_eq!(DocumentFileType::of_path("a.txt"), None);
    assert_eq!(DocumentFileType::of_path("md"), None);
    assert_eq!(DocumentFileType::of_path(".md"), None);
    assert_eq!(DocumentFileType::from_extension(Some("json")), Some(DocumentFileType::Json));
    assert_eq!(DocumentFileType::from_extension(None), None);
    assert!(creatable("notes/new.md"));
    assert!(creatable("new.markdown"));
    assert!(!creatable("data.json"));
}

#[test]
fn new_paths_are_checked_without_the_disk() {
    assert_eq!(check_new_path("  docs/new.md \n", Target::NewFile), Ok("docs/new.md".to_string()));
    assert_eq!(
        check_new_path("   ", Target::NewFile),
        Err(DocumentError::EmptyPath { target: Target::NewFile })
    );
    assert_eq!(
        check_new_path("", Target::NewFolder),
        Err(DocumentError::EmptyPath { target: Target::NewFolder })
    );
    assert_eq!(check_new_path("../x.md", Target::NewFile), Err(DocumentError::PathTraversalAttempt));
    assert_eq!(check_new_path("notes..old.md", Target::NewFile), Ok("notes..old.md".to_string()));
    assert_eq!(check_new_path("a/../b", Target::NewFolder), Err(DocumentError::PathTraversalAttempt));
    assert_eq!(
        check_new_path("data.json", Target::NewFile),
        Err(DocumentError::UnsupportedFileType { target: Target::NewFile })
    );
    assert_eq!(check_new_path("seed/sub", Target::NewFolder), Ok("seed/sub".to_string()));
}

#[test]
fn a_plain_path_taken_from_a_root_lies_below_it() {
    for root in ["/repo", "/repo/", "/srv/a/b", "/"] {
        for path in ["a.md", "docs/a.md", "docs//deep/./x.json", "seed/sub", ".x/y"] {
            assert!(!contains_traversal(path));
            let target = join(root, path);
            assert!(within(root, &target), "{:?} below {:?}", target, root);
        }
    }
    assert!(contains_traversal("../x.md"));
    assert!(!within("/repo", &join("/repo", "/etc/x.md")));
}

#[test]
fn a_path_without_a_percent_sign_decodes_to_itself() {
    for path in ["", "a.md", "docs/a b.md", "é/ü.md", "a+b.md", "..", "👾.json"] {
        assert_eq!(decode_path(path), Ok(path.to_string()));
    }
}

#[test]
fn folders_above_a_path_from_nearest_to_farthest() {
    assert_eq!(folders_above("/repo/docs/a.md"), vec!["/repo/docs", "/repo", "/"]);
    assert_eq!(folders_above("/repo"), vec!["/"]);
    assert_eq!(folders_above("/"), Vec::<String>::new());
    assert_eq!(folders_above(""), Vec::<String>::new());
    assert_eq!(folders_above("a.md"), Vec::<String>::new());
    assert_eq!(folders_above("docs/deep/a.md"), vec!["docs/deep", "docs"]);
    assert_eq!(folders_above("/repo//docs/./a.md/"), vec!["/repo/docs", "/repo", "/"]);
    assert_eq!(folders_above("/repo/a/../b"), vec!["/repo/a/..", "/repo/a", "/repo", "/"]);
}

#[test]
fn folders_above_lead_where_the_standard_library_says() {
    let rooted: Vec<String> = SAMPLES.iter().map(|sample| format!("/{}", sample)).collect();
    let more = ["/repo/docs/a.md", "/a/b/c/d", "/x//y/./z", "r/s/t", "docs/a.md"];
    for path in rooted.iter().map(|path| path.as_str()).chain(more) {
        let expected: Vec<std::path::PathBuf> = Path::new(path)
            .ancestors()
            .skip(1)
            .filter(|folder| !folder.as_os_str().is_empty())
            .map(|folder| folder.components().collect())
            .collect();
        let ours: Vec<std::path::PathBuf> =
            folders_above(path).iter().map(|folder| Path::new(folder).components().collect()).collect();
        assert_eq!(ours, expected, "folders above {:?}", path);
    }
}

#[test]
fn a_path_without_whitespace_around_it_is_checked_as_it_is() {
    assert_eq!(
        check_trimmed_path("docs/new.md".to_string(), Target::NewFile),
        Ok("docs/new.md".to_string())
    );
    assert_eq!(
        check_trimmed_path(" a.md".to_string(), Target::NewFile),
        Ok(" a.md".to_string())
    );
    assert_eq!(
        check_trimmed_path(String::new(), Target::NewFolder),
        Err(DocumentError::EmptyPath { target: Target::NewFolder })
    );
    assert_eq!(
        check_trimmed_path("a/../b.md".to_string(), Target::NewFile),
        Err(DocumentError::PathTraversalAttempt)
    );
    assert_eq!(
        check_trimmed_path("a.json".to_string(), Target::NewFile),
        Err(DocumentError::UnsupportedFileType { target: Target::NewFile })
    );
    assert_eq!(check_trimmed_path("a.json".to_string(), Target::NewFolder), Ok("a.json".to_string()));
}

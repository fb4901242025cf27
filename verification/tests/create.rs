use docsync::branch_gate::BranchGate;
use docsync::create::{create_file, create_folder, CreateFileProgress, CreateFolderProgress};
use docsync::effect::{Effect, FolderFacts, PathFacts, Reply, Step};
use docsync::error::{DocumentError, GitOperation, IoOperation, Target};
use docsync::model::{
    CreateFileRequest, CreateFileResponse, CreateFolderRequest, CreateFolderResponse,
    DocumentFileType, DocumentMetadata,
};
use std::collections::{BTreeMap, BTreeSet};
use std::path::Path;

/// A disk and a repository in memory, with a record of the work that was
/// carried out on them.
#[derive(Default)]
struct World {
    dirs: BTreeSet<String>,
    files: BTreeMap<String, String>,
    links: BTreeMap<String, String>,
    branch: Option<Result<String, String>>,
    commit: Option<Result<bool, String>>,
    fail_write: Option<String>,
    fail_mkdir: Option<String>,
    log: Vec<Effect>,
}

fn parent_of(path: &str) -> Option<String> {
    Path::new(path).parent().map(|p| p.to_string_lossy().to_string())
}

impl World {
    fn with_dirs(dirs: &[&str]) -> World {
        let mut world = World::default();
        world.dirs.insert("/".to_string());
        for dir in dirs {
            world.dirs.insert(dir.to_string());
        }
        world.branch = Some(Ok("main".to_string()));
        world.commit = Some(Ok(true));
        world
    }

    fn file(mut self, path: &str, content: &str) -> World {
        self.files.insert(path.to_string(), content.to_string());
        self
    }

    fn link(mut self, path: &str, to: &str) -> World {
        self.links.insert(path.to_string(), to.to_string());
        self
    }

    fn on_branch(mut self, branch: &str) -> World {
        self.branch = Some(Ok(branch.to_string()));
        self
    }

    /// The path with `.`, `..` and links resolved, if it leads somewhere.
    fn resolve(&self, path: &str) -> Result<String, String> {
        if !path.starts_with('/') {
            return Err("No such file or directory".to_string());
        }
        let mut current = String::new();
        for part in path.split('/') {
            if part.is_empty() || part == "." {
                continue;
            }
            if part == ".." {
                match current.rfind('/') {
                    Some(at) => current.truncate(at),
                    None => {}
                }
                continue;
            }
            if !self.dirs.contains(if current.is_empty() { "/" } else { current.as_str() }) {
                return Err("Not a directory".to_string());
            }
            current = format!("{}/{}", current, part);
            if let Some(to) = self.links.get(&current) {
                current = to.clone();
            }
        }
        let found = if current.is_empty() { "/".to_string() } else { current };
        if self.dirs.contains(&found) || self.files.contains_key(&found) {
            Ok(found)
        } else {
            Err("No such file or directory".to_string())
        }
    }

    fn inspect(&self, root: &str, target: &str, above: &[String]) -> PathFacts {
        let canonical_target = self.resolve(target);
        let canonical_root = self.resolve(root);
        PathFacts {
            root_is_dir: canonical_root.as_ref().map(|r| self.dirs.contains(r)).unwrap_or(false),
            canonical_root,
            above: above
                .iter()
                .map(|folder| {
                    let canonical = self.resolve(folder);
                    FolderFacts { exists: canonical.is_ok(), canonical }
                })
                .collect(),
            target_exists: canonical_target.is_ok(),
            target_is_file: canonical_target
                .as_ref()
                .map(|t| self.files.contains_key(t))
                .unwrap_or(false),
            canonical_target,
        }
    }

    fn create_dirs(&mut self, path: &str) -> Result<(), String> {
        if let Some(reason) = &self.fail_mkdir {
            return Err(reason.clone());
        }
        let mut missing = vec![];
        let mut current = Some(path.to_string());
        while let Some(dir) = current {
            if self.resolve(&dir).is_ok() {
                break;
            }
            current = parent_of(&dir);
            missing.push(dir);
        }
        for dir in missing.into_iter().rev() {
            let above = parent_of(&dir).unwrap();
            let name = Path::new(&dir).file_name().unwrap().to_string_lossy().to_string();
            let base = self.resolve(&above)?;
            self.dirs.insert(format!("{}/{}", if base == "/" { "" } else { base.as_str() }, name));
        }
        Ok(())
    }

    fn write(&mut self, path: &str, content: &str) -> Result<(), String> {
        if let Some(reason) = &self.fail_write {
            return Err(reason.clone());
        }
        let place = match self.resolve(path) {
            Ok(found) => found,
            Err(_) => {
                let above = self.resolve(&parent_of(path).unwrap())?;
                let name = Path::new(path).file_name().unwrap().to_string_lossy().to_string();
                format!("{}/{}", if above == "/" { "" } else { above.as_str() }, name)
            }
        };
        self.files.insert(place, content.to_string());
        Ok(())
    }

    fn perform(&mut self, effect: Effect) -> Reply {
        self.log.push(effect.clone());
        match effect {
            Effect::Inspect { root, target, above } => {
                Reply::Facts(self.inspect(&root, &target, &above))
            }
            Effect::CurrentBranch { .. } => Reply::Text(self.branch.clone().unwrap()),
            Effect::Commit { .. } => Reply::Committed(self.commit.clone().unwrap()),
            Effect::CreateDirs { path } => Reply::Done(self.create_dirs(&path)),
            Effect::WriteText { path, content } => Reply::Done(self.write(&path, &content)),
            Effect::ReadText { path } => match self.resolve(&path) {
                Ok(found) => match self.files.get(&found) {
                    Some(text) => {
                        Reply::Content { text: Ok(text.clone()), size_bytes: text.len() as u64 }
                    }
                    None => Reply::Content { text: Err("Is a directory".to_string()), size_bytes: 0 },
                },
                Err(reason) => Reply::Content { text: Err(reason), size_bytes: 0 },
            },
            other => panic!("unexpected effect {:?}", other),
        }
    }

    fn names(&self) -> Vec<&'static str> {
        self.log
            .iter()
            .map(|effect| match effect {
                Effect::Inspect { .. } => "inspect",
                Effect::CurrentBranch { .. } => "branch",
                Effect::Commit { .. } => "commit",
                Effect::CreateDirs { .. } => "mkdir",
                Effect::WriteText { .. } => "write",
                Effect::ReadText { .. } => "read",
                _ => "other",
            })
            .collect()
    }

    fn changed(&self) -> bool {
        self.log.iter().any(|effect| {
            matches!(
                effect,
                Effect::Commit { .. }
                    | Effect::CreateDirs { .. }
                    | Effect::WriteText { .. }
            )
        })
    }
}

fn repos() -> Vec<String> {
    vec!["/repo".to_string(), "/second".to_string()]
}

fn new_file(world: &mut World, path: &str, content: Option<&str>) -> Result<CreateFileResponse, DocumentError> {
    new_file_in(world, repos(), path, content)
}

fn new_file_in(
    world: &mut World,
    repositories: Vec<String>,
    path: &str,
    content: Option<&str>,
) -> Result<CreateFileResponse, DocumentError> {
    let request = CreateFileRequest { path: path.to_string(), content: content.map(|c| c.to_string()) };
    let mut progress = CreateFileProgress::new(BranchGate::default(), repositories, request);
    let mut step = progress.step();
    for _ in 0..20 {
        match step {
            Step::Finish(result) => return result,
            Step::Ask(effect) => {
                let reply = world.perform(effect);
                let next = create_file(progress, reply);
                progress = next.0;
                step = next.1;
            }
        }
    }
    panic!("the creation did not end");
}

fn new_folder(world: &mut World, path: &str) -> Result<CreateFolderResponse, DocumentError> {
    let request = CreateFolderRequest { path: path.to_string() };
    let mut progress = CreateFolderProgress::new(BranchGate::default(), repos(), request);
    let mut step = progress.step();
    for _ in 0..20 {
        match step {
            Step::Finish(result) => return result,
            Step::Ask(effect) => {
                let reply = world.perform(effect);
                let next = create_folder(progress, reply);
                progress = next.0;
                step = next.1;
            }
        }
    }
    panic!("the creation did not end");
}

#[test]
fn a_file_is_created_written_and_committed() {
    let mut world = World::with_dirs(&["/repo", "/repo/docs"]);
    let out = new_file(&mut world, "docs/new.md", Some("# héllo\n"));
    assert_eq!(
        out,
        Ok(CreateFileResponse {
            success: true,
            message: "File created and committed to branch 'main'".to_string(),
            metadata: DocumentMetadata {
                name: "new.md".to_string(),
                relative_path: "docs/new.md".to_string(),
                absolute_path: "/repo/docs/new.md".to_string(),
                file_type: DocumentFileType::Markdown,
                size_bytes: 9,
            },
            branch: Some("main".to_string()),
            committed: true,
        })
    );
    assert_eq!(world.files.get("/repo/docs/new.md"), Some(&"# héllo\n".to_string()));
    assert_eq!(world.names(), vec!["inspect", "branch", "write", "commit"]);
    assert_eq!(
        world.log[3],
        Effect::Commit { repo: "/repo".to_string(), message: "docs: create docs/new.md".to_string() }
    );
    assert_eq!(
        world.log[0],
        Effect::Inspect {
            root: "/repo".to_string(),
            target: "/repo/docs/new.md".to_string(),
            above: vec!["/repo/docs".to_string(), "/repo".to_string(), "/".to_string()],
        }
    );
}

#[test]
fn a_file_without_content_is_empty() {
    let mut world = World::with_dirs(&["/repo"]);
    let out = new_file(&mut world, "  notes.markdown ", None).unwrap();
    assert_eq!(out.metadata.size_bytes, 0);
    assert_eq!(out.metadata.relative_path, "notes.markdown");
    assert_eq!(out.metadata.name, "notes.markdown");
    assert_eq!(out.metadata.absolute_path, "/repo/notes.markdown");
    assert_eq!(world.files.get("/repo/notes.markdown"), Some(&String::new()));
}

#[test]
fn creating_a_file_twice_fails_the_second_time_without_a_change() {
    let mut world = World::with_dirs(&["/repo"]);
    assert!(new_file(&mut world, "a.md", Some("one")).is_ok());
    world.log.clear();
    let again = new_file(&mut world, "a.md", Some("two"));
    assert_eq!(
        again,
        Err(DocumentError::AlreadyExists { target: Target::NewFile, path: "a.md".to_string() })
    );
    assert_eq!(again.unwrap_err().message(), "File 'a.md' already exists");
    assert_eq!(world.names(), vec!["inspect"]);
    assert!(!world.changed());
    assert_eq!(world.files.get("/repo/a.md"), Some(&"one".to_string()));
}

#[test]
fn missing_folders_above_a_file_are_created_and_checked_again() {
    let mut world = World::with_dirs(&["/repo"]);
    let out = new_file(&mut world, "seed/deep/doc.md", Some("x")).unwrap();
    assert_eq!(out.metadata.absolute_path, "/repo/seed/deep/doc.md");
    assert!(world.dirs.contains("/repo/seed"));
    assert!(world.dirs.contains("/repo/seed/deep"));
    assert_eq!(world.files.get("/repo/seed/deep/doc.md"), Some(&"x".to_string()));
    assert_eq!(world.log[2], Effect::CreateDirs { path: "/repo/seed/deep".to_string() });
    assert_eq!(world.names(), vec!["inspect", "branch", "mkdir", "inspect", "write", "commit"]);
}

#[test]
fn off_the_documents_branch_no_file_is_created() {
    let mut world = World::with_dirs(&["/repo"]).on_branch("feature");
    let out = new_file(&mut world, "seed/doc.md", Some("x"));
    assert_eq!(
        out,
        Err(DocumentError::WrongBranch { required: "main".to_string(), actual: "feature".to_string() })
    );
    assert!(out.unwrap_err().is_forbidden());
    assert!(!world.changed());
    assert!(world.files.is_empty());
    assert!(!world.dirs.contains("/repo/seed"));
    assert_eq!(world.names(), vec!["inspect", "branch"]);
}

#[test]
fn off_the_documents_branch_no_folder_is_created() {
    let mut world = World::with_dirs(&["/repo"]).on_branch("feature");
    let out = new_folder(&mut world, "seed/sub");
    assert_eq!(
        out,
        Err(DocumentError::WrongBranch { required: "main".to_string(), actual: "feature".to_string() })
    );
    assert!(!world.changed());
    assert!(!world.dirs.contains("/repo/seed"));
}

#[test]
fn a_path_that_steps_to_a_folder_above_never_reaches_the_disk() {
    for path in ["../outside.md", "docs/../../x.md", " .. ", "docs/..", "x/../y.md"] {
        let mut world = World::with_dirs(&["/repo"]);
        assert_eq!(
            new_file(&mut world, path, Some("x")),
            Err(DocumentError::PathTraversalAttempt),
            "{:?}",
            path
        );
        assert!(world.log.is_empty());
        let mut world = World::with_dirs(&["/repo"]);
        assert_eq!(new_folder(&mut world, path), Err(DocumentError::PathTraversalAttempt));
        assert!(world.log.is_empty());
    }
}

#[test]
fn a_link_out_of_the_repository_is_denied() {
    let mut world = World::with_dirs(&["/repo", "/etc"]).link("/repo/out", "/etc");
    let out = new_file(&mut world, "out/passwd.md", Some("x"));
    assert_eq!(out, Err(DocumentError::AccessDenied { target: Target::NewFile }));
    assert_eq!(out.unwrap_err().message(), "Invalid path: access denied");
    assert!(!world.changed());
    assert!(world.files.is_empty());
    let mut world = World::with_dirs(&["/repo", "/etc"]).link("/repo/out", "/etc");
    assert_eq!(
        new_folder(&mut world, "out/sub/dir"),
        Err(DocumentError::AccessDenied { target: Target::NewFolder })
    );
    assert!(!world.changed());
}

#[test]
fn an_absolute_path_outside_the_repository_is_denied() {
    let mut world = World::with_dirs(&["/repo", "/etc"]);
    assert_eq!(
        new_file(&mut world, "/etc/motd.md", Some("x")),
        Err(DocumentError::AccessDenied { target: Target::NewFile })
    );
    assert!(!world.changed());
}

#[test]
fn only_markdown_files_are_created() {
    for path in ["data.json", "notes.txt", "README", ".md", "docs/"] {
        let mut world = World::with_dirs(&["/repo", "/repo/docs"]);
        assert_eq!(
            new_file(&mut world, path, None),
            Err(DocumentError::UnsupportedFileType { target: Target::NewFile }),
            "{:?}",
            path
        );
        assert!(world.log.is_empty());
    }
}

#[test]
fn an_empty_path_is_refused() {
    let mut world = World::with_dirs(&["/repo"]);
    assert_eq!(
        new_file(&mut world, " \t", None),
        Err(DocumentError::EmptyPath { target: Target::NewFile })
    );
    assert_eq!(
        new_folder(&mut world, ""),
        Err(DocumentError::EmptyPath { target: Target::NewFolder })
    );
    assert!(world.log.is_empty());
}

#[test]
fn creation_needs_a_repository_that_is_there() {
    let mut world = World::with_dirs(&[]);
    assert_eq!(new_file_in(&mut world, vec![], "a.md", None), Err(DocumentError::NoRepository));
    assert!(world.log.is_empty());
    assert_eq!(new_file(&mut world, "a.md", None), Err(DocumentError::RepositoryMissing));
    assert_eq!(new_folder(&mut world, "seed"), Err(DocumentError::RepositoryMissing));
    assert!(!world.changed());
}

#[test]
fn only_the_primary_repository_is_created_in() {
    let mut world = World::with_dirs(&["/repo", "/second", "/second/docs"]);
    let out = new_file(&mut world, "docs/a.md", None).unwrap();
    assert_eq!(out.metadata.absolute_path, "/repo/docs/a.md");
    assert!(world.dirs.contains("/repo/docs"));
}

#[test]
fn a_commit_that_fails_does_not_fail_the_creation() {
    let mut world = World::with_dirs(&["/repo"]);
    world.commit = Some(Err("index locked".to_string()));
    let out = new_file(&mut world, "a.md", Some("x")).unwrap();
    assert!(out.success);
    assert!(!out.committed);
    assert_eq!(out.message, "File created successfully");
    assert_eq!(out.branch, Some("main".to_string()));
    assert_eq!(world.files.get("/repo/a.md"), Some(&"x".to_string()));

    let mut world = World::with_dirs(&["/repo"]);
    world.commit = Some(Ok(false));
    let out = new_file(&mut world, "b.md", Some("x")).unwrap();
    assert!(!out.committed);
    assert_eq!(out.message, "File created successfully");
}

#[test]
fn failures_of_the_disk_end_the_creation() {
    let mut world = World::with_dirs(&["/repo"]);
    world.fail_write = Some("disk full".to_string());
    let out = new_file(&mut world, "a.md", Some("x"));
    assert_eq!(
        out,
        Err(DocumentError::IoFailure {
            operation: IoOperation::CreateFile,
            detail: "disk full".to_string()
        })
    );
    assert_eq!(world.names(), vec!["inspect", "branch", "write"]);

    let mut world = World::with_dirs(&["/repo"]);
    world.fail_mkdir = Some("read-only".to_string());
    assert_eq!(
        new_file(&mut world, "seed/a.md", Some("x")),
        Err(DocumentError::IoFailure {
            operation: IoOperation::CreateParents,
            detail: "read-only".to_string()
        })
    );
    let mut world = World::with_dirs(&["/repo"]);
    world.fail_mkdir = Some("read-only".to_string());
    assert_eq!(
        new_folder(&mut world, "seed"),
        Err(DocumentError::IoFailure {
            operation: IoOperation::CreateFolder,
            detail: "read-only".to_string()
        })
    );

    let mut world = World::with_dirs(&["/repo"]);
    world.branch = Some(Err("no head".to_string()));
    assert_eq!(
        new_file(&mut world, "a.md", None),
        Err(DocumentError::GitOperationFailed {
            operation: GitOperation::CurrentBranch,
            detail: "no head".to_string()
        })
    );
    assert!(!world.changed());
}

#[test]
fn roots_and_parents_that_do_not_resolve_are_reported() {
    let facts = PathFacts {
        root_is_dir: true,
        canonical_root: Err("loop".to_string()),
        canonical_target: Err("missing".to_string()),
        above: vec![FolderFacts { exists: true, canonical: Ok("/repo".to_string()) }],
        target_exists: false,
        target_is_file: false,
    };
    let request = CreateFileRequest { path: "a.md".to_string(), content: None };
    let progress = CreateFileProgress::new(BranchGate::default(), repos(), request);
    let (_, step) = create_file(progress, Reply::Facts(facts));
    assert_eq!(
        step,
        Step::Finish(Err(DocumentError::IoFailure {
            operation: IoOperation::ResolveRepository,
            detail: "loop".to_string()
        }))
    );
    let facts = PathFacts {
        root_is_dir: true,
        canonical_root: Ok("/repo".to_string()),
        canonical_target: Err("missing".to_string()),
        above: vec![FolderFacts { exists: true, canonical: Err("denied".to_string()) }],
        target_exists: false,
        target_is_file: false,
    };
    let request = CreateFolderRequest { path: "seed".to_string() };
    let progress = CreateFolderProgress::new(BranchGate::default(), repos(), request);
    let (_, step) = create_folder(progress, Reply::Facts(facts));
    assert_eq!(
        step,
        Step::Finish(Err(DocumentError::IoFailure {
            operation: IoOperation::ResolveParent,
            detail: "denied".to_string()
        }))
    );
}

#[test]
fn a_folder_is_created_with_the_folders_above_it() {
    let mut world = World::with_dirs(&["/repo"]);
    let out = new_folder(&mut world, "seed/sub");
    assert_eq!(
        out,
        Ok(CreateFolderResponse {
            success: true,
            message: "Folder created successfully".to_string(),
            path: "seed/sub".to_string(),
        })
    );
    assert!(world.dirs.contains("/repo/seed"));
    assert!(world.dirs.contains("/repo/seed/sub"));
    assert_eq!(world.names(), vec!["inspect", "branch", "mkdir", "inspect", "commit"]);
    assert_eq!(
        world.log[2],
        Effect::CreateDirs { path: "/repo/seed/sub".to_string() }
    );
    let facts = world.inspect("/repo", "/repo/seed/sub", &[]);
    assert_eq!(facts.canonical_target, Ok("/repo/seed/sub".to_string()));
    assert!(docsync::path_guard::check_created(&facts));
}

#[test]
fn a_folder_that_exists_is_not_created_again() {
    let mut world = World::with_dirs(&["/repo", "/repo/seed"]);
    let out = new_folder(&mut world, "seed");
    assert_eq!(
        out,
        Err(DocumentError::AlreadyExists { target: Target::NewFolder, path: "seed".to_string() })
    );
    assert_eq!(out.unwrap_err().message(), "Folder 'seed' already exists");
    assert!(!world.changed());
}

#[test]
fn a_folder_that_landed_outside_is_denied() {
    let request = CreateFolderRequest { path: "seed".to_string() };
    let mut progress = CreateFolderProgress::new(BranchGate::default(), repos(), request);
    let before = PathFacts {
        root_is_dir: true,
        canonical_root: Ok("/repo".to_string()),
        canonical_target: Err("missing".to_string()),
        above: vec![FolderFacts { exists: true, canonical: Ok("/repo".to_string()) }],
        target_exists: false,
        target_is_file: false,
    };
    let after = PathFacts {
        root_is_dir: true,
        canonical_root: Ok("/repo".to_string()),
        canonical_target: Ok("/elsewhere/seed".to_string()),
        above: vec![FolderFacts { exists: true, canonical: Ok("/elsewhere".to_string()) }],
        target_exists: true,
        target_is_file: false,
    };
    let replies = vec![
        Reply::Facts(before),
        Reply::Text(Ok("main".to_string())),
        Reply::Done(Ok(())),
        Reply::Facts(after),
    ];
    let mut step = progress.step();
    for reply in replies {
        assert!(matches!(step, Step::Ask(_)));
        let next = create_folder(progress, reply);
        progress = next.0;
        step = next.1;
    }
    assert_eq!(step, Step::Finish(Err(DocumentError::AccessDenied { target: Target::NewFolder })));
}

#[test]
fn a_reply_of_another_kind_does_not_move_a_creation() {
    let request = CreateFileRequest { path: "a.md".to_string(), content: None };
    let progress = CreateFileProgress::new(BranchGate::default(), repos(), request);
    let first = progress.step();
    let (progress, step) = create_file(progress, Reply::Text(Ok("main".to_string())));
    assert_eq!(step, first);
    assert_eq!(progress.branch, None);
    assert_eq!(progress.facts, None);
}

#[test]
fn where_no_folder_above_exists_nothing_is_created() {
    let facts = PathFacts {
        root_is_dir: true,
        canonical_root: Ok("/repo".to_string()),
        canonical_target: Err("missing".to_string()),
        above: vec![
            FolderFacts { exists: false, canonical: Err("missing".to_string()) },
            FolderFacts { exists: false, canonical: Ok("/repo".to_string()) },
        ],
        target_exists: false,
        target_is_file: false,
    };
    let request = CreateFileRequest { path: "seed/a.md".to_string(), content: None };
    let progress = CreateFileProgress::new(BranchGate::default(), repos(), request);
    let (_, step) = create_file(progress, Reply::Facts(facts));
    assert_eq!(step, Step::Finish(Err(DocumentError::AccessDenied { target: Target::NewFile })));
}

#[test]
fn the_nearest_folder_that_exists_decides() {
    let inside = || FolderFacts { exists: true, canonical: Ok("/repo/seed".to_string()) };
    let outside = || FolderFacts { exists: true, canonical: Ok("/elsewhere".to_string()) };
    let missing = || FolderFacts { exists: false, canonical: Err("missing".to_string()) };
    let facts = |above: Vec<FolderFacts>| PathFacts {
        root_is_dir: true,
        canonical_root: Ok("/repo".to_string()),
        canonical_target: Err("missing".to_string()),
        above,
        target_exists: false,
        target_is_file: false,
    };
    let check = |above: Vec<FolderFacts>| {
        docsync::path_guard::check_creation(&facts(above), Target::NewFolder, "seed/sub/x")
    };
    assert_eq!(check(vec![missing(), inside(), outside()]), Ok(()));
    assert_eq!(
        check(vec![missing(), outside(), inside()]),
        Err(DocumentError::AccessDenied { target: Target::NewFolder })
    );
    assert_eq!(check(vec![inside()]), Ok(()));
    assert_eq!(check(vec![]), Err(DocumentError::AccessDenied { target: Target::NewFolder }));
    assert_eq!(docsync::path_guard::nearest_folder(&vec![missing(), missing(), inside()]), Some(2));
    assert_eq!(docsync::path_guard::nearest_folder(&vec![missing()]), None);
    assert!(docsync::path_guard::has_parent(&facts(vec![inside(), missing()])));
    assert!(!docsync::path_guard::has_parent(&facts(vec![missing(), inside()])));
    assert!(!docsync::path_guard::has_parent(&facts(vec![])));
}

#[test]
fn a_target_with_no_folder_above_it_is_denied_without_the_disk() {
    let mut world = World::with_dirs(&["/repo"]);
    let out = new_file_in(&mut world, vec!["".to_string()], "a.md", None);
    assert_eq!(out, Err(DocumentError::AccessDenied { target: Target::NewFile }));
    assert!(world.log.is_empty());
}

#[test]
fn two_dots_inside_a_name_are_no_traversal() {
    let mut world = World::with_dirs(&["/repo"]);
    let out = new_file(&mut world, "a..b.md", Some("x")).unwrap();
    assert_eq!(out.metadata.absolute_path, "/repo/a..b.md");
    assert_eq!(world.files.get("/repo/a..b.md"), Some(&"x".to_string()));
    assert!(new_folder(&mut world, "notes..old").is_ok());
    assert!(world.dirs.contains("/repo/notes..old"));
}

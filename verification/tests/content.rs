use docsync::branch_gate::BranchGate;
use docsync::content::{
    get_document_content, locate_document, update_document_content, Location, ReadProgress,
    UpdateProgress,
};
use docsync::effect::{Effect, FolderFacts, PathFacts, Reply, Step};
use docsync::error::{DocumentError, GitOperation, IoOperation, Target};
use docsync::model::{
    DocumentContent, DocumentFileType, DocumentMetadata, UpdateDocumentRequest,
    UpdateDocumentResponse,
};
use std::collections::{BTreeMap, BTreeSet};
use std::path::Path;

/// A disk and a repository in memory, with a record of the work that was
/// carried out on them.
#[derive(Default)]
struct World {
    dirs: BTreeSet<String>,
    files: BTreeMap<String, String>,
    links: BTreeMap<String, String>,
    branch: Option<Result<String, String>>,
    commit: Option<Result<bool, String>>,
    fail_write: Option<String>,
    fail_mkdir: Option<String>,
    log: Vec<Effect>,
}

fn parent_of(path: &str) -> Option<String> {
    Path::new(path).parent().map(|p| p.to_string_lossy().to_string())
}

impl World {
    fn with_dirs(dirs: &[&str]) -> World {
        let mut world = World::default();
        world.dirs.insert("/".to_string());
        for dir in dirs {
            world.dirs.insert(dir.to_string());
        }
        world.branch = Some(Ok("main".to_string()));
        world.commit = Some(Ok(true));
        world
    }

    fn file(mut self, path: &str, content: &str) -> World {
        self.files.insert(path.to_string(), content.to_string());
        self
    }

    fn link(mut self, path: &str, to: &str) -> World {
        self.links.insert(path.to_string(), to.to_string());
        self
    }

    fn on_branch(mut self, branch: &str) -> World {
        self.branch = Some(Ok(branch.to_string()));
        self
    }

    /// The path with `.`, `..` and links resolved, if it leads somewhere.
    fn resolve(&self, path: &str) -> Result<String, String> {
        if !path.starts_with('/') {
            return Err("No such file or directory".to_string());
        }
        let mut current = String::new();
        for part in path.split('/') {
            if part.is_empty() || part == "." {
                continue;
            }
            if part == ".." {
                match current.rfind('/') {
                    Some(at) => current.truncate(at),
                    None => {}
                }
                continue;
            }
            if !self.dirs.contains(if current.is_empty() { "/" } else { current.as_str() }) {
                return Err("Not a directory".to_string());
            }
            current = format!("{}/{}", current, part);
            if let Some(to) = self.links.get(&current) {
                current = to.clone();
            }
        }
        let found = if current.is_empty() { "/".to_string() } else { current };
        if self.dirs.contains(&found) || self.files.contains_key(&found) {
            Ok(found)
        } else {
            Err("No such file or directory".to_string())
        }
    }

    fn inspect(&self, root: &str, target: &str, above: &[String]) -> PathFacts {
        let canonical_target = self.resolve(target);
        let canonical_root = self.resolve(root);
        PathFacts {
            root_is_dir: canonical_root.as_ref().map(|r| self.dirs.contains(r)).unwrap_or(false),
            canonical_root,
            above: above
                .iter()
                .map(|folder| {
                    let canonical = self.resolve(folder);
                    FolderFacts { exists: canonical.is_ok(), canonical }
                })
                .collect(),
            target_exists: canonical_target.is_ok(),
            target_is_file: canonical_target
                .as_ref()
                .map(|t| self.files.contains_key(t))
                .unwrap_or(false),
            canonical_target,
        }
    }

    fn create_dirs(&mut self, path: &str) -> Result<(), String> {
        if let Some(reason) = &self.fail_mkdir {
            return Err(reason.clone());
        }
        let mut missing = vec![];
        let mut current = Some(path.to_string());
        while let Some(dir) = current {
            if self.resolve(&dir).is_ok() {
                break;
            }
            current = parent_of(&dir);
            missing.push(dir);
        }
        for dir in missing.into_iter().rev() {
            let above = parent_of(&dir).unwrap();
            let name = Path::new(&dir).file_name().unwrap().to_string_lossy().to_string();
            let base = self.resolve(&above)?;
            self.dirs.insert(format!("{}/{}", if base == "/" { "" } else { base.as_str() }, name));
        }
        Ok(())
    }

    fn write(&mut self, path: &str, content: &str) -> Result<(), String> {
        if let Some(reason) = &self.fail_write {
            return Err(reason.clone());
        }
        let place = match self.resolve(path) {
            Ok(found) => found,
            Err(_) => {
                let above = self.resolve(&parent_of(path).unwrap())?;
                let name = Path::new(path).file_name().unwrap().to_string_lossy().to_string();
                format!("{}/{}", if above == "/" { "" } else { above.as_str() }, name)
            }
        };
        self.files.insert(place, content.to_string());
        Ok(())
    }

    fn perform(&mut self, effect: Effect) -> Reply {
        self.log.push(effect.clone());
        match effect {
            Effect::Inspect { root, target, above } => {
                Reply::Facts(self.inspect(&root, &target, &above))
            }
            Effect::CurrentBranch { .. } => Reply::Text(self.branch.clone().unwrap()),
            Effect::Commit { .. } => Reply::Committed(self.commit.clone().unwrap()),
            Effect::CreateDirs { path } => Reply::Done(self.create_dirs(&path)),
            Effect::WriteText { path, content } => Reply::Done(self.write(&path, &content)),
            Effect::ReadText { path } => match self.resolve(&path) {
                Ok(found) => match self.files.get(&found) {
                    Some(text) => {
                        Reply::Content { text: Ok(text.clone()), size_bytes: text.len() as u64 }
                    }
                    None => Reply::Content { text: Err("Is a directory".to_string()), size_bytes: 0 },
                },
                Err(reason) => Reply::Content { text: Err(reason), size_bytes: 0 },
            },
            other => panic!("unexpected effect {:?}", other),
        }
    }

    fn names(&self) -> Vec<&'static str> {
        self.log
            .iter()
            .map(|effect| match effect {
                Effect::Inspect { .. } => "inspect",
                Effect::CurrentBranch { .. } => "branch",
                Effect::Commit { .. } => "commit",
                Effect::CreateDirs { .. } => "mkdir",
                Effect::WriteText { .. } => "write",
                Effect::ReadText { .. } => "read",
                _ => "other",
            })
            .collect()
    }

    fn changed(&self) -> bool {
        self.log.iter().any(|effect| {
            matches!(
                effect,
                Effect::Commit { .. }
                    | Effect::CreateDirs { .. }
                    | Effect::WriteText { .. }
            )
        })
    }
}

fn repos() -> Vec<String> {
    vec!["/one".to_string(), "/two".to_string(), "/three".to_string()]
}

fn library() -> World {
    World::with_dirs(&["/one", "/one/docs", "/two", "/two/docs", "/three", "/secret"])
        .file("/one/docs/a.md", "first a")
        .file("/two/docs/a.md", "second a")
        .file("/two/docs/b.json", "{\"b\": 1}")
        .file("/three/c.markdown", "# c")
        .file("/three/notes.txt", "plain")
        .file("/secret/key.md", "hidden")
}

fn read(world: &mut World, path: &str) -> Result<DocumentContent, DocumentError> {
    let mut progress = ReadProgress::new(repos(), path.to_string());
    let mut step = progress.step();
    for _ in 0..20 {
        match step {
            Step::Finish(result) => return result,
            Step::Ask(effect) => {
                let reply = world.perform(effect);
                let next = get_document_content(progress, reply);
                progress = next.0;
                step = next.1;
            }
        }
    }
    panic!("the reading did not end");
}

fn update(world: &mut World, path: &str, content: &str) -> Result<UpdateDocumentResponse, DocumentError> {
    let request = UpdateDocumentRequest { content: content.to_string() };
    let mut progress =
        UpdateProgress::new(BranchGate::default(), repos(), path.to_string(), request);
    let mut step = progress.step();
    for _ in 0..20 {
        match step {
            Step::Finish(result) => return result,
            Step::Ask(effect) => {
                let reply = world.perform(effect);
                let next = update_document_content(progress, reply);
                progress = next.0;
                step = next.1;
            }
        }
    }
    panic!("the update did not end");
}

#[test]
fn the_first_repository_that_holds_the_document_wins() {
    let mut world = library();
    assert_eq!(
        read(&mut world, "docs/a.md"),
        Ok(DocumentContent {
            metadata: DocumentMetadata {
                name: "a.md".to_string(),
                relative_path: "docs/a.md".to_string(),
                absolute_path: "/one/docs/a.md".to_string(),
                file_type: DocumentFileType::Markdown,
                size_bytes: 7,
            },
            content: "first a".to_string(),
        })
    );
    assert_eq!(world.names(), vec!["inspect", "read"]);
}

#[test]
fn later_repositories_are_asked_when_earlier_ones_lack_the_document() {
    let mut world = library();
    let out = read(&mut world, "docs/b.json").unwrap();
    assert_eq!(out.metadata.absolute_path, "/two/docs/b.json");
    assert_eq!(out.metadata.file_type, DocumentFileType::Json);
    assert_eq!(out.content, "{\"b\": 1}");
    assert_eq!(out.metadata.size_bytes, 8);
    assert_eq!(world.names(), vec!["inspect", "inspect", "read"]);
    let mut world = library();
    let out = read(&mut world, "c.markdown").unwrap();
    assert_eq!(out.metadata.absolute_path, "/three/c.markdown");
    assert_eq!(out.metadata.name, "c.markdown");
    assert_eq!(world.names(), vec!["inspect", "inspect", "inspect", "read"]);
}

#[test]
fn a_document_that_no_repository_holds_is_not_found() {
    let mut world = library();
    let out = read(&mut world, "docs/none.md");
    assert_eq!(out, Err(DocumentError::NotFound { path: "docs/none.md".to_string() }));
    assert_eq!(
        out.unwrap_err().message(),
        "Document 'docs/none.md' not found in project repositories"
    );
    assert_eq!(world.names(), vec!["inspect", "inspect", "inspect"]);
    let mut world = library();
    assert_eq!(read(&mut world, "docs"), Err(DocumentError::NotFound { path: "docs".to_string() }));
    let progress = ReadProgress::new(vec![], "a.md".to_string());
    assert_eq!(
        progress.step(),
        Step::Finish(Err(DocumentError::NotFound { path: "a.md".to_string() }))
    );
}

#[test]
fn the_path_is_decoded_once() {
    let mut world = library().file("/one/docs/my notes.md", "n").file("/one/docs/100%25.md", "p");
    let out = read(&mut world, "docs/my%20notes.md").unwrap();
    assert_eq!(out.metadata.relative_path, "docs/my notes.md");
    assert_eq!(out.metadata.name, "my notes.md");
    let out = read(&mut world, "docs%2Fa.md").unwrap();
    assert_eq!(out.metadata.absolute_path, "/one/docs/a.md");
    let out = read(&mut world, "docs/100%2525.md").unwrap();
    assert_eq!(out.metadata.relative_path, "docs/100%25.md");
    let mut world = library();
    assert_eq!(read(&mut world, "docs/%ff.md"), Err(DocumentError::InvalidEncoding));
    assert!(world.log.is_empty());
    assert_eq!(update(&mut world, "%C0%AF.md", "x"), Err(DocumentError::InvalidEncoding));
    assert!(world.log.is_empty());
}

#[test]
fn a_path_that_climbs_out_of_a_repository_is_denied_at_once() {
    for path in ["../secret/key.md", "docs/../../secret/key.md", "%2e%2e/secret/key.md"] {
        let mut world = library();
        let out = read(&mut world, path);
        assert_eq!(out, Err(DocumentError::AccessDenied { target: Target::Document }), "{:?}", path);
        assert!(world.log.is_empty());
        let mut world = library();
        assert_eq!(
            update(&mut world, path, "stolen"),
            Err(DocumentError::AccessDenied { target: Target::Document })
        );
        assert!(world.log.is_empty());
        assert_eq!(world.files.get("/secret/key.md"), Some(&"hidden".to_string()));
    }
}

#[test]
fn a_path_that_climbs_out_and_leads_to_nothing_is_denied_too() {
    for path in ["../x.md", "../nowhere/at/all.md", "docs/../../x.md", "%2E%2E/x.md", ".."] {
        let mut world = library();
        let out = read(&mut world, path);
        assert_eq!(out, Err(DocumentError::AccessDenied { target: Target::Document }), "{:?}", path);
        assert!(world.log.is_empty());
        let mut world = library();
        assert_eq!(
            update(&mut world, path, "x"),
            Err(DocumentError::AccessDenied { target: Target::Document })
        );
        assert!(world.log.is_empty());
    }
    let progress = ReadProgress::new(vec![], "../x.md".to_string());
    assert_eq!(
        progress.step(),
        Step::Finish(Err(DocumentError::AccessDenied { target: Target::Document }))
    );
}

#[test]
fn a_path_from_the_root_of_the_filesystem_is_judged_by_the_disk() {
    let mut world = library();
    let out = read(&mut world, "/secret/key.md");
    assert_eq!(out, Err(DocumentError::AccessDenied { target: Target::Document }));
    assert_eq!(world.names(), vec!["inspect"]);
    let mut world = library();
    assert_eq!(
        update(&mut world, "/secret/key.md", "stolen"),
        Err(DocumentError::AccessDenied { target: Target::Document })
    );
    assert!(!world.changed());
    let mut world = library();
    assert_eq!(read(&mut world, "/one/docs/a.md").unwrap().content, "first a");
}

#[test]
fn a_link_out_of_a_repository_is_denied() {
    let mut world = library().link("/two/out", "/secret");
    let out = read(&mut world, "out/key.md");
    assert_eq!(out, Err(DocumentError::AccessDenied { target: Target::Document }));
    assert_eq!(out.unwrap_err().message(), "Invalid file path: access denied");
    assert_eq!(world.names(), vec!["inspect", "inspect"]);
    let mut world = library().link("/two/out", "/secret");
    assert_eq!(
        update(&mut world, "out/key.md", "x"),
        Err(DocumentError::AccessDenied { target: Target::Document })
    );
    assert!(!world.changed());
}

#[test]
fn a_path_that_climbs_but_stays_inside_is_read() {
    let mut world = library();
    let out = read(&mut world, "docs/../docs/a.md").unwrap();
    assert_eq!(out.content, "first a");
    assert_eq!(out.metadata.relative_path, "docs/../docs/a.md");
    assert_eq!(out.metadata.absolute_path, "/one/docs/../docs/a.md");
    assert_eq!(out.metadata.name, "a.md");
}

#[test]
fn only_documents_are_read_and_updated() {
    let mut world = library();
    let out = read(&mut world, "notes.txt");
    assert_eq!(out, Err(DocumentError::UnsupportedFileType { target: Target::Document }));
    assert_eq!(out.unwrap_err().message(), "Only markdown and JSON files are supported");
    assert_eq!(world.names(), vec!["inspect", "inspect", "inspect"]);
    let mut world = library();
    assert_eq!(
        update(&mut world, "notes.txt", "x"),
        Err(DocumentError::UnsupportedFileType { target: Target::Document })
    );
    assert!(!world.changed());
}

#[test]
fn a_file_that_cannot_be_read_is_a_failure() {
    let progress = ReadProgress::new(vec!["/one".to_string()], "docs/a.md".to_string());
    let facts = library().inspect("/one", "/one/docs/a.md", &[]);
    let (progress, step) = get_document_content(progress, Reply::Facts(facts));
    assert_eq!(step, Step::Ask(Effect::ReadText { path: "/one/docs/a.md".to_string() }));
    let (_, step) = get_document_content(
        progress,
        Reply::Content { text: Err("stream did not contain valid UTF-8".to_string()), size_bytes: 3 },
    );
    assert_eq!(
        step,
        Step::Finish(Err(DocumentError::IoFailure {
            operation: IoOperation::ReadFile,
            detail: "stream did not contain valid UTF-8".to_string()
        }))
    );
}

#[test]
fn an_update_writes_and_commits_on_the_documents_branch() {
    let mut world = library();
    let out = update(&mut world, "docs/b.json", "{}");
    assert_eq!(
        out,
        Ok(UpdateDocumentResponse {
            success: true,
            message: "Document saved and committed to branch 'main'".to_string(),
            branch: Some("main".to_string()),
            committed: true,
        })
    );
    assert_eq!(world.files.get("/two/docs/b.json"), Some(&"{}".to_string()));
    assert_eq!(world.names(), vec!["inspect", "inspect", "branch", "write", "commit"]);
    assert_eq!(world.log[2], Effect::CurrentBranch { repo: "/two".to_string() });
    assert_eq!(
        world.log[3],
        Effect::WriteText { path: "/two/docs/b.json".to_string(), content: "{}".to_string() }
    );
    assert_eq!(
        world.log[4],
        Effect::Commit { repo: "/two".to_string(), message: "docs: update docs/b.json".to_string() }
    );
}

#[test]
fn what_was_written_is_read_back() {
    let mut world = library();
    let text = "# Überschrift\n\nzwei Zeilen – und mehr\n";
    update(&mut world, "docs/a.md", text).unwrap();
    let out = read(&mut world, "docs/a.md").unwrap();
    assert_eq!(out.content, text);
    assert_eq!(out.metadata.size_bytes, text.len() as u64);
    assert_eq!(out.metadata.size_bytes, 41);
    update(&mut world, "docs/a.md", "").unwrap();
    let out = read(&mut world, "docs/a.md").unwrap();
    assert_eq!(out.content, "");
    assert_eq!(out.metadata.size_bytes, 0);
}

#[test]
fn off_the_documents_branch_nothing_is_written() {
    let mut world = library().on_branch("release");
    let out = update(&mut world, "docs/a.md", "changed");
    assert_eq!(
        out,
        Err(DocumentError::WrongBranch { required: "main".to_string(), actual: "release".to_string() })
    );
    assert_eq!(
        out.unwrap_err().message(),
        "Document editing is only allowed on the 'main' branch. Current branch: 'release'. Please switch to 'main' to edit documents."
    );
    assert!(!world.changed());
    assert_eq!(world.files.get("/one/docs/a.md"), Some(&"first a".to_string()));
    let mut world = library().on_branch("release");
    assert_eq!(read(&mut world, "docs/a.md").unwrap().content, "first a");
}

#[test]
fn a_commit_that_fails_does_not_lose_the_update() {
    let mut world = library();
    world.commit = Some(Err("index locked".to_string()));
    let out = update(&mut world, "docs/a.md", "kept").unwrap();
    assert!(out.success && !out.committed);
    assert_eq!(out.message, "Document saved successfully");
    assert_eq!(out.branch, Some("main".to_string()));
    assert_eq!(world.files.get("/one/docs/a.md"), Some(&"kept".to_string()));
    let mut world = library();
    world.commit = Some(Ok(false));
    let out = update(&mut world, "docs/a.md", "first a").unwrap();
    assert!(!out.committed);
    assert_eq!(world.names(), vec!["inspect", "branch", "write", "commit"]);
}

#[test]
fn failures_end_the_update() {
    let mut world = library();
    world.fail_write = Some("disk full".to_string());
    assert_eq!(
        update(&mut world, "docs/a.md", "x"),
        Err(DocumentError::IoFailure {
            operation: IoOperation::WriteFile,
            detail: "disk full".to_string()
        })
    );
    assert_eq!(world.names(), vec!["inspect", "branch", "write"]);
    let mut world = library();
    world.branch = Some(Err("no head".to_string()));
    assert_eq!(
        update(&mut world, "docs/a.md", "x"),
        Err(DocumentError::GitOperationFailed {
            operation: GitOperation::CurrentBranch,
            detail: "no head".to_string()
        })
    );
    assert!(!world.changed());
    let mut world = library();
    assert_eq!(
        update(&mut world, "docs/none.md", "x"),
        Err(DocumentError::NotFound { path: "docs/none.md".to_string() })
    );
    assert!(!world.changed());
}

fn facts(root: &str, target: Option<&str>, is_file: bool) -> PathFacts {
    PathFacts {
        root_is_dir: true,
        canonical_root: Ok(root.to_string()),
        canonical_target: target.map(|t| t.to_string()).ok_or("missing".to_string()),
        above: vec![],
        target_exists: target.is_some(),
        target_is_file: is_file,
    }
}

#[test]
fn the_search_stands_where_the_disk_says() {
    let absent = || facts("/r", None, false);
    let folder = || facts("/r", Some("/r/docs"), false);
    let present = || facts("/r", Some("/r/a.md"), true);
    let escaped = || facts("/r", Some("/etc/a.md"), true);
    assert_eq!(locate_document(&vec![], 0), Location::Nowhere);
    assert_eq!(locate_document(&vec![], 2), Location::Pending(0));
    assert_eq!(locate_document(&vec![absent()], 2), Location::Pending(1));
    assert_eq!(locate_document(&vec![absent(), folder()], 2), Location::Nowhere);
    assert_eq!(locate_document(&vec![present()], 2), Location::Found(0));
    assert_eq!(locate_document(&vec![absent(), present()], 3), Location::Found(1));
    assert_eq!(locate_document(&vec![escaped()], 3), Location::Denied);
    assert_eq!(locate_document(&vec![absent(), escaped(), present()], 3), Location::Denied);
    assert_eq!(locate_document(&vec![present(), escaped()], 3), Location::Found(0));
    assert_eq!(locate_document(&vec![absent(), present()], 1), Location::Nowhere);
    let unresolved_root = PathFacts { canonical_root: Err("gone".to_string()), ..present() };
    assert_eq!(locate_document(&vec![unresolved_root], 1), Location::Nowhere);
}

#[test]
fn a_reply_of_another_kind_does_not_move_a_reading() {
    let progress = ReadProgress::new(repos(), "docs/a.md".to_string());
    let first = progress.step();
    assert_eq!(
        first,
        Step::Ask(Effect::Inspect {
            root: "/one".to_string(),
            target: "/one/docs/a.md".to_string(),
            above: vec![],
        })
    );
    let (progress, step) = get_document_content(progress, Reply::Done(Ok(())));
    assert_eq!(step, first);
    assert!(progress.probes.is_empty());
    let (progress, step) = get_document_content(
        progress,
        Reply::Content { text: Ok("x".to_string()), size_bytes: 1 },
    );
    assert_eq!(step, first);
    assert_eq!(progress.content, None);
}

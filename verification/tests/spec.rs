use stager::error::ErrorKind;
use stager::error::StagingError;
use stager::harvest::Walked;
use stager::spec::SourceFileBuilder;
use stager::spec::SourceFilesBuilder;
use stager::spec::Specification;
use stager::spec::SpecificationBuilder;
use stager::spec::SymlinkBuilder;
use stager::staging::Journal;
use stager::staging::Request;
use stager::staging::Staging;

/// A stage that writes down what it is asked for and refuses from a given
/// request on.
struct Recorder {
    asked: Vec<String>,
    refuse_from: usize,
}

impl Recorder {
    fn new() -> Recorder {
        Recorder {
            asked: Vec::new(),
            refuse_from: usize::MAX,
        }
    }

    fn refusing_from(n: usize) -> Recorder {
        Recorder {
            asked: Vec::new(),
            refuse_from: n,
        }
    }

    fn record(&mut self, line: String) -> Result<(), StagingError> {
        self.asked.push(line);
        if self.asked.len() > self.refuse_from {
            Err(ErrorKind::StagingFailed
                .error()
                .set_cause(format!("request {} refused", self.asked.len())))
        } else {
            Ok(())
        }
    }
}

impl Staging for Recorder {
    fn directory(&mut self, path: &str) -> Result<(), StagingError> {
        self.record(format!("dir {}", path))
    }

    fn file_from_path(&mut self, dest: &str, src: &str) -> Result<(), StagingError> {
        self.record(format!("copy {} <- {}", dest, src))
    }

    fn symlink_dir(&mut self, path: &str, target: &str) -> Result<(), StagingError> {
        self.record(format!("dirlink {} -> {}", path, target))
    }

    fn symlink_file(&mut self, path: &str, target: &str) -> Result<(), StagingError> {
        self.record(format!("link {} -> {}", path, target))
    }
}

fn names(list: &[&str]) -> Vec<String> {
    list.iter().map(|name| name.to_string()).collect()
}

#[test]
fn source_file_resolves_next_to_its_links() {
    let spec = SourceFileBuilder::new("/src/build/app".to_string())
        .push_symlinks(names(&["app-1", "app-latest"]))
        .resolve("usr/bin")
        .unwrap();
    assert_eq!(spec.source(), "/src/build/app");
    assert_eq!(spec.dest(), "usr/bin/app");
    assert_eq!(
        spec.symlinks(),
        &names(&["usr/bin/app-1", "usr/bin/app-latest"])
    );
}

#[test]
fn source_file_rename_names_the_copy() {
    let spec = SourceFileBuilder::new("/src/build/app".to_string())
        .rename(Some("tool".to_string()))
        .push_symlinks(names(&["a"]))
        .push_symlinks(names(&["b"]))
        .resolve("")
        .unwrap();
    assert_eq!(spec.dest(), "tool");
    assert_eq!(spec.symlinks(), &names(&["a", "b"]));
    let back = SourceFileBuilder::new("/src/app".to_string())
        .rename(Some("tool".to_string()))
        .rename(None)
        .resolve("bin/")
        .unwrap();
    assert_eq!(back.dest(), "bin/app");
}

#[test]
fn source_file_rename_must_not_change_directories() {
    let errors = SourceFileBuilder::new("/src/app".to_string())
        .rename(Some("sub/evil".to_string()))
        .resolve("bin")
        .unwrap_err();
    assert_eq!(errors.len(), 1);
    assert_eq!(errors.get(0).kind(), ErrorKind::HarvestingFailed);
    assert_eq!(
        errors.get(0).context().unwrap(),
        "SourceFile rename must not change directories: \"sub/evil\""
    );
    for evil in ["..", ".", "", "/abs", "../up", "dir/"] {
        let errors = SourceFileBuilder::new("/src/app".to_string())
            .rename(Some(evil.to_string()))
            .resolve("bin")
            .unwrap_err();
        assert_eq!(errors.get(0).kind(), ErrorKind::HarvestingFailed);
    }
}

#[test]
fn source_file_symlink_must_not_change_directories() {
    let errors = SourceFileBuilder::new("/src/app".to_string())
        .push_symlinks(names(&["fine", "../evil"]))
        .resolve("bin")
        .unwrap_err();
    assert_eq!(errors.len(), 1);
    assert_eq!(errors.get(0).kind(), ErrorKind::HarvestingFailed);
    assert_eq!(
        errors.get(0).context().unwrap(),
        "SourceFile symlink must not change directories: \"bin/app\""
    );
}

#[test]
fn source_file_needs_an_absolute_path_with_a_file_name() {
    let errors = SourceFileBuilder::new("src/app".to_string())
        .resolve("bin")
        .unwrap_err();
    assert_eq!(errors.len(), 1);
    assert_eq!(errors.get(0).kind(), ErrorKind::HarvestingFailed);
    assert_eq!(
        errors.get(0).context().unwrap(),
        "SourceFile path must be absolute: \"src/app\""
    );
    let errors = SourceFileBuilder::new("/src/..".to_string())
        .rename(Some("given".to_string()))
        .resolve("bin")
        .unwrap_err();
    assert_eq!(errors.get(0).kind(), ErrorKind::HarvestingFailed);
    assert_eq!(
        errors.get(0).context().unwrap(),
        "SourceFile is missing a filename: \"/src/..\""
    );
    let errors = SourceFileBuilder::new("/".to_string())
        .resolve("bin")
        .unwrap_err();
    assert_eq!(
        errors.get(0).context().unwrap(),
        "SourceFile is missing a filename: \"/\""
    );
}

#[test]
fn source_file_stages_the_copy_and_then_its_links() {
    let spec = SourceFileBuilder::new("/src/app".to_string())
        .push_symlinks(names(&["one", "two"]))
        .resolve("bin")
        .unwrap();
    let mut journal = Journal::new(Recorder::new());
    spec.stage(&mut journal).unwrap();
    assert_eq!(
        journal.get_ref().asked,
        vec![
            "copy bin/app <- /src/app",
            "link bin/one -> bin/app",
            "link bin/two -> bin/app",
        ]
    );
}

#[test]
fn source_file_plan_is_one_copy_and_a_link_per_alias() {
    let spec = SourceFileBuilder::new("/src/app".to_string())
        .push_symlinks(names(&["one", "two"]))
        .resolve("bin")
        .unwrap();
    let plan = spec.plan();
    assert_eq!(plan.len(), 3);
    match &plan[0] {
        Request::File { dest, src } => {
            assert_eq!(dest, "bin/app");
            assert_eq!(src, "/src/app");
        }
        other => panic!("{:?}", other),
    }
    for (request, alias) in plan[1..].iter().zip(["bin/one", "bin/two"]) {
        match request {
            Request::SymlinkFile { path, target } => {
                assert_eq!(path, alias);
                assert_eq!(target, "bin/app");
            }
            other => panic!("{:?}", other),
        }
    }
}

#[test]
fn staging_gives_up_at_the_first_refusal() {
    let spec = SourceFileBuilder::new("/src/app".to_string())
        .push_symlinks(names(&["one", "two"]))
        .resolve("bin")
        .unwrap();
    let mut journal = Journal::new(Recorder::refusing_from(1));
    let errors = spec.stage(&mut journal).unwrap_err();
    assert_eq!(errors.len(), 1);
    assert_eq!(errors.get(0).kind(), ErrorKind::StagingFailed);
    assert_eq!(errors.get(0).cause().unwrap(), "request 2 refused");
    assert_eq!(
        journal.into_inner().asked,
        vec!["copy bin/app <- /src/app", "link bin/one -> bin/app"]
    );

    let mut journal = Journal::new(Recorder::refusing_from(0));
    let errors = spec.stage(&mut journal).unwrap_err();
    assert_eq!(errors.get(0).cause().unwrap(), "request 1 refused");
    assert_eq!(journal.into_inner().asked, vec!["copy bin/app <- /src/app"]);
}

#[test]
fn symlink_is_named_as_its_target() {
    let spec = SymlinkBuilder::new("/opt/app".to_string())
        .resolve("usr/bin")
        .unwrap();
    assert_eq!(spec.path(), "usr/bin/app");
    assert_eq!(stager::path::file_name(spec.path()), Some("app".to_string()));
    assert_eq!(spec.target(), "/opt/app");
    let mut journal = Journal::new(Recorder::new());
    spec.stage(&mut journal).unwrap();
    assert_eq!(
        journal.into_inner().asked,
        vec!["link usr/bin/app -> /opt/app"]
    );
}

#[test]
fn symlink_target_is_kept_as_written() {
    let spec = SymlinkBuilder::new("../lib//app/./bin".to_string())
        .rename(Some("tool".to_string()))
        .resolve("usr/bin")
        .unwrap();
    assert_eq!(spec.path(), "usr/bin/tool");
    assert_eq!(spec.target(), "../lib//app/./bin");
}

#[test]
fn symlink_needs_a_name() {
    let errors = SymlinkBuilder::new("/opt/..".to_string())
        .resolve("bin")
        .unwrap_err();
    assert_eq!(errors.len(), 1);
    assert_eq!(errors.get(0).kind(), ErrorKind::HarvestingFailed);
    assert_eq!(
        errors.get(0).context().unwrap(),
        "Symlink target has no file name: /opt/.."
    );
    let errors = SymlinkBuilder::new("/opt/app".to_string())
        .rename(Some("sub/evil".to_string()))
        .resolve("bin")
        .unwrap_err();
    assert_eq!(errors.get(0).kind(), ErrorKind::HarvestingFailed);
    assert_eq!(
        errors.get(0).context().unwrap(),
        "Symlink rename must not change directories: \"sub/evil\""
    );
}

#[test]
fn source_files_resolve_without_looking_at_the_disk() {
    let spec = SourceFilesBuilder::new("/no/such/directory".to_string())
        .push_patterns(names(&["*.rs"]))
        .push_patterns(names(&["!test_*"]))
        .follow_links(true)
        .allow_empty(true)
        .resolve("src")
        .unwrap();
    assert_eq!(spec.path(), "/no/such/directory");
    assert_eq!(spec.target_dir(), "src");
    assert_eq!(spec.pattern(), &names(&["*.rs", "!test_*"]));
    assert!(spec.follows_links());
    assert!(spec.allows_empty());
    let plain = SourceFilesBuilder::new("/src".to_string())
        .resolve("src")
        .unwrap();
    assert!(!plain.follows_links());
    assert!(!plain.allows_empty());
    assert!(plain.pattern().is_empty());
}

#[test]
fn source_files_need_an_absolute_root() {
    let errors = SourceFilesBuilder::new("src".to_string())
        .resolve("bin")
        .unwrap_err();
    assert_eq!(errors.len(), 1);
    assert_eq!(errors.get(0).kind(), ErrorKind::HarvestingFailed);
    assert_eq!(
        errors.get(0).context().unwrap(),
        "SourceFiles path must be absolute: \"src\""
    );
}

fn entry(path: &str) -> Walked {
    Walked::Entry {
        path: path.to_string(),
        is_dir: false,
    }
}

fn dir(path: &str) -> Walked {
    Walked::Entry {
        path: path.to_string(),
        is_dir: true,
    }
}

fn broken(cause: &str) -> Walked {
    Walked::Failed {
        error: ErrorKind::HarvestingFailed
            .error()
            .set_cause(cause.to_string()),
    }
}

#[test]
fn found_files_are_copied_below_the_target() {
    let spec = SourceFilesBuilder::new("/src/".to_string())
        .resolve("share")
        .unwrap();
    let found = vec![
        dir("/src/doc"),
        entry("/src/doc/a.md"),
        entry("/src/b.md"),
        dir("/src/empty"),
    ];
    let mut journal = Journal::new(Recorder::new());
    spec.stage_found(&found, &mut journal).unwrap();
    assert_eq!(
        journal.into_inner().asked,
        vec![
            "copy share/doc/a.md <- /src/doc/a.md",
            "copy share/b.md <- /src/b.md",
        ]
    );
}

#[test]
fn found_nothing_fails_unless_allowed() {
    let strict = SourceFilesBuilder::new("/src".to_string())
        .push_patterns(names(&["*.md", "*.txt"]))
        .resolve("share")
        .unwrap();
    for found in [vec![], vec![dir("/src/doc"), dir("/src/doc/more")]] {
        let mut journal = Journal::new(Recorder::new());
        let errors = strict.stage_found(&found, &mut journal).unwrap_err();
        assert_eq!(errors.len(), 1);
        assert_eq!(errors.get(0).kind(), ErrorKind::HarvestingFailed);
        assert_eq!(
            errors.get(0).context().unwrap(),
            "SourceFiles found no files under \"/src\" with patterns [\"*.md\", \"*.txt\"]"
        );
        assert!(journal.into_inner().asked.is_empty());
    }
    let lenient = SourceFilesBuilder::new("/src".to_string())
        .allow_empty(true)
        .resolve("share")
        .unwrap();
    let mut journal = Journal::new(Recorder::new());
    lenient
        .stage_found(&vec![dir("/src/doc")], &mut journal)
        .unwrap();
    assert!(journal.into_inner().asked.is_empty());
}

#[test]
fn a_failed_step_ends_staging_after_the_copies_before_it() {
    let spec = SourceFilesBuilder::new("/src".to_string())
        .allow_empty(true)
        .resolve("share")
        .unwrap();
    let found = vec![
        entry("/src/a"),
        broken("unreadable"),
        entry("/src/never"),
    ];
    let (copies, failure) = spec.gather(&found);
    assert_eq!(copies.len(), 1);
    assert_eq!(failure.unwrap().cause().unwrap(), "unreadable");
    let mut journal = Journal::new(Recorder::new());
    let errors = spec.stage_found(&found, &mut journal).unwrap_err();
    assert_eq!(errors.len(), 1);
    assert_eq!(errors.get(0).cause().unwrap(), "unreadable");
    assert_eq!(journal.into_inner().asked, vec!["copy share/a <- /src/a"]);

    let mut journal = Journal::new(Recorder::refusing_from(0));
    let errors = spec.stage_found(&found, &mut journal).unwrap_err();
    assert_eq!(errors.get(0).kind(), ErrorKind::StagingFailed);
    assert_eq!(errors.get(0).cause().unwrap(), "request 1 refused");
}

#[test]
fn a_file_outside_the_root_ends_staging() {
    let spec = SourceFilesBuilder::new("/src".to_string())
        .resolve("share")
        .unwrap();
    let found = vec![entry("/src/a"), entry("/elsewhere/b"), entry("/src/c")];
    let mut journal = Journal::new(Recorder::new());
    let errors = spec.stage_found(&found, &mut journal).unwrap_err();
    assert_eq!(errors.len(), 1);
    assert_eq!(errors.get(0).kind(), ErrorKind::HarvestingFailed);
    assert_eq!(errors.get(0).cause().unwrap(), "prefix not found");
    assert_eq!(journal.into_inner().asked, vec!["copy share/a <- /src/a"]);
}

#[test]
fn builders_resolve_through_the_trait_as_well() {
    fn resolve_with<B: SpecificationBuilder>(builder: &B, dir: &str) -> bool {
        builder.resolve(dir).is_ok()
    }
    assert!(resolve_with(&SourceFileBuilder::new("/src/app".to_string()), "bin"));
    assert!(!resolve_with(&SourceFileBuilder::new("app".to_string()), "bin"));
    assert!(resolve_with(&SourceFilesBuilder::new("/src".to_string()), "bin"));
    assert!(!resolve_with(&SourceFilesBuilder::new("src".to_string()), "bin"));
    assert!(resolve_with(&SymlinkBuilder::new("app".to_string()), "bin"));
    assert!(!resolve_with(&SymlinkBuilder::new("/".to_string()), "bin"));
}

#[test]
fn journal_carries_a_plan_out_in_order() {
    let plan = vec![
        Request::Directory {
            path: "bin".to_string(),
        },
        Request::File {
            dest: "bin/app".to_string(),
            src: "/src/app".to_string(),
        },
        Request::SymlinkDir {
            path: "sbin".to_string(),
            target: "bin".to_string(),
        },
        Request::SymlinkFile {
            path: "bin/tool".to_string(),
            target: "bin/app".to_string(),
        },
    ];
    let mut journal = Journal::new(Recorder::new());
    journal.carry_out(&plan).unwrap();
    assert_eq!(
        journal.get_ref().asked,
        vec![
            "dir bin",
            "copy bin/app <- /src/app",
            "dirlink sbin -> bin",
            "link bin/tool -> bin/app",
        ]
    );
    let mut journal = Journal::new(Recorder::refusing_from(2));
    let error = journal.carry_out(&plan).unwrap_err();
    assert_eq!(error.kind(), ErrorKind::StagingFailed);
    assert_eq!(journal.into_inner().asked.len(), 3);
}

#[test]
fn journal_hands_single_requests_on() {
    let mut journal = Journal::new(Recorder::refusing_from(3));
    journal.directory("a").unwrap();
    journal.file_from_path("a/b", "/src/b").unwrap();
    journal.symlink_dir("c", "a").unwrap();
    assert!(journal.symlink_file("d", "a/b").is_err());
    assert!(journal
        .ask(&Request::Directory {
            path: "e".to_string()
        })
        .is_err());
    assert_eq!(
        journal.into_inner().asked,
        vec![
            "dir a",
            "copy a/b <- /src/b",
            "dirlink c -> a",
            "link d -> a/b",
            "dir e",
        ]
    );
}

#[test]
fn resolved_paths_stay_within_the_target() {
    for dir in ["", "bin", "usr/local/bin", "usr//bin/"] {
        let spec = SourceFileBuilder::new("/src/../elsewhere/app".to_string())
            .rename(Some("tool".to_string()))
            .push_symlinks(names(&["a", "b"]))
            .resolve(dir)
            .unwrap();
        let mut paths = vec![spec.dest().clone()];
        paths.extend(spec.symlinks().iter().cloned());
        let link = SymlinkBuilder::new("../../outside".to_string())
            .resolve(dir)
            .unwrap();
        paths.push(link.path().clone());
        for path in paths {
            assert!(!path.starts_with('/'), "{:?}", path);
            let parts = stager::path::components(&path);
            assert!(parts.iter().all(|part| stager::path::is_file_name(part)));
            assert_eq!(
                parts[..parts.len() - 1].to_vec(),
                stager::path::components(dir)
            );
        }
    }
}

#[test]
fn equal_builders_resolve_to_equal_specifications() {
    let build = || {
        SourceFileBuilder::new("/src/app".to_string())
            .rename(Some("tool".to_string()))
            .push_symlinks(names(&["a"]))
    };
    assert_eq!(build(), build());
    assert_eq!(
        build().resolve("bin").unwrap(),
        build().resolve("bin").unwrap()
    );
    assert_ne!(
        build().resolve("bin").unwrap(),
        build().resolve("sbin").unwrap()
    );
    assert_eq!(
        SymlinkBuilder::new("/opt/app".to_string()).resolve("bin").unwrap(),
        SymlinkBuilder::new("/opt/app".to_string())
            .rename(Some("app".to_string()))
            .resolve("bin")
            .unwrap()
    );
}

use stager::de::abs_to_rel;
use stager::de::MapStage;
use stager::de::RenderSpecification;
use stager::de::Source;
use stager::de::SourceFile;
use stager::de::SourceFiles;
use stager::de::Symlink;
use stager::error::ErrorKind;
use stager::error::StagingError;
use stager::spec::SpecificationBuilder;

fn verbatim(template: &String) -> Result<String, StagingError> {
    Ok(template.clone())
}

fn named(template: &String) -> Result<String, StagingError> {
    if template.contains("{{") && !template.contains("{{ name }}") {
        Err(ErrorKind::InvalidConfiguration
            .error()
            .set_context(format!("unknown variable in {}", template)))
    } else {
        Ok(template.replace("{{ name }}", "app"))
    }
}

#[test]
fn abs_to_rel_errors_on_rel() {
    assert!(abs_to_rel("./hello/world").is_err());
    assert!(abs_to_rel("hello/world").is_err());
}

#[test]
fn abs_to_rel_reformats() {
    assert_eq!(abs_to_rel("/hello/world").unwrap(), "hello/world");
}

#[test]
fn abs_to_rel_cleans_nop() {
    assert_eq!(abs_to_rel("/hello//world").unwrap(), "hello/world");
    assert_eq!(abs_to_rel("/hello/./world").unwrap(), "hello/world");
}

#[test]
fn abs_to_rel_cleans_up_root() {
    assert_eq!(abs_to_rel("/hello/../goodbye/world").unwrap(), "goodbye/world");
}

#[test]
fn abs_to_rel_cleans_repeated_ups() {
    assert_eq!(abs_to_rel("/hello/world/../../foo/bar").unwrap(), "foo/bar");
}

#[test]
fn abs_to_rel_cleans_up_leaf() {
    assert_eq!(abs_to_rel("/hello/world/foo/bar/../..").unwrap(), "hello/world");
}

#[test]
fn abs_to_rel_agrees_with_std_paths() {
    assert_eq!(
        std::path::PathBuf::from(abs_to_rel("/hello/world").unwrap()),
        std::path::PathBuf::from("hello/world")
    );
    assert_eq!(
        std::path::PathBuf::from(abs_to_rel("/hello/world/../../foo/bar").unwrap()),
        std::path::PathBuf::from("foo/bar")
    );
}

#[test]
fn abs_to_rel_of_the_root_is_empty() {
    assert_eq!(abs_to_rel("/").unwrap(), "");
    assert_eq!(abs_to_rel("///").unwrap(), "");
    assert_eq!(abs_to_rel("/a/..").unwrap(), "");
    assert_eq!(abs_to_rel("/./.").unwrap(), "");
}

#[test]
fn abs_to_rel_refuses_to_leave_the_root() {
    for escaping in ["/..", "/../a", "/a/../..", "/a/b/../../../c", "/./../x"] {
        let error = abs_to_rel(escaping).unwrap_err();
        assert_eq!(error.kind(), ErrorKind::InvalidConfiguration);
        assert_eq!(
            error.context().unwrap(),
            &format!("Path is outside of staging root: {:?}", escaping)
        );
    }
}

#[test]
fn abs_to_rel_never_keeps_a_step_up() {
    for inside in ["/a/../b", "/a/b/../c/./d//e", "/x/y/z/../../..", "/...", "/a/.../b"] {
        let rel = abs_to_rel(inside).unwrap();
        assert!(!rel.starts_with('/'));
        assert!(rel.split('/').all(|part| part != ".." && part != "."));
    }
    assert_eq!(abs_to_rel("/a/.../b").unwrap(), "a/.../b");
}

#[test]
fn abs_to_rel_names_the_path_that_is_not_absolute() {
    let error = abs_to_rel("hello/world").unwrap_err();
    assert_eq!(error.kind(), ErrorKind::InvalidConfiguration);
    assert_eq!(
        error.context().unwrap(),
        "Path is not absolute (within the stage): hello/world"
    );
    assert!(error.cause().is_none());
    assert_eq!(abs_to_rel("").unwrap_err().kind(), ErrorKind::InvalidConfiguration);
}

#[test]
fn source_file_formats_every_template() {
    let node = SourceFile {
        path: "/src/{{ name }}".to_string(),
        rename: Some("{{ name }}.bin".to_string()),
        symlink: vec!["{{ name }}-latest".to_string(), "plain".to_string()],
    };
    let spec = node.format(&named).unwrap().resolve("bin").unwrap();
    assert_eq!(spec.source(), "/src/app");
    assert_eq!(spec.dest(), "bin/app.bin");
    assert_eq!(
        spec.symlinks(),
        &vec!["bin/app-latest".to_string(), "bin/plain".to_string()]
    );
}

#[test]
fn source_file_format_fails_with_the_engine() {
    let node = SourceFile {
        path: "/src/app".to_string(),
        rename: None,
        symlink: vec!["ok".to_string(), "{{ other }}".to_string()],
    };
    let errors = node.format(&named).unwrap_err();
    assert_eq!(errors.len(), 1);
    assert_eq!(errors.get(0).kind(), ErrorKind::InvalidConfiguration);
    assert_eq!(
        errors.get(0).context().unwrap(),
        "unknown variable in {{ other }}"
    );
}

#[test]
fn source_files_format_keeps_the_switches() {
    let node = SourceFiles {
        path: "/src/{{ name }}".to_string(),
        pattern: vec!["*.rs".to_string(), "!{{ name }}.rs".to_string()],
        follow_links: true,
        allow_empty: true,
    };
    let spec = node.format(&named).unwrap().resolve("lib").unwrap();
    assert_eq!(spec.path(), "/src/app");
    assert_eq!(spec.target_dir(), "lib");
    assert_eq!(
        spec.pattern(),
        &vec!["*.rs".to_string(), "!app.rs".to_string()]
    );
    assert!(spec.follows_links());
    assert!(spec.allows_empty());
}

#[test]
fn symlink_format_renders_target_and_rename() {
    let node = Symlink {
        target: "/opt/{{ name }}".to_string(),
        rename: Some("{{ name }}-link".to_string()),
    };
    let spec = node.format(&named).unwrap().resolve("bin").unwrap();
    assert_eq!(spec.path(), "bin/app-link");
    assert_eq!(spec.target(), "/opt/app");
}

#[test]
fn source_formats_by_variant() {
    let file = Source::SourceFile(SourceFile {
        path: "/src/app".to_string(),
        rename: None,
        symlink: vec![],
    });
    let files = Source::SourceFiles(SourceFiles {
        path: "/src".to_string(),
        pattern: vec!["*".to_string()],
        follow_links: false,
        allow_empty: false,
    });
    let link = Source::Symlink(Symlink {
        target: "/opt/app".to_string(),
        rename: None,
    });
    let file = RenderSpecification::format(&file, &verbatim)
        .unwrap()
        .resolve("bin")
        .unwrap();
    assert_eq!(file.as_source_file().unwrap().dest(), "bin/app");
    assert!(file.as_symlink().is_none());
    let files = RenderSpecification::format(&files, &verbatim)
        .unwrap()
        .resolve("bin")
        .unwrap();
    assert_eq!(files.as_source_files().unwrap().path(), "/src");
    let link = RenderSpecification::format(&link, &verbatim).unwrap();
    let link = SpecificationBuilder::resolve(&link, "bin").unwrap();
    assert_eq!(link.as_symlink().unwrap().path(), "bin/app");
    assert!(link.as_source_file().is_none());
    assert!(link.as_source_files().is_none());
}

fn file(path: &str) -> Source {
    Source::SourceFile(SourceFile {
        path: path.to_string(),
        rename: None,
        symlink: vec![],
    })
}

#[test]
fn map_stage_resolves_targets_in_order_of_their_text() {
    let stage = MapStage::new()
        .insert("/usr/bin".to_string(), vec![file("/src/b"), file("/src/c")])
        .insert("/bin".to_string(), vec![file("/src/a")]);
    assert_eq!(stage.len(), 2);
    let specs = stage.resolve(&verbatim, "").unwrap();
    let dests: Vec<&str> = specs
        .iter()
        .map(|spec| spec.as_source_file().unwrap().dest().as_str())
        .collect();
    assert_eq!(dests, vec!["bin/a", "usr/bin/b", "usr/bin/c"]);
}

#[test]
fn map_stage_places_targets_below_the_stage_root() {
    let stage = MapStage::from_iter(vec![("/usr/../bin".to_string(), vec![file("/src/a")])]);
    let specs = stage.resolve(&verbatim, "/stage").unwrap();
    assert_eq!(specs[0].as_source_file().unwrap().dest(), "/stage/bin/a");
}

#[test]
fn map_stage_keeps_the_last_sources_of_a_target() {
    let stage = MapStage::from_iter(vec![
        ("/bin".to_string(), vec![file("/src/old")]),
        ("/bin".to_string(), vec![file("/src/new")]),
    ]);
    assert_eq!(stage.len(), 1);
    let specs = stage.resolve(&verbatim, "").unwrap();
    assert_eq!(specs.len(), 1);
    assert_eq!(specs[0].as_source_file().unwrap().dest(), "bin/new");
}

#[test]
fn map_stage_gathers_the_one_error_and_the_valid_target_resolves_alone() {
    let stage = MapStage::new()
        .insert("/good".to_string(), vec![file("/src/a")])
        .insert("/bad".to_string(), vec![file("relative/source")]);
    let errors = stage.resolve(&verbatim, "").unwrap_err();
    assert_eq!(errors.len(), 1);
    assert_eq!(errors.get(0).kind(), ErrorKind::HarvestingFailed);

    let alone = MapStage::new().insert("/good".to_string(), vec![file("/src/a")]);
    let specs = alone.resolve(&verbatim, "").unwrap();
    assert_eq!(specs.len(), 1);
    assert_eq!(specs[0].as_source_file().unwrap().dest(), "good/a");
}

#[test]
fn map_stage_gathers_every_error() {
    let stage = MapStage::new()
        .insert("/a".to_string(), vec![file("x"), file("/ok"), file("y")])
        .insert("b".to_string(), vec![file("/never/looked/at")])
        .insert("/c/../..".to_string(), vec![file("/never/looked/at")])
        .insert("/d/{{ other }}".to_string(), vec![file("/never/looked/at")])
        .insert("/e".to_string(), vec![file("/src/{{ other }}")]);
    let errors = stage.resolve(&named, "").unwrap_err();
    let kinds: Vec<ErrorKind> = errors.into_iter_kinds();
    assert_eq!(
        kinds,
        vec![
            ErrorKind::HarvestingFailed,
            ErrorKind::HarvestingFailed,
            ErrorKind::InvalidConfiguration,
            ErrorKind::InvalidConfiguration,
            ErrorKind::InvalidConfiguration,
            ErrorKind::InvalidConfiguration,
        ]
    );
}

trait Kinds {
    fn into_iter_kinds(self) -> Vec<ErrorKind>;
}

impl Kinds for stager::error::Errors {
    fn into_iter_kinds(self) -> Vec<ErrorKind> {
        let mut iter = self.into_iter();
        let mut kinds = Vec::new();
        while let Some(error) = iter.next() {
            kinds.push(error.kind());
        }
        kinds
    }
}

#[test]
fn map_stage_without_targets_resolves_to_nothing() {
    let stage = MapStage::default();
    assert_eq!(stage.len(), 0);
    assert!(stage.resolve(&verbatim, "").unwrap().is_empty());
}

struct Picky {
    asked: Vec<String>,
}

impl stager::staging::Staging for Picky {
    fn directory(&mut self, path: &str) -> Result<(), StagingError> {
        self.asked.push(format!("dir {}", path));
        Ok(())
    }

    fn file_from_path(&mut self, dest: &str, src: &str) -> Result<(), StagingError> {
        self.asked.push(format!("copy {} <- {}", dest, src));
        if src.contains("missing") {
            Err(ErrorKind::StagingFailed
                .error()
                .set_cause(format!("{} not found", src)))
        } else {
            Ok(())
        }
    }

    fn symlink_dir(&mut self, path: &str, target: &str) -> Result<(), StagingError> {
        self.asked.push(format!("dirlink {} -> {}", path, target));
        Ok(())
    }

    fn symlink_file(&mut self, path: &str, target: &str) -> Result<(), StagingError> {
        self.asked.push(format!("link {} -> {}", path, target));
        Ok(())
    }
}

fn linked(path: &str, alias: &str) -> Source {
    Source::SourceFile(SourceFile {
        path: path.to_string(),
        rename: None,
        symlink: vec![alias.to_string()],
    })
}

#[test]
fn stage_all_stages_every_specification_in_order() {
    let stage = MapStage::new()
        .insert("/bin".to_string(), vec![linked("/src/a", "a1")])
        .insert(
            "/lib".to_string(),
            vec![Source::Symlink(Symlink {
                target: "/opt/lib".to_string(),
                rename: None,
            })],
        );
    let specs = stage.resolve(&verbatim, "").unwrap();
    let mut journal = stager::staging::Journal::new(Picky { asked: vec![] });
    stager::de::stage_all(&specs, &mut journal).unwrap();
    assert_eq!(
        journal.into_inner().asked,
        vec![
            "copy bin/a <- /src/a",
            "link bin/a1 -> bin/a",
            "link lib/lib -> /opt/lib",
        ]
    );
}

#[test]
fn stage_all_goes_on_after_a_failure_and_gathers_them() {
    let stage = MapStage::new().insert(
        "/bin".to_string(),
        vec![
            linked("/src/a", "a1"),
            linked("/src/missing-b", "b1"),
            linked("/src/c", "c1"),
            linked("/src/missing-d", "d1"),
        ],
    );
    let specs = stage.resolve(&verbatim, "").unwrap();
    let mut journal = stager::staging::Journal::new(Picky { asked: vec![] });
    let errors = stager::de::stage_all(&specs, &mut journal).unwrap_err();
    assert_eq!(errors.len(), 2);
    assert_eq!(errors.get(0).kind(), ErrorKind::StagingFailed);
    assert_eq!(errors.get(0).cause().unwrap(), "/src/missing-b not found");
    assert_eq!(errors.get(1).cause().unwrap(), "/src/missing-d not found");
    assert_eq!(
        journal.into_inner().asked,
        vec![
            "copy bin/a <- /src/a",
            "link bin/a1 -> bin/a",
            "copy bin/missing-b <- /src/missing-b",
            "copy bin/c <- /src/c",
            "link bin/c1 -> bin/c",
            "copy bin/missing-d <- /src/missing-d",
        ]
    );
}

#[test]
fn stage_all_of_nothing_asks_for_nothing() {
    let mut journal = stager::staging::Journal::new(Picky { asked: vec![] });
    stager::de::stage_all(&vec![], &mut journal).unwrap();
    assert!(journal.into_inner().asked.is_empty());
}

#[test]
fn map_stage_format_checks_the_configuration() {
    let good = MapStage::new().insert("/bin".to_string(), vec![file("/src/a")]);
    good.format(&verbatim).unwrap();
    let bad = MapStage::new()
        .insert("/bin".to_string(), vec![file("src/a")])
        .insert("/../lib".to_string(), vec![]);
    let errors = bad.format(&verbatim).unwrap_err();
    assert_eq!(
        errors.into_iter_kinds(),
        vec![ErrorKind::InvalidConfiguration, ErrorKind::HarvestingFailed]
    );
}

#[test]
fn source_format_is_the_same_with_and_without_the_trait() {
    let node = file("/src/{{ name }}");
    let direct = node.format(&named).unwrap().resolve("bin").unwrap();
    let through = RenderSpecification::format(&node, &named)
        .unwrap()
        .resolve("bin")
        .unwrap();
    assert_eq!(direct.as_source_file().unwrap().dest(), "bin/app");
    assert_eq!(through.as_source_file().unwrap().dest(), "bin/app");
}

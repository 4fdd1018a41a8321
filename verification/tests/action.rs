use stager::action::Action;
use stager::action::CopyFile;
use stager::action::CreateDirectory;
use stager::action::FsAction;
use stager::action::FsStep;
use stager::action::Symlink;
use stager::fs::Filesystem;

fn shown(steps: Vec<FsStep>) -> Vec<String> {
    steps
        .into_iter()
        .map(|step| match step {
            FsStep::CreateDirAll { dir } => format!("mkdir -p {}", dir),
            FsStep::Copy { from, to } => format!("copy {} to {}", from, to),
            FsStep::Symlink { target, link } => format!("link {} to {}", link, target),
        })
        .collect()
}

#[test]
fn create_directory_keeps_its_path() {
    let action = CreateDirectory::new("/stage/bin".to_string());
    assert_eq!(action.dir(), "/stage/bin");
    assert_eq!(action.to_string(), "mkdir \"/stage/bin\"");
    assert_eq!(shown(action.steps()), vec!["mkdir -p /stage/bin"]);
}

#[test]
fn copy_file_makes_the_parent_first() {
    let action = CopyFile::new("/stage/bin/app".to_string(), "/src/app".to_string());
    assert_eq!(action.source(), "/src/app");
    assert_eq!(action.destination(), "/stage/bin/app");
    assert_eq!(action.to_string(), "cp \"/src/app\" \"/stage/bin/app\"");
    assert_eq!(
        shown(action.steps()),
        vec!["mkdir -p /stage/bin", "copy /src/app to /stage/bin/app"]
    );
}

#[test]
fn symlink_points_from_the_staged_path_to_the_target() {
    let action = Symlink::new("/stage/bin/app".to_string(), "../lib/app".to_string());
    assert_eq!(action.link(), "/stage/bin/app");
    assert_eq!(action.target(), "../lib/app");
    assert_eq!(action.to_string(), "ln -s \"../lib/app\" \"/stage/bin/app\"");
    assert_eq!(
        shown(action.steps()),
        vec!["mkdir -p /stage/bin", "link /stage/bin/app to ../lib/app"]
    );
}

#[test]
fn actions_without_a_parent_skip_the_directory() {
    let copy = CopyFile::new("/".to_string(), "/src/app".to_string());
    assert_eq!(shown(copy.steps()), vec!["copy /src/app to /"]);
    let relative = Symlink::new("app".to_string(), "/opt/app".to_string());
    assert_eq!(
        shown(relative.steps()),
        vec!["mkdir -p ", "link app to /opt/app"]
    );
}

#[test]
fn actions_are_shown_quoted_and_escaped() {
    let action = CreateDirectory::new("a \"b\"\n".to_string());
    assert_eq!(action.to_string(), "mkdir \"a \\\"b\\\"\\n\"");
    assert_eq!(action.to_string(), format!("mkdir {:?}", "a \"b\"\n"));
    let copy = CopyFile::new("to here".to_string(), "from\there".to_string());
    assert_eq!(
        copy.to_string(),
        format!("cp {:?} {:?}", "from\there", "to here")
    );
}

#[test]
fn any_action_behaves_as_what_it_holds() {
    let actions = vec![
        Action::CreateDirectory(CreateDirectory::new("/stage".to_string())),
        Action::CopyFile(CopyFile::new("/stage/a".to_string(), "/src/a".to_string())),
        Action::Symlink(Symlink::new("/stage/b".to_string(), "a".to_string())),
    ];
    let shown_as: Vec<String> = actions.iter().map(|action| action.to_string()).collect();
    assert_eq!(
        shown_as,
        vec![
            "mkdir \"/stage\"",
            "cp \"/src/a\" \"/stage/a\"",
            "ln -s \"a\" \"/stage/b\"",
        ]
    );
    assert_eq!(
        shown(actions[2].steps()),
        vec!["mkdir -p /stage", "link /stage/b to a"]
    );
}

#[test]
fn filesystem_takes_every_path_from_its_root() {
    let fs = Filesystem::new("/var/stage".to_string());
    assert_eq!(fs.root(), "/var/stage");
    assert_eq!(fs.directory("usr/bin").dir(), "/var/stage/usr/bin");
    let copy = fs.file_from_path("usr/bin/app", "/src/app");
    assert_eq!(copy.destination(), "/var/stage/usr/bin/app");
    assert_eq!(copy.source(), "/src/app");
    let link = fs.symlink_file("usr/bin/tool", "usr/bin/app");
    assert_eq!(link.link(), "/var/stage/usr/bin/tool");
    assert_eq!(link.target(), "usr/bin/app");
    let dir = fs.symlink_dir("lib64", "lib");
    assert_eq!(dir.link(), "/var/stage/lib64");
    assert_eq!(dir.target(), "lib");
}

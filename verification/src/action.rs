//! Filesystem operations to stage files.
//!
//! An action says what to do and how to show it. What it does is laid out
//! as steps on the filesystem, in the order in which they are to be taken;
//! taking them is left to the caller.
use vstd::prelude::*;
use crate::text::debug_text;
use crate::path::parent;
use crate::text::quoted;
use crate::path::spec_parent;

verus! {

/// One step on the filesystem.
#[derive(Debug, Clone)]
pub enum FsStep {
    /// Create the directory `dir` and every missing directory above it;
    /// nothing where it exists.
    CreateDirAll { dir: String },
    /// Copy the contents of the file `from` to the file `to`.
    Copy { from: String, to: String },
    /// Create the symbolic link `link`, which points to `target`.
    Symlink { target: String, link: String },
}

/// What an `FsStep` holds.
pub enum FsStepView {
    CreateDirAll { dir: Seq<char> },
    Copy { from: Seq<char>, to: Seq<char> },
    Symlink { target: Seq<char>, link: Seq<char> },
}

impl View for FsStep {
    type V = FsStepView;

    open spec fn view(&self) -> FsStepView {
        match self {
            FsStep::CreateDirAll { dir } => FsStepView::CreateDirAll { dir: dir@ },
            FsStep::Copy { from, to } => FsStepView::Copy { from: from@, to: to@ },
            FsStep::Symlink { target, link } => FsStepView::Symlink {
                target: target@,
                link: link@,
            },
        }
    }
}

impl DeepView for FsStep {
    type V = FsStepView;

    open spec fn deep_view(&self) -> FsStepView {
        self@
    }
}

/// The step that makes sure of the directory that is to hold `staged`, where
/// `staged` has one.
pub open spec fn parent_first(staged: Seq<char>) -> Seq<FsStepView> {
    match spec_parent(staged) {
        Some(dir) => seq![FsStepView::CreateDirAll { dir }],
        None => Seq::<FsStepView>::empty(),
    }
}

/// What an action is.
pub enum ActionView {
    CreateDirectory { staged: Seq<char> },
    CopyFile { staged: Seq<char>, source: Seq<char> },
    Symlink { staged: Seq<char>, target: Seq<char> },
}

impl ActionView {
    /// The action as a shell command would put it, with each path quoted.
    pub open spec fn text(self) -> Seq<char> {
        match self {
            ActionView::CreateDirectory { staged } => "mkdir "@ + debug_text(staged),
            ActionView::CopyFile { staged, source } => "cp "@ + debug_text(source) + " "@
                + debug_text(staged),
            ActionView::Symlink { staged, target } => "ln -s "@ + debug_text(target) + " "@
                + debug_text(staged),
        }
    }

    /// The steps that carry the action out. A file or a link is preceded by
    /// the directory that holds it. A link is made at `staged` and points to
    /// `target`.
    pub open spec fn steps(self) -> Seq<FsStepView> {
        match self {
            ActionView::CreateDirectory { staged } => seq![
                FsStepView::CreateDirAll { dir: staged },
            ],
            ActionView::CopyFile { staged, source } => parent_first(staged).push(
                FsStepView::Copy { from: source, to: staged },
            ),
            ActionView::Symlink { staged, target } => parent_first(staged).push(
                FsStepView::Symlink { target, link: staged },
            ),
        }
    }
}

// `to_string` is required for dry-runs / previews.
/// Operation for setting up staged directory tree.
pub trait FsAction {
    /// What this action is.
    spec fn shape(&self) -> ActionView;

    /// Shows the action, for a preview.
    fn to_string(&self) -> (s: String)
        ensures
            s@ == self.shape().text(),
    ;

    /// Lays out the current action as steps that write to the stage.
    fn steps(&self) -> (steps: Vec<FsStep>)
        ensures
            steps.deep_view() == self.shape().steps(),
    ;
}

/// The step that makes sure of the directory that is to hold `staged`.
fn parent_step(staged: &str) -> (steps: Vec<FsStep>)
    ensures
        steps.deep_view() == parent_first(staged@),
{
    let mut steps: Vec<FsStep> = Vec::new();
    match parent(staged) {
        Some(dir) => {
            steps.push(FsStep::CreateDirAll { dir });
            assert(steps.deep_view() =~= parent_first(staged@));
        },
        None => {
            assert(steps.deep_view() =~= parent_first(staged@));
        },
    }
    steps
}

/// Specifies a staged directory to be created.
#[derive(Clone, Debug)]
pub struct CreateDirectory {
    staged: String,
}

impl CreateDirectory {
    /// Specifies a staged directory to be created.
    ///
    /// - `staged`: full path to future directory.
    pub fn new(staged: String) -> (action: Self)
        ensures
            action.shape() == (ActionView::CreateDirectory { staged: staged@ }),
    {
        CreateDirectory { staged }
    }

    /// The directory that will be created.
    pub fn dir(&self) -> (dir: &String)
        ensures
            self.shape() == (ActionView::CreateDirectory { staged: dir@ }),
    {
        &self.staged
    }
}

impl FsAction for CreateDirectory {
    closed spec fn shape(&self) -> ActionView {
        ActionView::CreateDirectory { staged: self.staged@ }
    }

    fn to_string(&self) -> (s: String) {
        let mut out = "mkdir ".to_owned();
        out.append(quoted(self.staged.as_str()).as_str());
        out
    }

    fn steps(&self) -> (steps: Vec<FsStep>) {
        let mut steps: Vec<FsStep> = Vec::new();
        steps.push(FsStep::CreateDirAll { dir: self.staged.clone() });
        assert(steps.deep_view() =~= self.shape().steps());
        steps
    }
}

/// Specifies a file to be staged into the target directory.
#[derive(Clone, Debug)]
pub struct CopyFile {
    staged: String,
    source: String,
}

impl CopyFile {
    /// Specifies a file to be staged into the target directory.
    ///
    /// - `staged`: full path to future file.
    /// - `source`: full path to file being written to `staged`.
    pub fn new(staged: String, source: String) -> (action: Self)
        ensures
            action.shape() == (ActionView::CopyFile { staged: staged@, source: source@ }),
    {
        CopyFile { staged, source }
    }

    /// The file to be copied.
    pub fn source(&self) -> (source: &String)
        ensures
            self.shape() matches ActionView::CopyFile { source: held, .. } && held == source@,
    {
        &self.source
    }

    /// The file's destination path
    pub fn destination(&self) -> (staged: &String)
        ensures
            self.shape() matches ActionView::CopyFile { staged: held, .. } && held == staged@,
    {
        &self.staged
    }
}

impl FsAction for CopyFile {
    closed spec fn shape(&self) -> ActionView {
        ActionView::CopyFile { staged: self.staged@, source: self.source@ }
    }

    fn to_string(&self) -> (s: String) {
        let mut out = "cp ".to_owned();
        out.append(quoted(self.source.as_str()).as_str());
        out.append(" ");
        out.append(quoted(self.staged.as_str()).as_str());
        out
    }

    fn steps(&self) -> (steps: Vec<FsStep>) {
        let mut steps = parent_step(self.staged.as_str());
        let ghost before = steps.deep_view();
        steps.push(FsStep::Copy { from: self.source.clone(), to: self.staged.clone() });
        assert(steps.deep_view() =~= before.push(
            FsStepView::Copy { from: self.source@, to: self.staged@ },
        ));
        steps
    }
}

/// Specifies a symbolic link file to be staged into the target directory.
#[derive(Clone, Debug)]
pub struct Symlink {
    staged: String,
    target: String,
}

impl Symlink {
    /// Specifies a symbolic link file to be staged into the target directory.
    ///
    /// - `staged`: full path for future symlink.
    /// - `target`: path that symlink will point to.
    pub fn new(staged: String, target: String) -> (action: Self)
        ensures
            action.shape() == (ActionView::Symlink { staged: staged@, target: target@ }),
    {
        Symlink { staged, target }
    }

    /// The path where the link will exist.
    pub fn link(&self) -> (staged: &String)
        ensures
            self.shape() matches ActionView::Symlink { staged: held, .. } && held == staged@,
    {
        &self.staged
    }

    /// The location the link points to.
    pub fn target(&self) -> (target: &String)
        ensures
            self.shape() matches ActionView::Symlink { target: held, .. } && held == target@,
    {
        &self.target
    }
}

impl FsAction for Symlink {
    closed spec fn shape(&self) -> ActionView {
        ActionView::Symlink { staged: self.staged@, target: self.target@ }
    }

    fn to_string(&self) -> (s: String) {
        let mut out = "ln -s ".to_owned();
        out.append(quoted(self.target.as_str()).as_str());
        out.append(" ");
        out.append(quoted(self.staged.as_str()).as_str());
        out
    }

    fn steps(&self) -> (steps: Vec<FsStep>) {
        let mut steps = parent_step(self.staged.as_str());
        let ghost before = steps.deep_view();
        steps.push(FsStep::Symlink { target: self.target.clone(), link: self.staged.clone() });
        assert(steps.deep_view() =~= before.push(
            FsStepView::Symlink { target: self.target@, link: self.staged@ },
        ));
        steps
    }
}

/// Any one of the actions.
#[derive(Clone, Debug)]
pub enum Action {
    CreateDirectory(CreateDirectory),
    CopyFile(CopyFile),
    Symlink(Symlink),
}

impl FsAction for Action {
    open spec fn shape(&self) -> ActionView {
        match self {
            Action::CreateDirectory(action) => action.shape(),
            Action::CopyFile(action) => action.shape(),
            Action::Symlink(action) => action.shape(),
        }
    }

    fn to_string(&self) -> (s: String) {
        match self {
            Action::CreateDirectory(action) => action.to_string(),
            Action::CopyFile(action) => action.to_string(),
            Action::Symlink(action) => action.to_string(),
        }
    }

    fn steps(&self) -> (steps: Vec<FsStep>) {
        match self {
            Action::CreateDirectory(action) => action.steps(),
            Action::CopyFile(action) => action.steps(),
            Action::Symlink(action) => action.steps(),
        }
    }
}

impl View for Action {
    type V = ActionView;

    open spec fn view(&self) -> ActionView {
        self.shape()
    }
}

impl DeepView for Action {
    type V = ActionView;

    open spec fn deep_view(&self) -> ActionView {
        self.shape()
    }
}

} // verus!

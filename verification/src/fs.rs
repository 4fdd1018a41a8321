//! Stage files on a target.
use vstd::prelude::*;
use crate::action::ActionView;
use crate::action::CopyFile;
use crate::action::FsAction;
use crate::action::CreateDirectory;
use crate::action::Symlink;
use crate::path::join;
use crate::path::spec_join;

verus! {

/// A location on the filesystem to stage to.
///
/// It turns what a stage is asked for into the action on the filesystem
/// that answers it: every path within the stage is taken from the root.
#[derive(Debug, Clone)]
pub struct Filesystem {
    root: String,
}

impl View for Filesystem {
    type V = Seq<char>;

    /// The root of the stage.
    closed spec fn view(&self) -> Seq<char> {
        self.root@
    }
}

impl Filesystem {
    /// A location to stage files within.
    pub fn new(root: String) -> (fs: Self)
        ensures
            fs@ == root@,
    {
        Filesystem { root }
    }

    /// The root of the stage.
    pub fn root(&self) -> (root: &String)
        ensures
            root@ == self@,
    {
        &self.root
    }

    /// The action that creates the directory `path` of the stage.
    pub fn directory(&self, path: &str) -> (action: CreateDirectory)
        ensures
            action.shape() == (ActionView::CreateDirectory { staged: spec_join(self@, path@) }),
    {
        CreateDirectory::new(join(self.root.as_str(), path))
    }

    /// The action that copies the file at `src` to the file `dest` of the
    /// stage.
    pub fn file_from_path(&self, dest: &str, src: &str) -> (action: CopyFile)
        ensures
            action.shape() == (ActionView::CopyFile {
                staged: spec_join(self@, dest@),
                source: src@,
            }),
    {
        CopyFile::new(join(self.root.as_str(), dest), src.to_owned())
    }

    /// The action that creates the link `path` of the stage to the
    /// directory `target`.
    pub fn symlink_dir(&self, path: &str, target: &str) -> (action: Symlink)
        ensures
            action.shape() == (ActionView::Symlink {
                staged: spec_join(self@, path@),
                target: target@,
            }),
    {
        Symlink::new(join(self.root.as_str(), path), target.to_owned())
    }

    /// The action that creates the link `path` of the stage to the file
    /// `target`.
    pub fn symlink_file(&self, path: &str, target: &str) -> (action: Symlink)
        ensures
            action.shape() == (ActionView::Symlink {
                staged: spec_join(self@, path@),
                target: target@,
            }),
    {
        Symlink::new(join(self.root.as_str(), path), target.to_owned())
    }
}

} // verus!

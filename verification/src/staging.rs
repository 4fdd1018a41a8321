//! The stage as the library sees it: something that is asked, request by
//! request, to hold directories, files and links.
use vstd::prelude::*;
use crate::error::StagingError;
use crate::error::StagingErrorView;

verus! {

/// Build up a staged filesystem.
///
/// Paths handed to a stage are relative to its root. An implementation
/// decides alone whether a request succeeds.
pub trait Staging {
    /// Create a directory within the stage.
    fn directory(&mut self, path: &str) -> Result<(), StagingError>;

    /// Create a file within the stage, as a copy of the file at `src`.
    fn file_from_path(&mut self, dest: &str, src: &str) -> Result<(), StagingError>;

    /// Create a symlink to a directory within the stage.
    fn symlink_dir(&mut self, path: &str, target: &str) -> Result<(), StagingError>;

    /// Create a symlink to a file within the stage.
    fn symlink_file(&mut self, path: &str, target: &str) -> Result<(), StagingError>;
}

/// One thing that a stage can be asked for.
#[derive(Debug, Clone)]
pub enum Request {
    Directory { path: String },
    File { dest: String, src: String },
    SymlinkDir { path: String, target: String },
    SymlinkFile { path: String, target: String },
}

/// What a `Request` holds.
pub enum RequestView {
    Directory { path: Seq<char> },
    File { dest: Seq<char>, src: Seq<char> },
    SymlinkDir { path: Seq<char>, target: Seq<char> },
    SymlinkFile { path: Seq<char>, target: Seq<char> },
}

impl View for Request {
    type V = RequestView;

    open spec fn view(&self) -> RequestView {
        match self {
            Request::Directory { path } => RequestView::Directory { path: path@ },
            Request::File { dest, src } => RequestView::File { dest: dest@, src: src@ },
            Request::SymlinkDir { path, target } => RequestView::SymlinkDir {
                path: path@,
                target: target@,
            },
            Request::SymlinkFile { path, target } => RequestView::SymlinkFile {
                path: path@,
                target: target@,
            },
        }
    }
}

impl DeepView for Request {
    type V = RequestView;

    open spec fn deep_view(&self) -> RequestView {
        self@
    }
}

/// A request that a stage was asked for, with the failure it answered, if
/// it refused.
pub struct Outcome {
    pub request: RequestView,
    pub refusal: Option<StagingErrorView>,
}

/// The failure that a stage answered a request with, if it refused.
pub open spec fn refusal(r: Result<(), StagingError>) -> Option<StagingErrorView> {
    match r {
        Ok(_) => None,
        Err(e) => Some(e@),
    }
}

/// What a stage answered, with the failure as what it holds.
pub open spec fn answer(r: Result<(), StagingError>) -> Result<(), StagingErrorView> {
    match r {
        Ok(_) => Ok(()),
        Err(e) => Err(e@),
    }
}

/// Whether `done` and `r` are what comes of asking for the requests of
/// `plan` in order and giving up at the first refusal: the requests asked
/// are the first of the plan, none but the last of them was refused, and
/// `r` is the refusal of the last, or success after the whole plan.
pub open spec fn fail_fast(
    plan: Seq<RequestView>,
    done: Seq<Outcome>,
    r: Result<(), StagingErrorView>,
) -> bool {
    &&& done.len() <= plan.len()
    &&& forall|i: int| 0 <= i < done.len() ==> (#[trigger] done[i]).request == plan[i]
    &&& forall|i: int| 0 <= i < done.len() - 1 ==> (#[trigger] done[i]).refusal is None
    &&& match r {
        Ok(_) => done.len() == plan.len() && (done.len() > 0 ==> done.last().refusal is None),
        Err(e) => done.len() > 0 && done.last().refusal == Some(e),
    }
}

/// A stage together with the record of what it has been asked for.
///
/// The record exists for the contracts alone: it is what lets a function that
/// stages say which requests it made, in which order, and how each ended.
pub struct Journal<S> {
    stage: S,
    asked: Ghost<Seq<Outcome>>,
}

impl<S: Staging> Journal<S> {
    /// Every request made through this journal so far, oldest first.
    pub closed spec fn asked(&self) -> Seq<Outcome> {
        self.asked@
    }

    /// The stage that the requests go to.
    pub closed spec fn stage(&self) -> S {
        self.stage
    }

    /// Starts an empty record for `stage`.
    pub fn new(stage: S) -> (journal: Self)
        ensures
            journal.asked() == Seq::<Outcome>::empty(),
            journal.stage() == stage,
    {
        Journal { stage, asked: Ghost(Seq::empty()) }
    }

    /// Gives the stage back.
    pub fn into_inner(self) -> (stage: S)
        ensures
            stage == self.stage(),
    {
        self.stage
    }

    /// Looks at the stage.
    pub fn get_ref(&self) -> (stage: &S)
        ensures
            *stage == self.stage(),
    {
        &self.stage
    }

    /// Create a directory within the stage.
    pub fn directory(&mut self, path: &str) -> (r: Result<(), StagingError>)
        ensures
            final(self).asked() == old(self).asked().push(
                Outcome {
                    request: RequestView::Directory { path: path@ },
                    refusal: refusal(r),
                },
            ),
    {
        let r = self.stage.directory(path);
        proof {
            self.asked@ = self.asked@.push(
                Outcome {
                    request: RequestView::Directory { path: path@ },
                    refusal: refusal(r),
                },
            );
        }
        r
    }

    /// Create a file within the stage, as a copy of the file at `src`.
    pub fn file_from_path(&mut self, dest: &str, src: &str) -> (r: Result<(), StagingError>)
        ensures
            final(self).asked() == old(self).asked().push(
                Outcome {
                    request: RequestView::File { dest: dest@, src: src@ },
                    refusal: refusal(r),
                },
            ),
    {
        let r = self.stage.file_from_path(dest, src);
        proof {
            self.asked@ = self.asked@.push(
                Outcome {
                    request: RequestView::File { dest: dest@, src: src@ },
                    refusal: refusal(r),
                },
            );
        }
        r
    }

    /// Create a symlink to a directory within the stage.
    pub fn symlink_dir(&mut self, path: &str, target: &str) -> (r: Result<(), StagingError>)
        ensures
            final(self).asked() == old(self).asked().push(
                Outcome {
                    request: RequestView::SymlinkDir { path: path@, target: target@ },
                    refusal: refusal(r),
                },
            ),
    {
        let r = self.stage.symlink_dir(path, target);
        proof {
            self.asked@ = self.asked@.push(
                Outcome {
                    request: RequestView::SymlinkDir { path: path@, target: target@ },
                    refusal: refusal(r),
                },
            );
        }
        r
    }

    /// Create a symlink to a file within the stage.
    pub fn symlink_file(&mut self, path: &str, target: &str) -> (r: Result<(), StagingError>)
        ensures
            final(self).asked() == old(self).asked().push(
                Outcome {
                    request: RequestView::SymlinkFile { path: path@, target: target@ },
                    refusal: refusal(r),
                },
            ),
    {
        let r = self.stage.symlink_file(path, target);
        proof {
            self.asked@ = self.asked@.push(
                Outcome {
                    request: RequestView::SymlinkFile { path: path@, target: target@ },
                    refusal: refusal(r),
                },
            );
        }
        r
    }

    /// Asks the stage for `request`.
    pub fn ask(&mut self, request: &Request) -> (r: Result<(), StagingError>)
        ensures
            final(self).asked() == old(self).asked().push(
                Outcome {
                    request: request@,
                    refusal: refusal(r),
                },
            ),
    {
        match request {
            Request::Directory { path } => self.directory(path.as_str()),
            Request::File { dest, src } => self.file_from_path(dest.as_str(), src.as_str()),
            Request::SymlinkDir { path, target } => self.symlink_dir(
                path.as_str(),
                target.as_str(),
            ),
            Request::SymlinkFile { path, target } => self.symlink_file(
                path.as_str(),
                target.as_str(),
            ),
        }
    }

    /// Asks the stage for the requests of `plan` in order, and gives up at
    /// the first that it refuses.
    pub fn carry_out(&mut self, plan: &Vec<Request>) -> (r: Result<(), StagingError>)
        ensures
            old(self).asked().is_prefix_of(final(self).asked()),
            fail_fast(
                plan.deep_view(),
                final(self).asked().skip(old(self).asked().len() as int),
                answer(r),
            ),
    {
        let ghost before = self.asked();
        let mut i: usize = 0;
        assert(self.asked().skip(before.len() as int) =~= Seq::<Outcome>::empty());
        while i < plan.len()
            invariant
                i <= plan.len(),
                before == old(self).asked(),
                before.is_prefix_of(self.asked()),
                self.asked().len() == before.len() + i,
                forall|k: int|
                    0 <= k < i ==> (#[trigger] self.asked()[before.len() + k]).request
                        == plan.deep_view()[k] && self.asked()[before.len() + k].refusal is None,
            decreases plan.len() - i,
        {
            let ghost so_far = self.asked();
            let r = self.ask(&plan[i]);
            proof {
                assert(plan.deep_view()[i as int] == plan[i as int]@);
                assert forall|k: int| 0 <= k < so_far.len() implies self.asked()[k]
                    == so_far[k] by {}
                assert(before =~= self.asked().subrange(0, before.len() as int));
            }
            match r {
                Ok(_) => {},
                Err(e) => {
                    proof {
                        let done = self.asked().skip(before.len() as int);
                        assert(done.len() == i + 1);
                        assert forall|k: int| 0 <= k < done.len() implies (#[trigger] done[k]).request
                            == plan.deep_view()[k] by {
                            assert(done[k] == self.asked()[before.len() + k]);
                        }
                        assert forall|k: int| 0 <= k < done.len() - 1 implies (#[trigger] done[k]).refusal
                            is None by {
                            assert(done[k] == self.asked()[before.len() + k]);
                        }
                    }
                    return Err(e);
                },
            }
            i += 1;
        }
        proof {
            let done = self.asked().skip(before.len() as int);
            assert forall|k: int| 0 <= k < done.len() implies (#[trigger] done[k]).request
                == plan.deep_view()[k] && done[k].refusal is None by {
                assert(done[k] == self.asked()[before.len() + k]);
            }
        }
        Ok(())
    }
}

} // verus!

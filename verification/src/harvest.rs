//! Finding the files of a source tree: a walk below a root directory that
//! yields what matches a set of patterns.
use vstd::prelude::*;
use crate::error::ErrorKind;
use crate::error::StagingError;
use crate::error::StagingErrorView;

verus! {

/// `globwalk::GlobWalker`, a walk that is set up and not yet started. It is
/// handed through as it is.
#[verifier::external_type_specification]
#[verifier::external_body]
pub struct ExGlobWalker(globwalk::GlobWalker);

/// A walk under way: a `globwalk::IntoIter`. Its items hold an entry type
/// of yet another crate, which is why the walk is kept behind this struct
/// and its items are handed out as plain values.
#[verifier::external_body]
struct Walk {
    inner: globwalk::IntoIter,
}

/// `globwalk::GlobError`, the failure of a pattern that is refused. Only
/// its message is read.
#[verifier::external_type_specification]
#[verifier::external_body]
pub struct ExGlobError(globwalk::GlobError);

/// `globwalk::WalkError`, the failure of a step of a walk. Only its message
/// is read.
#[verifier::external_type_specification]
#[verifier::external_body]
pub struct ExWalkError(globwalk::WalkError);

/// What a walk yields at one step.
#[derive(Debug, Clone)]
pub enum Walked {
    /// An entry that matches, with its path and whether it is a directory.
    Entry { path: String, is_dir: bool },
    /// The walk could not read on here.
    Failed { error: StagingError },
}

/// What a `Walked` holds.
pub enum WalkedView {
    Entry { path: Seq<char>, is_dir: bool },
    Failed { error: StagingErrorView },
}

impl View for Walked {
    type V = WalkedView;

    open spec fn view(&self) -> WalkedView {
        match self {
            Walked::Entry { path, is_dir } => WalkedView::Entry { path: path@, is_dir: *is_dir },
            Walked::Failed { error } => WalkedView::Failed { error: error@ },
        }
    }
}

impl DeepView for Walked {
    type V = WalkedView;

    open spec fn deep_view(&self) -> WalkedView {
        self@
    }
}

/// Whether `e` is a failure of harvesting that passes on what the walk
/// reported, and nothing else.
pub open spec fn harvest_failure(e: StagingErrorView) -> bool {
    e.kind == ErrorKind::HarvestingFailed && e.context is None && e.cause is Some
}

/// Whether `found` may be what a walk yields: each step that failed is a
/// failure of harvesting that passes on what the walk reported.
pub open spec fn harvested(found: Seq<WalkedView>) -> bool {
    forall|i: int|
        0 <= i < found.len() ==> ((#[trigger] found[i]) matches WalkedView::Failed { error }
            ==> harvest_failure(error))
}

/// Calls `globwalk::GlobWalker::from_patterns`: a walker below `root` for
/// what matches `patterns`, or the failure of a pattern that is refused.
/// Which patterns are refused is left to the call.
#[verifier::external_body]
fn walker(root: &str, patterns: &Vec<String>) -> Result<globwalk::GlobWalker, globwalk::GlobError> {
    globwalk::GlobWalker::from_patterns(root, patterns)
}

/// Calls `globwalk::GlobWalker::follow_links`, which sets whether the walk
/// follows symbolic links.
#[verifier::external_body]
fn following(walker: globwalk::GlobWalker, yes: bool) -> globwalk::GlobWalker {
    walker.follow_links(yes)
}

/// Calls `into_iter` on a `globwalk::GlobWalker`, which starts the walk.
#[verifier::external_body]
fn started(walker: globwalk::GlobWalker) -> Walk {
    Walk { inner: walker.into_iter() }
}

/// Calls `next` on a `globwalk::IntoIter`: the next item of the walk, or
/// nothing at its end. An entry is handed on as its path and whether that
/// path is a directory, a failure as it is. What the walk yields depends on
/// what is on disk, so nothing is claimed of it.
#[verifier::external_body]
fn next_item(walk: &mut Walk) -> Option<Result<(String, bool), globwalk::WalkError>> {
    walk.inner.next().map(
        |item| item.map(|e| (e.path().to_string_lossy().into_owned(), e.path().is_dir())),
    )
}

/// Calls `to_string` on a `globwalk::GlobError`: the message of a refused
/// pattern.
#[verifier::external_body]
fn glob_error_text(error: &globwalk::GlobError) -> String {
    error.to_string()
}

/// Calls `to_string` on a `globwalk::WalkError`: the message of a step that
/// the walk could not take.
#[verifier::external_body]
fn walk_error_text(error: &globwalk::WalkError) -> String {
    error.to_string()
}

/// Walks below `root` for what matches `patterns`, written as in a
/// `.gitignore` file, and returns what the walk yields, in its order.
///
/// A refused pattern fails the whole; a step that the walk cannot take is
/// kept in its place among the entries. Both are failures of harvesting
/// with the walk's message as their cause. The walk is followed for at most
/// `usize::MAX` steps, more than a list can hold.
pub fn harvest(root: &str, patterns: &Vec<String>, follow_links: bool) -> (r: Result<
    Vec<Walked>,
    StagingError,
>)
    ensures
        r matches Err(e) ==> harvest_failure(e@),
        r matches Ok(found) ==> harvested(found.deep_view()),
{
    let walker = match walker(root, patterns) {
        Ok(walker) => walker,
        Err(e) => {
            return Err(refused(glob_error_text(&e)));
        },
    };
    let mut walk = started(following(walker, follow_links));
    let mut found: Vec<Walked> = Vec::new();
    let mut steps: usize = 0;
    while steps < usize::MAX
        invariant
            harvested(found.deep_view()),
        decreases usize::MAX - steps,
    {
        let ghost before = found.deep_view();
        let step = match next_item(&mut walk) {
            None => {
                return Ok(found);
            },
            Some(Ok(entry)) => walked(Ok(entry)),
            Some(Err(e)) => walked(Err(walk_error_text(&e))),
        };
        found.push(step);
        assert(found.deep_view() =~= before.push(step@));
        steps += 1;
    }
    Ok(found)
}

/// The failure of a walk whose patterns were refused with `message`.
pub fn refused(message: String) -> (e: StagingError)
    ensures
        e@ == StagingErrorView::caused(ErrorKind::HarvestingFailed, message@),
{
    ErrorKind::HarvestingFailed.error().set_cause(message)
}

/// What a step of a walk is kept as: an entry with its path and whether it
/// is a directory, or, where the walk reported `message` in place of an
/// entry, the failure of harvesting with that cause.
pub fn walked(step: Result<(String, bool), String>) -> (kept: Walked)
    ensures
        kept@ == match step {
            Ok(entry) => WalkedView::Entry { path: entry.0@, is_dir: entry.1 },
            Err(message) => WalkedView::Failed {
                error: StagingErrorView::caused(ErrorKind::HarvestingFailed, message@),
            },
        },
{
    match step {
        Ok((path, is_dir)) => Walked::Entry { path, is_dir },
        Err(message) => Walked::Failed { error: refused(message) },
    }
}

} // verus!

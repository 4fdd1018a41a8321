//! High-level specification for staging files.
//!
//! A builder says what should appear in a directory of the stage. Resolving
//! it for a target directory validates it and fixes every path; the
//! specification that results is staged by asking a stage for files and
//! links, in a set order, until the first request is refused.
use vstd::prelude::*;
use crate::error::ErrorKind;
use crate::error::Errors;
use crate::error::StagingError;
use crate::error::StagingErrorView;
use crate::harvest::harvest;
use crate::harvest::harvest_failure;
use crate::harvest::harvested;
use crate::harvest::Walked;
use crate::harvest::WalkedView;
use crate::text::debug_list;
use crate::text::debug_text;
use crate::path::is_absolute;
use crate::path::is_file_name;
use crate::path::file_name;
use crate::path::join;
use crate::path::lemma_file_name_of_join;
use crate::path::lemma_join_stays_contained;
use crate::path::spec_is_contained;
use crate::text::quoted;
use crate::text::quoted_list;
use crate::path::spec_file_name;
use crate::path::spec_is_absolute;
use crate::path::spec_is_file_name;
use crate::path::spec_join;
use crate::path::spec_strip_prefix;
use crate::path::strip_prefix;
use crate::staging::fail_fast;
use crate::staging::Journal;
use crate::staging::Outcome;
use crate::staging::Request;
use crate::staging::RequestView;
use crate::staging::Staging;

verus! {

/// Create concrete filesystem specs.
pub trait SpecificationBuilder {
    /// What this builder resolves to.
    type Spec: Specification;

    /// Create concrete filesystem specs.
    fn resolve(&self, target_dir: &str) -> Result<Self::Spec, Errors>;
}

/// Concrete filesystem specs.
pub trait Specification {
    /// Apply specification to the stage.
    fn stage<S: Staging>(&self, stage: &mut Journal<S>) -> Result<(), Errors>;
}

/// Whether `r` is the outcome `expected`, a failure being surfaced as a
/// batch of its own.
pub open spec fn surfaced<T: View>(r: Result<T, Errors>, expected: Result<T::V, StagingErrorView>) -> bool {
    match r {
        Ok(value) => expected == Ok::<T::V, StagingErrorView>(value@),
        Err(errors) => expected matches Err(e) && errors@ == seq![e],
    }
}

/// Whether the outcomes `done` and the result `r` are what comes of asking
/// for the requests of `plan` in order, giving up at the first refusal, and
/// ending with `ending` where nothing was refused.
pub open spec fn staged(
    plan: Seq<RequestView>,
    ending: Result<(), StagingErrorView>,
    done: Seq<Outcome>,
    r: Result<(), Errors>,
) -> bool {
    let first = match r {
        Ok(_) => Ok(()),
        Err(errors) => Err(errors@[0]),
    };
    &&& r matches Err(errors) ==> errors@.len() == 1
    &&& if done.len() > 0 && done.last().refusal is Some {
        fail_fast(plan, done, first)
    } else {
        fail_fast(plan, done, Ok(())) && first == ending
    }
}

/// The paths of `names` taken from the directory `dir`.
pub open spec fn each_joined(dir: Seq<char>, names: Seq<Seq<char>>) -> Seq<Seq<char>> {
    Seq::new(names.len(), |i: int| spec_join(dir, names[i]))
}

/// Whether every one of `names` is a file name.
pub open spec fn all_file_names(names: Seq<Seq<char>>) -> bool {
    forall|i: int| 0 <= i < names.len() ==> spec_is_file_name(#[trigger] names[i])
}

/// The requests for links at `links`, each to `target`.
pub open spec fn links_to(links: Seq<Seq<char>>, target: Seq<char>) -> Seq<RequestView> {
    Seq::new(links.len(), |i: int| RequestView::SymlinkFile { path: links[i], target })
}

/// Specifies a file to be staged into the target directory.
#[derive(Clone, Debug, Eq, PartialEq)]
pub struct SourceFileBuilder {
    path: String,
    rename: Option<String>,
    symlink: Vec<String>,
}

/// What a `SourceFileBuilder` holds.
pub struct SourceFileBuilderView {
    pub path: Seq<char>,
    pub rename: Option<Seq<char>>,
    pub symlink: Seq<Seq<char>>,
}

impl SourceFileBuilderView {
    /// What the builder resolves to for the directory `target_dir`.
    ///
    /// The source must be an absolute path with a file name. The copy is
    /// named by `rename`, else as the source is, and the name must be a file
    /// name, as must each alias in `symlink`. The copy and the aliases then
    /// lie in `target_dir`. A failure names the path at fault; for an alias
    /// that is no file name it names where the copy would have gone.
    pub open spec fn resolved(self, target_dir: Seq<char>) -> Result<SourceFileView, StagingErrorView> {
        if !spec_is_absolute(self.path) {
            Err(
                StagingErrorView::told(
                    ErrorKind::HarvestingFailed,
                    "SourceFile path must be absolute: "@ + debug_text(self.path),
                ),
            )
        } else if spec_file_name(self.path) is None {
            Err(
                StagingErrorView::told(
                    ErrorKind::HarvestingFailed,
                    "SourceFile is missing a filename: "@ + debug_text(self.path),
                ),
            )
        } else {
            let name = match self.rename {
                Some(name) => name,
                None => spec_file_name(self.path)->0,
            };
            let dest = spec_join(target_dir, name);
            if !spec_is_file_name(name) {
                Err(
                    StagingErrorView::told(
                        ErrorKind::HarvestingFailed,
                        "SourceFile rename must not change directories: "@ + debug_text(name),
                    ),
                )
            } else if !all_file_names(self.symlink) {
                Err(
                    StagingErrorView::told(
                        ErrorKind::HarvestingFailed,
                        "SourceFile symlink must not change directories: "@ + debug_text(dest),
                    ),
                )
            } else {
                Ok(
                    SourceFileView {
                        source: self.path,
                        dest,
                        symlinks: each_joined(target_dir, self.symlink),
                    },
                )
            }
        }
    }
}

impl View for SourceFileBuilder {
    type V = SourceFileBuilderView;

    closed spec fn view(&self) -> SourceFileBuilderView {
        SourceFileBuilderView {
            path: self.path@,
            rename: self.rename.deep_view(),
            symlink: self.symlink.deep_view(),
        }
    }
}

impl SourceFileBuilder {
    /// Specifies a file to be staged into the target directory.
    ///
    /// - `source`: full path of the file to be copied into the target directory
    pub fn new(source: String) -> (builder: Self)
        ensures
            builder@ == (SourceFileBuilderView {
                path: source@,
                rename: None,
                symlink: Seq::<Seq<char>>::empty(),
            }),
    {
        let builder = SourceFileBuilder { path: source, rename: None, symlink: Vec::new() };
        assert(builder@.symlink =~= Seq::<Seq<char>>::empty());
        builder
    }

    /// Specifies the name the target file should be renamed as when copying from the source file.
    /// Default is the filename of the source file.
    pub fn rename(self, filename: Option<String>) -> (builder: Self)
        ensures
            builder@ == (SourceFileBuilderView { rename: filename.deep_view(), ..self@ }),
    {
        let mut builder = self;
        builder.rename = filename;
        builder
    }

    /// Specifies symbolic links to `rename` in the same target directory.
    pub fn push_symlinks(self, symlinks: Vec<String>) -> (builder: Self)
        ensures
            builder@ == (SourceFileBuilderView {
                symlink: self@.symlink + symlinks.deep_view(),
                ..self@
            }),
    {
        let mut builder = self;
        let mut added = symlinks;
        builder.symlink.append(&mut added);
        assert(builder@.symlink =~= self@.symlink + symlinks.deep_view());
        builder
    }

    /// Resolve a specification for a given `target_dir`.
    pub fn resolve(self, target_dir: &str) -> (r: Result<SourceFile, Errors>)
        ensures
            surfaced(r, self@.resolved(target_dir@)),
    {
        self.resolve_for(target_dir)
    }

    fn resolve_for(&self, target_dir: &str) -> (r: Result<SourceFile, Errors>)
        ensures
            surfaced(r, self@.resolved(target_dir@)),
    {
        if !is_absolute(self.path.as_str()) {
            let mut context = "SourceFile path must be absolute: ".to_owned();
            context.append(quoted(self.path.as_str()).as_str());
            return Err(
                Errors::with_error(ErrorKind::HarvestingFailed.error().set_context(context)),
            );
        }
        let default_name = match file_name(self.path.as_str()) {
            Some(name) => name,
            None => {
                let mut context = "SourceFile is missing a filename: ".to_owned();
                context.append(quoted(self.path.as_str()).as_str());
                return Err(
                    Errors::with_error(ErrorKind::HarvestingFailed.error().set_context(context)),
                );
            },
        };
        let name = match &self.rename {
            Some(name) => name.clone(),
            None => default_name,
        };
        if !is_file_name(name.as_str()) {
            let mut context = "SourceFile rename must not change directories: ".to_owned();
            context.append(quoted(name.as_str()).as_str());
            return Err(
                Errors::with_error(ErrorKind::HarvestingFailed.error().set_context(context)),
            );
        }
        let dest = join(target_dir, name.as_str());
        let mut symlinks: Vec<String> = Vec::new();
        let mut i: usize = 0;
        while i < self.symlink.len()
            invariant
                i <= self.symlink.len(),
                all_file_names(self@.symlink.take(i as int)),
                symlinks.deep_view() == each_joined(target_dir@, self@.symlink.take(i as int)),
                dest@ == spec_join(target_dir@, name@),
                spec_is_absolute(self@.path),
                spec_file_name(self@.path) is Some,
                spec_is_file_name(name@),
                name@ == match self@.rename {
                    Some(name) => name,
                    None => spec_file_name(self@.path)->0,
                },
            decreases self.symlink.len() - i,
        {
            let alias = &self.symlink[i];
            let ghost before = symlinks.deep_view();
            assert(alias@ == self@.symlink[i as int]);
            if !is_file_name(alias.as_str()) {
                let mut context = "SourceFile symlink must not change directories: ".to_owned();
                context.append(quoted(dest.as_str()).as_str());
                return Err(
                    Errors::with_error(ErrorKind::HarvestingFailed.error().set_context(context)),
                );
            }
            symlinks.push(join(target_dir, alias.as_str()));
            proof {
                let next = self@.symlink.take(i + 1);
                assert(next.drop_last() =~= self@.symlink.take(i as int));
                assert forall|k: int| 0 <= k < next.len() implies spec_is_file_name(
                    #[trigger] next[k],
                ) by {
                    if k < i {
                        assert(self@.symlink.take(i as int)[k] == next[k]);
                    }
                }
                assert(symlinks.deep_view() =~= before.push(spec_join(target_dir@, alias@)));
                assert(symlinks.deep_view() =~= each_joined(target_dir@, next));
            }
            i += 1;
        }
        assert(self@.symlink.take(i as int) =~= self@.symlink);
        let spec = SourceFile { source: self.path.clone(), dest, symlinks };
        Ok(spec)
    }
}

impl SpecificationBuilder for SourceFileBuilder {
    type Spec = SourceFile;

    fn resolve(&self, target_dir: &str) -> (r: Result<SourceFile, Errors>)
        ensures
            surfaced(r, self@.resolved(target_dir@)),
    {
        self.resolve_for(target_dir)
    }
}

/// Specifies a file to be staged into the target directory.
#[derive(Clone, Debug, Eq, PartialEq)]
pub struct SourceFile {
    source: String,
    dest: String,
    symlinks: Vec<String>,
}

/// What a `SourceFile` holds.
pub struct SourceFileView {
    pub source: Seq<char>,
    pub dest: Seq<char>,
    pub symlinks: Seq<Seq<char>>,
}

impl SourceFileView {
    /// What staging asks for: the copy first, then each link, every one of
    /// them to the copy.
    pub open spec fn plan(self) -> Seq<RequestView> {
        seq![RequestView::File { dest: self.dest, src: self.source }] + links_to(
            self.symlinks,
            self.dest,
        )
    }
}

impl View for SourceFile {
    type V = SourceFileView;

    closed spec fn view(&self) -> SourceFileView {
        SourceFileView {
            source: self.source@,
            dest: self.dest@,
            symlinks: self.symlinks.deep_view(),
        }
    }
}

impl SourceFile {
    /// The file to be copied.
    pub fn source(&self) -> (source: &String)
        ensures
            source@ == self@.source,
    {
        &self.source
    }

    /// Where the copy goes.
    pub fn dest(&self) -> (dest: &String)
        ensures
            dest@ == self@.dest,
    {
        &self.dest
    }

    /// Where the links to the copy go.
    pub fn symlinks(&self) -> (symlinks: &Vec<String>)
        ensures
            symlinks.deep_view() == self@.symlinks,
    {
        &self.symlinks
    }

    /// What staging asks for.
    pub fn plan(&self) -> (plan: Vec<Request>)
        ensures
            plan.deep_view() == self@.plan(),
    {
        let mut plan: Vec<Request> = Vec::new();
        plan.push(Request::File { dest: self.dest.clone(), src: self.source.clone() });
        let mut i: usize = 0;
        assert(plan.deep_view() =~= seq![
            RequestView::File { dest: self@.dest, src: self@.source },
        ] + links_to(self@.symlinks.take(0), self@.dest));
        while i < self.symlinks.len()
            invariant
                i <= self.symlinks.len(),
                plan.deep_view() == seq![
                    RequestView::File { dest: self@.dest, src: self@.source },
                ] + links_to(self@.symlinks.take(i as int), self@.dest),
            decreases self.symlinks.len() - i,
        {
            let link = self.symlinks[i].clone();
            let ghost before = plan.deep_view();
            assert(link@ == self@.symlinks[i as int]);
            plan.push(Request::SymlinkFile { path: link, target: self.dest.clone() });
            assert(plan.deep_view() =~= before.push(
                RequestView::SymlinkFile { path: link@, target: self@.dest },
            ));
            assert(plan.deep_view() =~= seq![
                RequestView::File { dest: self@.dest, src: self@.source },
            ] + links_to(self@.symlinks.take(i + 1), self@.dest));
            i += 1;
        }
        assert(self@.symlinks.take(i as int) =~= self@.symlinks);
        plan
    }
}

impl Specification for SourceFile {
    fn stage<S: Staging>(&self, stage: &mut Journal<S>) -> (r: Result<(), Errors>)
        ensures
            old(stage).asked().is_prefix_of(final(stage).asked()),
            staged(
                self@.plan(),
                Ok(()),
                final(stage).asked().skip(old(stage).asked().len() as int),
                r,
            ),
    {
        let plan = self.plan();
        match stage.carry_out(&plan) {
            Ok(_) => Ok(()),
            Err(e) => Err(Errors::with_error(e)),
        }
    }
}

/// Specifies a collection of files to be staged into the target directory.
#[derive(Clone, Debug, Eq, PartialEq)]
pub struct SourceFilesBuilder {
    path: String,
    pattern: Vec<String>,
    follow_links: bool,
    allow_empty: bool,
}

/// What a `SourceFilesBuilder` holds.
pub struct SourceFilesBuilderView {
    pub path: Seq<char>,
    pub pattern: Seq<Seq<char>>,
    pub follow_links: bool,
    pub allow_empty: bool,
}

impl SourceFilesBuilderView {
    /// What the builder resolves to for the directory `target_dir`: the
    /// root must be an absolute path, and nothing else is looked at yet.
    pub open spec fn resolved(self, target_dir: Seq<char>) -> Result<SourceFilesView, StagingErrorView> {
        if !spec_is_absolute(self.path) {
            Err(
                StagingErrorView::told(
                    ErrorKind::HarvestingFailed,
                    "SourceFiles path must be absolute: "@ + debug_text(self.path),
                ),
            )
        } else {
            Ok(
                SourceFilesView {
                    target_dir,
                    path: self.path,
                    pattern: self.pattern,
                    follow_links: self.follow_links,
                    allow_empty: self.allow_empty,
                },
            )
        }
    }
}

impl View for SourceFilesBuilder {
    type V = SourceFilesBuilderView;

    closed spec fn view(&self) -> SourceFilesBuilderView {
        SourceFilesBuilderView {
            path: self.path@,
            pattern: self.pattern.deep_view(),
            follow_links: self.follow_links,
            allow_empty: self.allow_empty,
        }
    }
}

impl SourceFilesBuilder {
    /// Specifies a collection of files to be staged into the target directory.
    ///
    /// - `source`: the root path that `pattern` will be run on to identify files to be copied into
    ///   the target directory.
    pub fn new(source: String) -> (builder: Self)
        ensures
            builder@ == (SourceFilesBuilderView {
                path: source@,
                pattern: Seq::<Seq<char>>::empty(),
                follow_links: false,
                allow_empty: false,
            }),
    {
        let builder = SourceFilesBuilder {
            path: source,
            pattern: Vec::new(),
            follow_links: false,
            allow_empty: false,
        };
        assert(builder@.pattern =~= Seq::<Seq<char>>::empty());
        builder
    }

    /// Specifies the `pattern` for executing the recursive/multifile match.
    ///
    /// `pattern` uses [gitignore][gitignore] syntax.
    ///
    /// [gitignore]: https://git-scm.com/docs/gitignore#_pattern_format
    pub fn push_patterns(self, patterns: Vec<String>) -> (builder: Self)
        ensures
            builder@ == (SourceFilesBuilderView {
                pattern: self@.pattern + patterns.deep_view(),
                ..self@
            }),
    {
        let mut builder = self;
        let mut added = patterns;
        builder.pattern.append(&mut added);
        assert(builder@.pattern =~= self@.pattern + patterns.deep_view());
        builder
    }

    /// When true, symbolic links are followed as if they were normal directories and files.
    /// If a symbolic link is broken or is involved in a loop, an error is yielded.
    pub fn follow_links(self, yes: bool) -> (builder: Self)
        ensures
            builder@ == (SourceFilesBuilderView { follow_links: yes, ..self@ }),
    {
        let mut builder = self;
        builder.follow_links = yes;
        builder
    }

    /// Toggles whether no results for the pattern constitutes an error.
    ///
    /// Generally, the default of `false` is best because it makes mistakes more obvious.  An
    /// example of when no results are acceptable is a default staging configuration that
    /// implements a lot of default "good enough" policy.
    pub fn allow_empty(self, yes: bool) -> (builder: Self)
        ensures
            builder@ == (SourceFilesBuilderView { allow_empty: yes, ..self@ }),
    {
        let mut builder = self;
        builder.allow_empty = yes;
        builder
    }

    /// Resolve a specification for a given `target_dir`.
    pub fn resolve(self, target_dir: &str) -> (r: Result<SourceFiles, Errors>)
        ensures
            surfaced(r, self@.resolved(target_dir@)),
    {
        self.resolve_for(target_dir)
    }

    fn resolve_for(&self, target_dir: &str) -> (r: Result<SourceFiles, Errors>)
        ensures
            surfaced(r, self@.resolved(target_dir@)),
    {
        if !is_absolute(self.path.as_str()) {
            let mut context = "SourceFiles path must be absolute: ".to_owned();
            context.append(quoted(self.path.as_str()).as_str());
            return Err(
                Errors::with_error(ErrorKind::HarvestingFailed.error().set_context(context)),
            );
        }
        let mut pattern: Vec<String> = Vec::new();
        let mut i: usize = 0;
        while i < self.pattern.len()
            invariant
                i <= self.pattern.len(),
                pattern.deep_view() == self@.pattern.take(i as int),
            decreases self.pattern.len() - i,
        {
            let ghost before = pattern.deep_view();
            let item = self.pattern[i].clone();
            assert(item@ == self@.pattern[i as int]);
            pattern.push(item);
            assert(pattern.deep_view() =~= before.push(item@));
            assert(pattern.deep_view() =~= self@.pattern.take(i + 1));
            i += 1;
        }
        assert(self@.pattern.take(i as int) =~= self@.pattern);
        let spec = SourceFiles {
            target_dir: target_dir.to_owned(),
            path: self.path.clone(),
            pattern,
            follow_links: self.follow_links,
            allow_empty: self.allow_empty,
        };
        Ok(spec)
    }
}

impl SpecificationBuilder for SourceFilesBuilder {
    type Spec = SourceFiles;

    fn resolve(&self, target_dir: &str) -> (r: Result<SourceFiles, Errors>)
        ensures
            surfaced(r, self@.resolved(target_dir@)),
    {
        self.resolve_for(target_dir)
    }
}

/// Specifies a collection of files to be staged into the target directory.
#[derive(Clone, Debug, Eq, PartialEq)]
pub struct SourceFiles {
    target_dir: String,
    path: String,
    pattern: Vec<String>,
    follow_links: bool,
    allow_empty: bool,
}

/// What a `SourceFiles` holds.
pub struct SourceFilesView {
    pub target_dir: Seq<char>,
    pub path: Seq<char>,
    pub pattern: Seq<Seq<char>>,
    pub follow_links: bool,
    pub allow_empty: bool,
}

/// The failure of an entry that does not lie below the root of its walk.
pub open spec fn not_below_root() -> StagingErrorView {
    StagingErrorView::caused(ErrorKind::HarvestingFailed, "prefix not found"@)
}

impl SourceFilesView {
    /// What the entries `found` by a walk lead to, taken in order up to the
    /// first that cannot be used: the copies to ask for, and that entry's
    /// failure. Directories are passed over. Each file is copied to where it
    /// lay below the root, now below the target directory. An entry cannot
    /// be used where the walk failed on it or where it does not lie below
    /// the root.
    pub open spec fn gathered(self, found: Seq<WalkedView>) -> (Seq<RequestView>, Option<StagingErrorView>)
        decreases found.len(),
    {
        if found.len() == 0 {
            (Seq::<RequestView>::empty(), None)
        } else {
            let (copies, failure) = self.gathered(found.drop_last());
            if failure is Some {
                (copies, failure)
            } else {
                match found.last() {
                    WalkedView::Failed { error } => (copies, Some(error)),
                    WalkedView::Entry { path, is_dir } => if is_dir {
                        (copies, None)
                    } else {
                        match spec_strip_prefix(path, self.path) {
                            None => (copies, Some(not_below_root())),
                            Some(below) => (
                                copies.push(
                                    RequestView::File {
                                        dest: spec_join(self.target_dir, below),
                                        src: path,
                                    },
                                ),
                                None,
                            ),
                        }
                    },
                }
            }
        }
    }

    /// The copies to ask for, given what a walk found.
    pub open spec fn plan(self, found: Seq<WalkedView>) -> Seq<RequestView> {
        self.gathered(found).0
    }

    /// The failure of a walk that came upon no file.
    pub open spec fn nothing_found(self) -> StagingErrorView {
        StagingErrorView::told(
            ErrorKind::HarvestingFailed,
            "SourceFiles found no files under "@ + debug_text(self.path) + " with patterns "@
                + debug_list(self.pattern),
        )
    }

    /// Whether the outcomes `done` and the result `r` are what staging may
    /// come to. Staging walks the root, so this depends on what the walk
    /// finds: `done` and `r` are what comes of staging some outcome of the
    /// walk; or, where the patterns are refused, nothing is asked of the stage
    /// and `r` is that failure of harvesting.
    pub open spec fn stages(self, done: Seq<Outcome>, r: Result<(), Errors>) -> bool {
        ||| exists|found: Seq<WalkedView>|
            harvested(found) && staged(#[trigger] self.plan(found), self.ending(found), done, r)
        ||| (done.len() == 0 && (r matches Err(errors) && errors@.len() == 1 && harvest_failure(
            errors@[0],
        )))
    }

    /// How staging ends where the stage refuses nothing: with the failure of
    /// the first entry that cannot be used; else, where no file was found
    /// and that is not allowed, with that failure; else well.
    pub open spec fn ending(self, found: Seq<WalkedView>) -> Result<(), StagingErrorView> {
        let (copies, failure) = self.gathered(found);
        if failure is Some {
            Err(failure->0)
        } else if copies.len() == 0 && !self.allow_empty {
            Err(self.nothing_found())
        } else {
            Ok(())
        }
    }
}

impl View for SourceFiles {
    type V = SourceFilesView;

    closed spec fn view(&self) -> SourceFilesView {
        SourceFilesView {
            target_dir: self.target_dir@,
            path: self.path@,
            pattern: self.pattern.deep_view(),
            follow_links: self.follow_links,
            allow_empty: self.allow_empty,
        }
    }
}

impl SourceFiles {
    /// The directory of the stage that the files go to.
    pub fn target_dir(&self) -> (target_dir: &String)
        ensures
            target_dir@ == self@.target_dir,
    {
        &self.target_dir
    }

    /// The root of the walk.
    pub fn path(&self) -> (path: &String)
        ensures
            path@ == self@.path,
    {
        &self.path
    }

    /// The patterns that a file must match.
    pub fn pattern(&self) -> (pattern: &Vec<String>)
        ensures
            pattern.deep_view() == self@.pattern,
    {
        &self.pattern
    }

    /// Whether the walk follows symbolic links.
    pub fn follows_links(&self) -> (yes: bool)
        ensures
            yes == self@.follow_links,
    {
        self.follow_links
    }

    /// Whether a walk that comes upon no file is accepted.
    pub fn allows_empty(&self) -> (yes: bool)
        ensures
            yes == self@.allow_empty,
    {
        self.allow_empty
    }

    /// The copies to ask for, given what a walk found, and the failure of
    /// the first entry that cannot be used.
    pub fn gather(&self, found: &Vec<Walked>) -> (r: (Vec<Request>, Option<StagingError>))
        ensures
            (r.0.deep_view(), r.1.deep_view()) == self@.gathered(found.deep_view()),
    {
        let mut copies: Vec<Request> = Vec::new();
        let mut i: usize = 0;
        assert(found.deep_view().take(0) =~= Seq::<WalkedView>::empty());
        assert(copies.deep_view() =~= Seq::<RequestView>::empty());
        while i < found.len()
            invariant
                i <= found.len(),
                (copies.deep_view(), None::<StagingErrorView>) == self@.gathered(
                    found.deep_view().take(i as int),
                ),
            decreases found.len() - i,
        {
            proof {
                let next = found.deep_view().take(i + 1);
                assert(next.drop_last() =~= found.deep_view().take(i as int));
                assert(next.last() == found[i as int]@);
            }
            match &found[i] {
                Walked::Failed { error } => {
                    let failure = error.clone();
                    proof {
                        self.lemma_gathered_stays(found.deep_view(), i + 1);
                    }
                    return (copies, Some(failure));
                },
                Walked::Entry { path, is_dir } => {
                    if !*is_dir {
                        match strip_prefix(path.as_str(), self.path.as_str()) {
                            None => {
                                let failure = ErrorKind::HarvestingFailed.error().set_cause(
                                    "prefix not found".to_owned(),
                                );
                                proof {
                                    self.lemma_gathered_stays(found.deep_view(), i + 1);
                                }
                                return (copies, Some(failure));
                            },
                            Some(below) => {
                                let ghost before = copies.deep_view();
                                let dest = join(self.target_dir.as_str(), below.as_str());
                                copies.push(Request::File { dest, src: path.clone() });
                                assert(copies.deep_view() =~= before.push(
                                    RequestView::File {
                                        dest: spec_join(self@.target_dir, below@),
                                        src: path@,
                                    },
                                ));
                            },
                        }
                    }
                },
            }
            i += 1;
        }
        assert(found.deep_view().take(i as int) =~= found.deep_view());
        (copies, None)
    }

    /// Once an entry cannot be used, the entries after it change nothing.
    proof fn lemma_gathered_stays(&self, found: Seq<WalkedView>, upto: int)
        requires
            0 <= upto <= found.len(),
            self@.gathered(found.take(upto)).1 is Some,
        ensures
            self@.gathered(found) == self@.gathered(found.take(upto)),
        decreases found.len(),
    {
        if upto < found.len() {
            assert(found.drop_last().take(upto) =~= found.take(upto));
            self.lemma_gathered_stays(found.drop_last(), upto);
        } else {
            assert(found.take(upto) =~= found);
        }
    }

    /// Stages what a walk `found`: asks the stage for the copies in order
    /// until it refuses one, then ends as the entries say.
    pub fn stage_found<S: Staging>(&self, found: &Vec<Walked>, stage: &mut Journal<S>) -> (r: Result<
        (),
        Errors,
    >)
        ensures
            old(stage).asked().is_prefix_of(final(stage).asked()),
            staged(
                self@.plan(found.deep_view()),
                self@.ending(found.deep_view()),
                final(stage).asked().skip(old(stage).asked().len() as int),
                r,
            ),
    {
        let (copies, failure) = self.gather(found);
        match stage.carry_out(&copies) {
            Ok(_) => {},
            Err(e) => {
                return Err(Errors::with_error(e));
            },
        }
        match failure {
            Some(e) => Err(Errors::with_error(e)),
            None => if copies.len() == 0 && !self.allow_empty {
                let mut context = "SourceFiles found no files under ".to_owned();
                context.append(quoted(self.path.as_str()).as_str());
                context.append(" with patterns ");
                context.append(quoted_list(&self.pattern).as_str());
                Err(Errors::with_error(ErrorKind::HarvestingFailed.error().set_context(context)))
            } else {
                Ok(())
            },
        }
    }
}

impl Specification for SourceFiles {
    /// Walks the root for the files that match, then stages what was found.
    /// Where the patterns are refused nothing is asked of the stage.
    fn stage<S: Staging>(&self, stage: &mut Journal<S>) -> (r: Result<(), Errors>)
        ensures
            old(stage).asked().is_prefix_of(final(stage).asked()),
            self@.stages(final(stage).asked().skip(old(stage).asked().len() as int), r),
    {
        match harvest(self.path.as_str(), &self.pattern, self.follow_links) {
            Ok(found) => {
                let r = self.stage_found(&found, stage);
                assert(staged(
                    self@.plan(found.deep_view()),
                    self@.ending(found.deep_view()),
                    stage.asked().skip(old(stage).asked().len() as int),
                    r,
                ));
                r
            },
            Err(e) => {
                assert(stage.asked().skip(old(stage).asked().len() as int).len() == 0);
                Err(Errors::with_error(e))
            },
        }
    }
}

/// Specifies a symbolic link file to be staged into the target directory.
#[derive(Clone, Debug, Eq, PartialEq)]
pub struct SymlinkBuilder {
    target: String,
    rename: Option<String>,
}

/// What a `SymlinkBuilder` holds.
pub struct SymlinkBuilderView {
    pub target: Seq<char>,
    pub rename: Option<Seq<char>>,
}

impl SymlinkBuilderView {
    /// What the builder resolves to for the directory `target_dir`.
    ///
    /// The target must have a file name. The link is named by `rename`, else
    /// as the target is, and the name must be a file name. The link then
    /// lies in `target_dir` and points to the target as it was given.
    pub open spec fn resolved(self, target_dir: Seq<char>) -> Result<SymlinkView, StagingErrorView> {
        if spec_file_name(self.target) is None {
            Err(
                StagingErrorView::told(
                    ErrorKind::HarvestingFailed,
                    "Symlink target has no file name: "@ + self.target,
                ),
            )
        } else {
            let name = match self.rename {
                Some(name) => name,
                None => spec_file_name(self.target)->0,
            };
            if !spec_is_file_name(name) {
                Err(
                    StagingErrorView::told(
                        ErrorKind::HarvestingFailed,
                        "Symlink rename must not change directories: "@ + debug_text(name),
                    ),
                )
            } else {
                Ok(SymlinkView { path: spec_join(target_dir, name), target: self.target })
            }
        }
    }
}

impl View for SymlinkBuilder {
    type V = SymlinkBuilderView;

    closed spec fn view(&self) -> SymlinkBuilderView {
        SymlinkBuilderView { target: self.target@, rename: self.rename.deep_view() }
    }
}

impl SymlinkBuilder {
    /// Specifies a symbolic link file to be staged into the target directory.
    ///
    /// - `target`: The literal path for the target to point to.
    pub fn new(target: String) -> (builder: Self)
        ensures
            builder@ == (SymlinkBuilderView { target: target@, rename: None }),
    {
        SymlinkBuilder { target, rename: None }
    }

    /// Specifies the name the symlink should be given.
    /// Default is the filename of the `target`.
    pub fn rename(self, filename: Option<String>) -> (builder: Self)
        ensures
            builder@ == (SymlinkBuilderView { rename: filename.deep_view(), ..self@ }),
    {
        let mut builder = self;
        builder.rename = filename;
        builder
    }

    /// Resolve a specification for a given `target_dir`.
    pub fn resolve(self, target_dir: &str) -> (r: Result<Symlink, Errors>)
        ensures
            surfaced(r, self@.resolved(target_dir@)),
    {
        self.resolve_for(target_dir)
    }

    fn resolve_for(&self, target_dir: &str) -> (r: Result<Symlink, Errors>)
        ensures
            surfaced(r, self@.resolved(target_dir@)),
    {
        let default_name = match file_name(self.target.as_str()) {
            Some(name) => name,
            None => {
                let mut context = "Symlink target has no file name: ".to_owned();
                context.append(self.target.as_str());
                return Err(
                    Errors::with_error(ErrorKind::HarvestingFailed.error().set_context(context)),
                );
            },
        };
        let name = match &self.rename {
            Some(name) => name.clone(),
            None => default_name,
        };
        if !is_file_name(name.as_str()) {
            let mut context = "Symlink rename must not change directories: ".to_owned();
            context.append(quoted(name.as_str()).as_str());
            return Err(
                Errors::with_error(ErrorKind::HarvestingFailed.error().set_context(context)),
            );
        }
        let path = join(target_dir, name.as_str());
        Ok(Symlink { path, target: self.target.clone() })
    }
}

impl SpecificationBuilder for SymlinkBuilder {
    type Spec = Symlink;

    fn resolve(&self, target_dir: &str) -> (r: Result<Symlink, Errors>)
        ensures
            surfaced(r, self@.resolved(target_dir@)),
    {
        self.resolve_for(target_dir)
    }
}

/// Specifies a symbolic link file to be staged into the target directory.
#[derive(Clone, Debug, Eq, PartialEq)]
pub struct Symlink {
    path: String,
    target: String,
}

/// What a `Symlink` holds.
pub struct SymlinkView {
    pub path: Seq<char>,
    pub target: Seq<char>,
}

impl SymlinkView {
    /// What staging asks for: the one link.
    pub open spec fn plan(self) -> Seq<RequestView> {
        seq![RequestView::SymlinkFile { path: self.path, target: self.target }]
    }
}

impl View for Symlink {
    type V = SymlinkView;

    closed spec fn view(&self) -> SymlinkView {
        SymlinkView { path: self.path@, target: self.target@ }
    }
}

impl Symlink {
    /// The path where the link will exist.
    pub fn path(&self) -> (path: &String)
        ensures
            path@ == self@.path,
    {
        &self.path
    }

    /// The location the link points to.
    pub fn target(&self) -> (target: &String)
        ensures
            target@ == self@.target,
    {
        &self.target
    }
}

impl Specification for Symlink {
    fn stage<S: Staging>(&self, stage: &mut Journal<S>) -> (r: Result<(), Errors>)
        ensures
            old(stage).asked().is_prefix_of(final(stage).asked()),
            staged(
                self@.plan(),
                Ok(()),
                final(stage).asked().skip(old(stage).asked().len() as int),
                r,
            ),
    {
        let mut plan: Vec<Request> = Vec::new();
        plan.push(Request::SymlinkFile { path: self.path.clone(), target: self.target.clone() });
        assert(plan.deep_view() =~= self@.plan());
        match stage.carry_out(&plan) {
            Ok(_) => Ok(()),
            Err(e) => Err(Errors::with_error(e)),
        }
    }
}

/// A copy cannot be renamed into another directory: a rename that is no file
/// name fails resolution as a failure of harvesting, so there is nothing to
/// stage.
pub proof fn lemma_rename_stays_in_directory(builder: SourceFileBuilderView, target_dir: Seq<char>)
    requires
        builder.rename matches Some(name) && !spec_is_file_name(name),
    ensures
        builder.resolved(target_dir) matches Err(e) && e.kind == ErrorKind::HarvestingFailed,
{
}

/// What is resolved for a directory within the stage lies within the stage:
/// the copy and each of its links.
pub proof fn lemma_source_file_stays_contained(builder: SourceFileBuilderView, target_dir: Seq<char>)
    requires
        spec_is_contained(target_dir),
        builder.resolved(target_dir) is Ok,
    ensures
        spec_is_contained(builder.resolved(target_dir)->Ok_0.dest),
        forall|i: int|
            0 <= i < builder.resolved(target_dir)->Ok_0.symlinks.len() ==> spec_is_contained(
                #[trigger] builder.resolved(target_dir)->Ok_0.symlinks[i],
            ),
{
    let file = builder.resolved(target_dir)->Ok_0;
    let name = match builder.rename {
        Some(name) => name,
        None => spec_file_name(builder.path)->0,
    };
    lemma_join_stays_contained(target_dir, name);
    assert forall|i: int| 0 <= i < file.symlinks.len() implies spec_is_contained(
        #[trigger] file.symlinks[i],
    ) by {
        lemma_join_stays_contained(target_dir, builder.symlink[i]);
    }
}

/// A link that is resolved for a directory within the stage lies within the
/// stage, wherever it points to.
pub proof fn lemma_symlink_stays_contained(builder: SymlinkBuilderView, target_dir: Seq<char>)
    requires
        spec_is_contained(target_dir),
        builder.resolved(target_dir) is Ok,
    ensures
        spec_is_contained(builder.resolved(target_dir)->Ok_0.path),
{
    let name = match builder.rename {
        Some(name) => name,
        None => spec_file_name(builder.target)->0,
    };
    lemma_join_stays_contained(target_dir, name);
}

/// Staging a file asks for the copy first and then for one link per alias,
/// in order, each from the alias to where the copy went, not to where it
/// came from.
pub proof fn lemma_copy_then_links(file: SourceFileView)
    ensures
        file.plan().len() == 1 + file.symlinks.len(),
        file.plan()[0] == (RequestView::File { dest: file.dest, src: file.source }),
        forall|i: int|
            0 <= i < file.symlinks.len() ==> #[trigger] file.plan()[1 + i]
                == (RequestView::SymlinkFile { path: file.symlinks[i], target: file.dest }),
{
}

/// Where a walk comes upon no file, staging asks for nothing. It then
/// succeeds where that is allowed and fails as a failure of harvesting where
/// it is not.
pub proof fn lemma_no_file_found(
    files: SourceFilesView,
    found: Seq<WalkedView>,
    done: Seq<Outcome>,
    r: Result<(), Errors>,
)
    requires
        forall|i: int|
            0 <= i < found.len() ==> (#[trigger] found[i]) matches WalkedView::Entry {
                is_dir: true,
                ..
            },
        staged(files.plan(found), files.ending(found), done, r),
    ensures
        done.len() == 0,
        files.allow_empty ==> r is Ok,
        !files.allow_empty ==> (r matches Err(errors) && errors@ == seq![files.nothing_found()])
            && files.nothing_found().kind == ErrorKind::HarvestingFailed,
{
    lemma_only_directories(files, found);
}

/// Directories alone lead to no copy and to no failure.
proof fn lemma_only_directories(files: SourceFilesView, found: Seq<WalkedView>)
    requires
        forall|i: int|
            0 <= i < found.len() ==> (#[trigger] found[i]) matches WalkedView::Entry {
                is_dir: true,
                ..
            },
    ensures
        files.gathered(found) == (Seq::<RequestView>::empty(), None::<StagingErrorView>),
    decreases found.len(),
{
    if found.len() > 0 {
        let init = found.drop_last();
        assert forall|i: int| 0 <= i < init.len() implies (#[trigger] init[i]) matches WalkedView::Entry {
            is_dir: true,
            ..
        } by {
            assert(init[i] == found[i]);
        }
        lemma_only_directories(files, init);
        assert(found.last() == found[found.len() - 1]);
    }
}

/// A link that is not renamed is named as its target is, and points to the
/// target exactly as it was written.
pub proof fn lemma_link_named_as_target(builder: SymlinkBuilderView, target_dir: Seq<char>)
    requires
        builder.rename is None,
        builder.resolved(target_dir) is Ok,
    ensures
        spec_file_name(builder.resolved(target_dir)->Ok_0.path) == spec_file_name(builder.target),
        builder.resolved(target_dir)->Ok_0.target == builder.target,
        builder.resolved(target_dir)->Ok_0.plan() == seq![
            RequestView::SymlinkFile {
                path: builder.resolved(target_dir)->Ok_0.path,
                target: builder.target,
            },
        ],
{
    let name = spec_file_name(builder.target)->0;
    lemma_file_name_of_join(target_dir, name);
}

} // verus!

//! High-level requirements for staging files.
//!
//! A builder says what should appear in a directory; building it for a
//! target directory gives the actions on the filesystem that put it there.
//! A `Stage` holds builders for many directories and builds them all,
//! gathering every failure on the way.
use vstd::prelude::*;
use crate::action::Action;
use crate::action::ActionView;
use crate::action::CopyFile;
use crate::action::FsAction;
use crate::action::Symlink as SymlinkAction;
use crate::error::combine;
use crate::error::combined;
use crate::error::ErrorKind;
use crate::error::Errors;
use crate::error::StagingErrorView;
use crate::harvest::harvest;
use crate::harvest::harvest_failure;
use crate::harvest::harvested;
use crate::harvest::Walked;
use crate::harvest::WalkedView;
use crate::text::debug_list;
use crate::text::debug_text;
use crate::path::file_name;
use crate::path::is_absolute;
use crate::path::is_file_name;
use crate::path::join;
use crate::text::quoted;
use crate::text::quoted_list;
use crate::path::spec_file_name;
use crate::path::spec_is_absolute;
use crate::path::spec_is_file_name;
use crate::path::spec_join;
use crate::path::spec_strip_prefix;
use crate::path::strip_prefix;
use crate::spec::all_file_names;
use crate::spec::not_below_root;
use crate::spec::SourceFileBuilderView;
use crate::spec::SourceFilesBuilderView;
use crate::spec::SymlinkBuilderView;
use crate::targets::Targets;
use crate::targets::keys_with;
use crate::targets::names_of_all;
use crate::targets::contents_of_all;
use crate::targets::values_with;

verus! {

/// Create concrete filesystem actions.
pub trait ActionBuilder {
    /// Whether `r` is something that building for `target_dir` may give.
    spec fn builds(&self, target_dir: Seq<char>, r: Result<Vec<Action>, Errors>) -> bool;

    /// Create concrete filesystem actions.
    ///
    /// - `target_dir`: The location everything will be written to (ie the stage).
    fn build(&self, target_dir: &str) -> (r: Result<Vec<Action>, Errors>)
        ensures
            self.builds(target_dir@, r),
    ;
}

/// What each of `actions` is.
pub open spec fn shapes(actions: Seq<Action>) -> Seq<ActionView> {
    Seq::new(actions.len(), |i: int| actions[i].shape())
}

/// Whether `r` is the outcome `expected`, a failure being surfaced as a
/// batch of its own.
pub open spec fn built_as(
    r: Result<Vec<Action>, Errors>,
    expected: Result<Seq<ActionView>, StagingErrorView>,
) -> bool {
    match r {
        Ok(actions) => expected == Ok::<Seq<ActionView>, StagingErrorView>(shapes(actions@)),
        Err(errors) => expected matches Err(e) && errors@ == seq![e],
    }
}

/// The index of the first of `names` that is no file name.
pub open spec fn first_other(names: Seq<Seq<char>>) -> int
    decreases names.len(),
{
    if names.len() == 0 {
        0
    } else if !all_file_names(names.drop_last()) {
        first_other(names.drop_last())
    } else {
        names.len() - 1
    }
}

/// The actions that link each of `names` in the directory `dir` to `target`.
pub open spec fn links_in(dir: Seq<char>, names: Seq<Seq<char>>, target: Seq<char>) -> Seq<ActionView> {
    Seq::new(
        names.len(),
        |i: int| ActionView::Symlink { staged: spec_join(dir, names[i]), target },
    )
}

impl SourceFileBuilderView {
    /// The name of the copy: `rename`, else the file name of the source,
    /// else nothing.
    pub open spec fn copy_name(self) -> Seq<char> {
        match self.rename {
            Some(name) => name,
            None => match spec_file_name(self.path) {
                Some(name) => name,
                None => Seq::<char>::empty(),
            },
        }
    }

    /// The actions that stage the file in the directory `target_dir`: the
    /// copy first, then a link to the copy for each alias.
    ///
    /// The source must be an absolute path, and the name of the copy and
    /// each alias must be file names.
    pub open spec fn built(self, target_dir: Seq<char>) -> Result<Seq<ActionView>, StagingErrorView> {
        let copy_target = spec_join(target_dir, self.copy_name());
        if !spec_is_absolute(self.path) {
            Err(
                StagingErrorView::told(
                    ErrorKind::HarvestingFailed,
                    "SourceFile path must be absolute: "@ + debug_text(self.path),
                ),
            )
        } else if !spec_is_file_name(self.copy_name()) {
            Err(
                StagingErrorView::told(
                    ErrorKind::HarvestingFailed,
                    "SourceFile rename must not change directories: "@ + debug_text(
                        self.copy_name(),
                    ),
                ),
            )
        } else if !all_file_names(self.symlink) {
            Err(
                StagingErrorView::told(
                    ErrorKind::HarvestingFailed,
                    "SourceFile symlink must not change directories: "@ + debug_text(
                        self.symlink[first_other(self.symlink)],
                    ),
                ),
            )
        } else {
            Ok(
                seq![ActionView::CopyFile { staged: copy_target, source: self.path }] + links_in(
                    target_dir,
                    self.symlink,
                    copy_target,
                ),
            )
        }
    }
}

/// Specifies a file to be staged into the target directory.
#[derive(Clone, Debug)]
pub struct SourceFile {
    path: String,
    rename: Option<String>,
    symlink: Vec<String>,
}

impl View for SourceFile {
    type V = SourceFileBuilderView;

    closed spec fn view(&self) -> SourceFileBuilderView {
        SourceFileBuilderView {
            path: self.path@,
            rename: self.rename.deep_view(),
            symlink: self.symlink.deep_view(),
        }
    }
}

impl SourceFile {
    /// Specifies a file to be staged into the target directory.
    ///
    /// - `source`: full path of the file to be copied into the target directory
    pub fn new(source: String) -> (builder: Self)
        ensures
            builder@ == (SourceFileBuilderView {
                path: source@,
                rename: None,
                symlink: Seq::<Seq<char>>::empty(),
            }),
    {
        let builder = SourceFile { path: source, rename: None, symlink: Vec::new() };
        assert(builder@.symlink =~= Seq::<Seq<char>>::empty());
        builder
    }

    /// Specifies the name the target file should be renamed as when copying from the source file.
    /// Default is the filename of the source file.
    pub fn rename(self, filename: Option<String>) -> (builder: Self)
        ensures
            builder@ == (SourceFileBuilderView { rename: filename.deep_view(), ..self@ }),
    {
        let mut builder = self;
        builder.rename = filename;
        builder
    }

    /// Specifies symbolic links to `rename` in the same target directory.
    pub fn push_symlinks(self, symlinks: Vec<String>) -> (builder: Self)
        ensures
            builder@ == (SourceFileBuilderView {
                symlink: self@.symlink + symlinks.deep_view(),
                ..self@
            }),
    {
        let mut builder = self;
        let mut added = symlinks;
        builder.symlink.append(&mut added);
        assert(builder@.symlink =~= self@.symlink + symlinks.deep_view());
        builder
    }
}

impl ActionBuilder for SourceFile {
    open spec fn builds(&self, target_dir: Seq<char>, r: Result<Vec<Action>, Errors>) -> bool {
        built_as(r, self@.built(target_dir))
    }

    fn build(&self, target_dir: &str) -> (r: Result<Vec<Action>, Errors>) {
        if !is_absolute(self.path.as_str()) {
            let mut context = "SourceFile path must be absolute: ".to_owned();
            context.append(quoted(self.path.as_str()).as_str());
            return Err(
                Errors::with_error(ErrorKind::HarvestingFailed.error().set_context(context)),
            );
        }
        let name = match &self.rename {
            Some(name) => name.clone(),
            None => match file_name(self.path.as_str()) {
                Some(name) => name,
                None => String::new(),
            },
        };
        if !is_file_name(name.as_str()) {
            let mut context = "SourceFile rename must not change directories: ".to_owned();
            context.append(quoted(name.as_str()).as_str());
            return Err(
                Errors::with_error(ErrorKind::HarvestingFailed.error().set_context(context)),
            );
        }
        let copy_target = join(target_dir, name.as_str());
        let mut actions: Vec<Action> = Vec::new();
        actions.push(Action::CopyFile(CopyFile::new(copy_target.clone(), self.path.clone())));
        let ghost copy = ActionView::CopyFile { staged: copy_target@, source: self@.path };
        assert(shapes(actions@) =~= seq![copy] + links_in(
            target_dir@,
            self@.symlink.take(0),
            copy_target@,
        ));
        let mut i: usize = 0;
        while i < self.symlink.len()
            invariant
                i <= self.symlink.len(),
                all_file_names(self@.symlink.take(i as int)),
                spec_is_absolute(self@.path),
                spec_is_file_name(self@.copy_name()),
                name@ == self@.copy_name(),
                copy_target@ == spec_join(target_dir@, name@),
                copy == (ActionView::CopyFile { staged: copy_target@, source: self@.path }),
                shapes(actions@) == seq![copy] + links_in(
                    target_dir@,
                    self@.symlink.take(i as int),
                    copy_target@,
                ),
            decreases self.symlink.len() - i,
        {
            let alias = &self.symlink[i];
            assert(alias@ == self@.symlink[i as int]);
            if !is_file_name(alias.as_str()) {
                let mut context = "SourceFile symlink must not change directories: ".to_owned();
                context.append(quoted(alias.as_str()).as_str());
                proof {
                    lemma_first_other(self@.symlink, i as int);
                }
                return Err(
                    Errors::with_error(ErrorKind::HarvestingFailed.error().set_context(context)),
                );
            }
            let ghost before = actions@;
            let sym_target = join(target_dir, alias.as_str());
            actions.push(Action::Symlink(SymlinkAction::new(sym_target, copy_target.clone())));
            proof {
                let next = self@.symlink.take(i + 1);
                assert forall|k: int| 0 <= k < next.len() implies spec_is_file_name(
                    #[trigger] next[k],
                ) by {
                    if k < i {
                        assert(self@.symlink.take(i as int)[k] == next[k]);
                    }
                }
                assert(shapes(actions@) =~= shapes(before).push(
                    ActionView::Symlink {
                        staged: spec_join(target_dir@, alias@),
                        target: copy_target@,
                    },
                ));
                assert(shapes(actions@) =~= seq![copy] + links_in(
                    target_dir@,
                    next,
                    copy_target@,
                ));
            }
            i += 1;
        }
        assert(self@.symlink.take(i as int) =~= self@.symlink);
        Ok(actions)
    }
}

/// The first name that is no file name stands where all before it are file
/// names.
proof fn lemma_first_other(names: Seq<Seq<char>>, at: int)
    requires
        0 <= at < names.len(),
        all_file_names(names.take(at)),
        !spec_is_file_name(names[at]),
    ensures
        first_other(names) == at,
        !all_file_names(names),
    decreases names.len(),
{
    let init = names.drop_last();
    if at < names.len() - 1 {
        assert(init.take(at) =~= names.take(at));
        lemma_first_other(init, at);
    } else {
        assert(init =~= names.take(at));
    }
}

impl SourceFilesBuilderView {
    /// The failure of a walk that came upon no file.
    pub open spec fn no_files(self) -> StagingErrorView {
        StagingErrorView::told(
            ErrorKind::HarvestingFailed,
            "No files found under "@ + debug_text(self.path) + " with patterns "@ + debug_list(
                self.pattern,
            ),
        )
    }

    /// The copies that the entries `found` by a walk lead to, or the
    /// failure of the first entry that cannot be used. Directories are
    /// passed over. Each file is copied to where it lay below the root, now
    /// below `target_dir`.
    pub open spec fn copied(self, target_dir: Seq<char>, found: Seq<WalkedView>) -> Result<
        Seq<ActionView>,
        StagingErrorView,
    >
        decreases found.len(),
    {
        if found.len() == 0 {
            Ok(Seq::<ActionView>::empty())
        } else {
            match self.copied(target_dir, found.drop_last()) {
                Err(e) => Err(e),
                Ok(copies) => match found.last() {
                    WalkedView::Failed { error } => Err(error),
                    WalkedView::Entry { path, is_dir } => if is_dir {
                        Ok(copies)
                    } else {
                        match spec_strip_prefix(path, self.path) {
                            None => Err(not_below_root()),
                            Some(below) => Ok(
                                copies.push(
                                    ActionView::CopyFile {
                                        staged: spec_join(target_dir, below),
                                        source: path,
                                    },
                                ),
                            ),
                        }
                    },
                },
            }
        }
    }

    /// The actions that stage what a walk found in the directory
    /// `target_dir`. The root must be an absolute path, every entry must be
    /// usable, and there must be a file among them unless none is allowed.
    pub open spec fn built(self, target_dir: Seq<char>, found: Seq<WalkedView>) -> Result<
        Seq<ActionView>,
        StagingErrorView,
    > {
        if !spec_is_absolute(self.path) {
            Err(self.not_absolute())
        } else {
            match self.copied(target_dir, found) {
                Err(e) => Err(e),
                Ok(copies) => if copies.len() == 0 && !self.allow_empty {
                    Err(self.no_files())
                } else {
                    Ok(copies)
                },
            }
        }
    }

    /// The failure of a root that is no absolute path.
    pub open spec fn not_absolute(self) -> StagingErrorView {
        StagingErrorView::told(
            ErrorKind::HarvestingFailed,
            "SourceFiles path must be absolute: "@ + debug_text(self.path),
        )
    }
}

/// Specifies a collection of files to be staged into the target directory.
#[derive(Clone, Debug)]
pub struct SourceFiles {
    path: String,
    pattern: Vec<String>,
    follow_links: bool,
    allow_empty: bool,
}

impl View for SourceFiles {
    type V = SourceFilesBuilderView;

    closed spec fn view(&self) -> SourceFilesBuilderView {
        SourceFilesBuilderView {
            path: self.path@,
            pattern: self.pattern.deep_view(),
            follow_links: self.follow_links,
            allow_empty: self.allow_empty,
        }
    }
}

impl SourceFiles {
    /// Specifies a collection of files to be staged into the target directory.
    ///
    /// - `source`: the root path that `pattern` will be run on to identify files to be copied into
    ///   the target directory.
    pub fn new(source: String) -> (builder: Self)
        ensures
            builder@ == (SourceFilesBuilderView {
                path: source@,
                pattern: Seq::<Seq<char>>::empty(),
                follow_links: false,
                allow_empty: false,
            }),
    {
        let builder = SourceFiles {
            path: source,
            pattern: Vec::new(),
            follow_links: false,
            allow_empty: false,
        };
        assert(builder@.pattern =~= Seq::<Seq<char>>::empty());
        builder
    }

    /// Specifies the `pattern` for executing the recursive/multifile match.
    ///
    /// `pattern` uses [gitignore][gitignore] syntax.
    ///
    /// [gitignore]: https://git-scm.com/docs/gitignore#_pattern_format
    pub fn push_patterns(self, patterns: Vec<String>) -> (builder: Self)
        ensures
            builder@ == (SourceFilesBuilderView {
                pattern: self@.pattern + patterns.deep_view(),
                ..self@
            }),
    {
        let mut builder = self;
        let mut added = patterns;
        builder.pattern.append(&mut added);
        assert(builder@.pattern =~= self@.pattern + patterns.deep_view());
        builder
    }

    /// When true, symbolic links are followed as if they were normal directories and files.
    /// If a symbolic link is broken or is involved in a loop, an error is yielded.
    pub fn follow_links(self, yes: bool) -> (builder: Self)
        ensures
            builder@ == (SourceFilesBuilderView { follow_links: yes, ..self@ }),
    {
        let mut builder = self;
        builder.follow_links = yes;
        builder
    }

    /// Toggles whether no results for the pattern constitutes an error.
    ///
    /// Generally, the default of `false` is best because it makes mistakes more obvious.  An
    /// example of when no results are acceptable is a default staging configuration that
    /// implements a lot of default "good enough" policy.
    pub fn allow_empty(self, yes: bool) -> (builder: Self)
        ensures
            builder@ == (SourceFilesBuilderView { allow_empty: yes, ..self@ }),
    {
        let mut builder = self;
        builder.allow_empty = yes;
        builder
    }

    /// The actions that stage what a walk `found` in the directory
    /// `target_dir`.
    pub fn build_found(&self, target_dir: &str, found: &Vec<Walked>) -> (r: Result<
        Vec<Action>,
        Errors,
    >)
        ensures
            built_as(r, self@.built(target_dir@, found.deep_view())),
    {
        if !is_absolute(self.path.as_str()) {
            let mut context = "SourceFiles path must be absolute: ".to_owned();
            context.append(quoted(self.path.as_str()).as_str());
            return Err(
                Errors::with_error(ErrorKind::HarvestingFailed.error().set_context(context)),
            );
        }
        let mut actions: Vec<Action> = Vec::new();
        let mut i: usize = 0;
        assert(found.deep_view().take(0) =~= Seq::<WalkedView>::empty());
        assert(shapes(actions@) =~= Seq::<ActionView>::empty());
        while i < found.len()
            invariant
                i <= found.len(),
                spec_is_absolute(self@.path),
                self@.copied(target_dir@, found.deep_view().take(i as int)) == Ok::<
                    Seq<ActionView>,
                    StagingErrorView,
                >(shapes(actions@)),
            decreases found.len() - i,
        {
            proof {
                let next = found.deep_view().take(i + 1);
                assert(next.drop_last() =~= found.deep_view().take(i as int));
                assert(next.last() == found[i as int]@);
            }
            match &found[i] {
                Walked::Failed { error } => {
                    let failure = error.clone();
                    proof {
                        self.lemma_copied_stays(target_dir@, found.deep_view(), i + 1);
                    }
                    return Err(Errors::with_error(failure));
                },
                Walked::Entry { path, is_dir } => {
                    if !*is_dir {
                        match strip_prefix(path.as_str(), self.path.as_str()) {
                            None => {
                                let failure = ErrorKind::HarvestingFailed.error().set_cause(
                                    "prefix not found".to_owned(),
                                );
                                proof {
                                    self.lemma_copied_stays(target_dir@, found.deep_view(), i + 1);
                                }
                                return Err(Errors::with_error(failure));
                            },
                            Some(below) => {
                                let ghost before = actions@;
                                let copy_target = join(target_dir, below.as_str());
                                actions.push(Action::CopyFile(CopyFile::new(copy_target, path.clone())));
                                assert(shapes(actions@) =~= shapes(before).push(
                                    ActionView::CopyFile {
                                        staged: spec_join(target_dir@, below@),
                                        source: path@,
                                    },
                                ));
                            },
                        }
                    }
                },
            }
            i += 1;
        }
        assert(found.deep_view().take(i as int) =~= found.deep_view());
        if actions.len() == 0 && !self.allow_empty {
            let mut context = "No files found under ".to_owned();
            context.append(quoted(self.path.as_str()).as_str());
            context.append(" with patterns ");
            context.append(quoted_list(&self.pattern).as_str());
            return Err(
                Errors::with_error(ErrorKind::HarvestingFailed.error().set_context(context)),
            );
        }
        Ok(actions)
    }

    /// Once an entry cannot be used, the entries after it change nothing.
    proof fn lemma_copied_stays(&self, target_dir: Seq<char>, found: Seq<WalkedView>, upto: int)
        requires
            0 <= upto <= found.len(),
            self@.copied(target_dir, found.take(upto)) is Err,
        ensures
            self@.copied(target_dir, found) == self@.copied(target_dir, found.take(upto)),
        decreases found.len(),
    {
        if upto < found.len() {
            assert(found.drop_last().take(upto) =~= found.take(upto));
            self.lemma_copied_stays(target_dir, found.drop_last(), upto);
        } else {
            assert(found.take(upto) =~= found);
        }
    }
}

impl ActionBuilder for SourceFiles {
    /// Building walks the root, so what it gives depends on what the walk
    /// finds: it is what `built` says for some outcome of the walk, or, where
    /// the patterns are refused, that failure of harvesting.
    open spec fn builds(&self, target_dir: Seq<char>, r: Result<Vec<Action>, Errors>) -> bool {
        ||| exists|found: Seq<WalkedView>|
            harvested(found) && built_as(r, #[trigger] self@.built(target_dir, found))
        ||| (spec_is_absolute(self@.path) && (r matches Err(errors) && errors@.len() == 1
            && harvest_failure(errors@[0])))
    }

    fn build(&self, target_dir: &str) -> (r: Result<Vec<Action>, Errors>) {
        if !is_absolute(self.path.as_str()) {
            let found: Vec<Walked> = Vec::new();
            assert(harvested(found.deep_view()));
            let r = self.build_found(target_dir, &found);
            assert(built_as(r, self@.built(target_dir@, found.deep_view())));
            return r;
        }
        match harvest(self.path.as_str(), &self.pattern, self.follow_links) {
            Ok(found) => {
                let r = self.build_found(target_dir, &found);
                assert(built_as(r, self@.built(target_dir@, found.deep_view())));
                r
            },
            Err(e) => Err(Errors::with_error(e)),
        }
    }
}

impl SymlinkBuilderView {
    /// The name of the link: `rename`, else the file name of the target,
    /// else nothing.
    pub open spec fn link_name(self) -> Seq<char> {
        match self.rename {
            Some(name) => name,
            None => match spec_file_name(self.target) {
                Some(name) => name,
                None => Seq::<char>::empty(),
            },
        }
    }

    /// The action that stages the link in the directory `target_dir`. The
    /// name of the link must be a file name; the target is kept as given.
    pub open spec fn built(self, target_dir: Seq<char>) -> Result<Seq<ActionView>, StagingErrorView> {
        if !spec_is_file_name(self.link_name()) {
            Err(
                StagingErrorView::told(
                    ErrorKind::HarvestingFailed,
                    "Symlink rename must not change directories: "@ + debug_text(
                        self.link_name(),
                    ),
                ),
            )
        } else {
            Ok(
                seq![
                    ActionView::Symlink {
                        staged: spec_join(target_dir, self.link_name()),
                        target: self.target,
                    },
                ],
            )
        }
    }
}

/// Specifies a symbolic link file to be staged into the target directory.
#[derive(Clone, Debug)]
pub struct Symlink {
    target: String,
    rename: Option<String>,
}

impl View for Symlink {
    type V = SymlinkBuilderView;

    closed spec fn view(&self) -> SymlinkBuilderView {
        SymlinkBuilderView { target: self.target@, rename: self.rename.deep_view() }
    }
}

impl Symlink {
    /// Specifies a symbolic link file to be staged into the target directory.
    ///
    /// - `target`: The literal path for the target to point to.
    pub fn new(target: String) -> (builder: Self)
        ensures
            builder@ == (SymlinkBuilderView { target: target@, rename: None }),
    {
        Symlink { target, rename: None }
    }

    /// Specifies the name the symlink should be given.
    /// Default is the filename of the `target`.
    pub fn rename(self, filename: Option<String>) -> (builder: Self)
        ensures
            builder@ == (SymlinkBuilderView { rename: filename.deep_view(), ..self@ }),
    {
        let mut builder = self;
        builder.rename = filename;
        builder
    }
}

impl ActionBuilder for Symlink {
    open spec fn builds(&self, target_dir: Seq<char>, r: Result<Vec<Action>, Errors>) -> bool {
        built_as(r, self@.built(target_dir))
    }

    fn build(&self, target_dir: &str) -> (r: Result<Vec<Action>, Errors>) {
        let name = match &self.rename {
            Some(name) => name.clone(),
            None => match file_name(self.target.as_str()) {
                Some(name) => name,
                None => String::new(),
            },
        };
        if !is_file_name(name.as_str()) {
            let mut context = "Symlink rename must not change directories: ".to_owned();
            context.append(quoted(name.as_str()).as_str());
            return Err(
                Errors::with_error(ErrorKind::HarvestingFailed.error().set_context(context)),
            );
        }
        let staged = join(target_dir, name.as_str());
        let mut actions: Vec<Action> = Vec::new();
        actions.push(Action::Symlink(SymlinkAction::new(staged, self.target.clone())));
        assert(shapes(actions@) =~= seq![
            ActionView::Symlink {
                staged: spec_join(target_dir@, self@.link_name()),
                target: self@.target,
            },
        ]);
        Ok(actions)
    }
}

/// The failure of a target that is no path within the stage.
pub open spec fn not_relative(target: Seq<char>) -> StagingErrorView {
    StagingErrorView::told(
        ErrorKind::InvalidConfiguration,
        "target must be relative to the stage root: "@ + debug_text(target),
    )
}

/// Whether `r` is something that building `sources` for the directory
/// `target` of the stage at `target_dir` may give. An absolute `target` is
/// refused outright. Else every source is built for the directory, whatever
/// comes of the others, and `r` is what their results amount to together.
pub open spec fn target_builds(
    target: Seq<char>,
    sources: Seq<Box<dyn ActionBuilder>>,
    target_dir: Seq<char>,
    r: Result<Vec<Action>, Errors>,
) -> bool {
    if spec_is_absolute(target) {
        r matches Err(errors) && errors@ == seq![not_relative(target)]
    } else {
        exists|results: Seq<Result<Vec<Action>, Errors>>|
            {
                &&& results.len() == sources.len()
                &&& forall|i: int|
                    0 <= i < sources.len() ==> (#[trigger] sources[i]).builds(
                        spec_join(target_dir, target),
                        results[i],
                    )
                &&& #[trigger] combined(results, r)
            }
    }
}

/// For each stage target, a list of sources to populate it with.
///
/// The target is a path relative to the stage root.
pub struct Stage(Targets<Vec<Box<dyn ActionBuilder>>>);

impl Stage {
    /// The targets, in the order of their names.
    pub closed spec fn targets(&self) -> Seq<Seq<char>> {
        self.0.keys()
    }

    /// The sources of each target, in the order of `targets`.
    pub closed spec fn sources(&self) -> Seq<Vec<Box<dyn ActionBuilder>>> {
        self.0.values()
    }

    /// A stage without targets.
    pub fn new() -> (stage: Self)
        ensures
            stage.targets() == Seq::<Seq<char>>::empty(),
            stage.sources() == Seq::<Vec<Box<dyn ActionBuilder>>>::empty(),
    {
        Stage(Targets::new())
    }

    /// The stage of `entries`: each target with the sources that the last
    /// entry of its name gives it.
    pub fn from_iter(entries: Vec<(String, Vec<Box<dyn ActionBuilder>>)>) -> (stage: Self)
        ensures
            stage.targets() == names_of_all(entries@),
            stage.sources() == contents_of_all(entries@),
    {
        Stage(Targets::from_iter(entries))
    }

    /// Populates `target` with `sources`, in place of any sources that it
    /// had.
    pub fn insert(self, target: String, sources: Vec<Box<dyn ActionBuilder>>) -> (stage: Self)
        ensures
            stage.targets() == keys_with(self.targets(), target@),
            stage.sources() == values_with(self.targets(), self.sources(), target@, sources),
    {
        Stage(self.0.insert(target, sources))
    }

    /// How many targets there are.
    pub fn len(&self) -> (n: usize)
        ensures
            n == self.targets().len(),
            n == self.sources().len(),
    {
        self.0.len()
    }

    /// The name of the target at `index`.
    pub fn target(&self, index: usize) -> (target: &String)
        requires
            index < self.targets().len(),
        ensures
            target@ == self.targets()[index as int],
    {
        self.0.key(index)
    }

    /// The sources of the target at `index`.
    pub fn sources_of(&self, index: usize) -> (sources: &Vec<Box<dyn ActionBuilder>>)
        requires
            index < self.sources().len(),
        ensures
            *sources == self.sources()[index as int],
    {
        self.0.value(index)
    }

    /// Builds the sources of the target at `index`.
    fn build_target(&self, index: usize, target_dir: &str) -> (r: Result<
        Vec<Action>,
        Errors,
    >)
        requires
            index < self.targets().len(),
        ensures
            target_builds(
                self.targets()[index as int],
                self.sources()[index as int]@,
                target_dir@,
                r,
            ),
    {
        let n = self.0.len();
        let target = self.0.key(index);
        let sources = self.0.value(index);
        if is_absolute(target.as_str()) {
            let mut context = "target must be relative to the stage root: ".to_owned();
            context.append(quoted(target.as_str()).as_str());
            return Err(
                Errors::with_error(ErrorKind::InvalidConfiguration.error().set_context(context)),
            );
        }
        let dir = join(target_dir, target.as_str());
        let mut results: Vec<Result<Vec<Action>, Errors>> = Vec::new();
        let mut i: usize = 0;
        while i < sources.len()
            invariant
                i <= sources.len(),
                results.len() == i,
                dir@ == spec_join(target_dir@, target@),
                forall|k: int|
                    0 <= k < i ==> (#[trigger] sources@[k]).builds(
                        spec_join(target_dir@, target@),
                        results@[k],
                    ),
            decreases sources.len() - i,
        {
            let r = sources[i].build(dir.as_str());
            results.push(r);
            i += 1;
        }
        let ghost all = results@;
        let r = combine(results);
        assert(combined(all, r));
        r
    }
}

impl Default for Stage {
    /// A stage without targets.
    fn default() -> (stage: Stage)
        ensures
            stage.targets() == Seq::<Seq<char>>::empty(),
    {
        Stage::new()
    }
}

impl ActionBuilder for Stage {
    /// Every target is built, whatever comes of the others, and the result
    /// is what the results of the targets amount to together.
    open spec fn builds(&self, target_dir: Seq<char>, r: Result<Vec<Action>, Errors>) -> bool {
        exists|results: Seq<Result<Vec<Action>, Errors>>|
            {
                &&& results.len() == self.targets().len()
                &&& forall|t: int|
                    0 <= t < results.len() ==> target_builds(
                        self.targets()[t],
                        self.sources()[t]@,
                        target_dir,
                        #[trigger] results[t],
                    )
                &&& #[trigger] combined(results, r)
            }
    }

    fn build(&self, target_dir: &str) -> (r: Result<Vec<Action>, Errors>) {
        let mut results: Vec<Result<Vec<Action>, Errors>> = Vec::new();
        let mut t: usize = 0;
        let n = self.len();
        while t < n
            invariant
                t <= n,
                n == self.targets().len(),
                n == self.sources().len(),
                results.len() == t,
                forall|k: int|
                    0 <= k < t ==> target_builds(
                        self.targets()[k],
                        self.sources()[k]@,
                        target_dir@,
                        #[trigger] results@[k],
                    ),
            decreases n - t,
        {
            let r = self.build_target(t, target_dir);
            results.push(r);
            t += 1;
        }
        let ghost all = results@;
        let r = combine(results);
        assert(combined(all, r));
        r
    }
}

} // verus!

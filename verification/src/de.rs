//! Composable file format for staging files.
//!
//! `MapStage` is the recommended top-level staging configuration to include
//! in a packaging configuration struct. If you need additional sources, you
//! might want to consider replacing `MapStage` and `Source`, reusing the rest.
//!
//! Every path in the configuration is a template. Templates are rendered by
//! an engine that the caller hands in: a function from a template to the text
//! it stands for, or to a failure. Targets are written as absolute paths, with
//! the stage as their root.
use vstd::prelude::*;
use crate::error::combine;
use crate::error::combined;
use crate::error::gather;
use crate::error::gathered;
use crate::error::lemma_combined_itself;
use crate::error::lemma_combined_one_failed;
use crate::error::settle;
use crate::error::settled;
use crate::error::ErrorKind;
use crate::error::Errors;
use crate::error::StagingError;
use crate::error::StagingErrorView;
use crate::path::components;
use crate::text::debug_text;
use crate::path::dotdot;
use crate::path::is_absolute;
use crate::path::join;
use crate::path::joined;
use crate::path::counted;
use crate::path::depth;
use crate::path::lemma_components_are_names;
use crate::path::lemma_joined_reads_back;
use crate::path::lemma_resolved_iff_never_above;
use crate::path::lemma_resolved_keeps_names;
use crate::path::lemma_resolved_stays_none;
use crate::path::segments;
use crate::path::spec_is_file_name;
use crate::text::quoted;
use crate::path::resolved;
use crate::path::spec_components;
use crate::path::spec_is_absolute;
use crate::path::spec_is_contained;
use crate::path::spec_join;
use crate::path::spec_joined;
use crate::spec::staged;
use crate::spec::surfaced;
use crate::spec::SourceFileBuilder;
use crate::spec::SourceFileBuilderView;
use crate::spec::SourceFileView;
use crate::spec::SourceFilesBuilder;
use crate::spec::SourceFilesBuilderView;
use crate::spec::SourceFilesView;
use crate::spec::SymlinkBuilder;
use crate::spec::SymlinkBuilderView;
use crate::spec::SymlinkView;
use crate::staging::Journal;
use crate::staging::Outcome;
use crate::staging::Staging;
use crate::targets::contents_of_all;
use crate::targets::keys_with;
use crate::targets::names_of_all;
use crate::targets::values_with;
use crate::targets::Targets;

verus! {

/// The failure of a path that does not start at the root of the stage.
pub open spec fn not_absolute(abs: Seq<char>) -> StagingErrorView {
    StagingErrorView::told(
        ErrorKind::InvalidConfiguration,
        "Path is not absolute (within the stage): "@ + abs,
    )
}

/// The failure of a path that leaves the stage.
pub open spec fn outside_of_root(abs: Seq<char>) -> StagingErrorView {
    StagingErrorView::told(
        ErrorKind::InvalidConfiguration,
        "Path is outside of staging root: "@ + debug_text(abs),
    )
}

/// The path within the stage that `abs` stands for, relative to the root of
/// the stage.
///
/// `abs` must start at the root. Its components are taken in order, each
/// `..` taking back the component before it, and what is left is joined. A
/// `..` with nothing to take back would leave the stage, and is refused.
pub open spec fn spec_abs_to_rel(abs: Seq<char>) -> Result<Seq<char>, StagingErrorView> {
    if !spec_is_absolute(abs) {
        Err(not_absolute(abs))
    } else {
        match resolved(spec_components(abs)) {
            Some(kept) => Ok(spec_joined(kept)),
            None => Err(outside_of_root(abs)),
        }
    }
}

/// The path within the stage that `abs` stands for, relative to the root of
/// the stage.
pub fn abs_to_rel(abs: &str) -> (r: Result<String, StagingError>)
    ensures
        match r {
            Ok(rel) => spec_abs_to_rel(abs@) == Ok::<Seq<char>, StagingErrorView>(rel@),
            Err(e) => spec_abs_to_rel(abs@) == Err::<Seq<char>, StagingErrorView>(e@),
        },
{
    if !is_absolute(abs) {
        let mut context = "Path is not absolute (within the stage): ".to_owned();
        context.append(abs);
        return Err(ErrorKind::InvalidConfiguration.error().set_context(context));
    }
    let parts = components(abs);
    let up = "..".to_owned();
    proof {
        reveal_strlit("..");
        assert(up@ =~= dotdot());
    }
    let ghost all = parts.deep_view();
    let ghost given = parts@;
    let mut kept: Vec<String> = Vec::new();
    assert(all.take(0) =~= Seq::<Seq<char>>::empty());
    assert(kept.deep_view() =~= Seq::<Seq<char>>::empty());
    for part in it: parts
        invariant
            it.seq() == given,
            all.len() == given.len(),
            forall|i: int| 0 <= i < given.len() ==> (#[trigger] given[i])@ == all[i],
            all == spec_components(abs@),
            spec_is_absolute(abs@),
            up@ == dotdot(),
            resolved(all.take(it.index() as int)) == Some(kept.deep_view()),
    {
        proof {
            let next = all.take(it.index() + 1);
            assert(next.drop_last() =~= all.take(it.index() as int));
            assert(next.last() == part@);
        }
        if part == up {
            let ghost before = kept.deep_view();
            match kept.pop() {
                Some(_) => {
                    assert(kept.deep_view() =~= before.drop_last());
                },
                None => {
                    let mut context = "Path is outside of staging root: ".to_owned();
                    context.append(quoted(abs).as_str());
                    proof {
                        lemma_resolved_stays_none(all, it.index() + 1);
                    }
                    return Err(ErrorKind::InvalidConfiguration.error().set_context(context));
                },
            }
        } else {
            let ghost before = kept.deep_view();
            kept.push(part);
            assert(kept.deep_view() =~= before.push(part@));
        }
    }
    assert(all.take(all.len() as int) =~= all);
    Ok(joined(&kept))
}

/// Whatever is refused, is refused as an error in the configuration.
pub proof fn lemma_abs_to_rel_refusal(abs: Seq<char>)
    ensures
        spec_abs_to_rel(abs) matches Err(e) ==> e.kind == ErrorKind::InvalidConfiguration,
        !spec_is_absolute(abs) ==> spec_abs_to_rel(abs) is Err,
{
}

/// A path that is accepted stays within the stage: what it is turned into
/// is a relative path whose components are the names that were left, none
/// of them `..`.
pub proof fn lemma_abs_to_rel_stays_inside(abs: Seq<char>)
    requires
        spec_abs_to_rel(abs) is Ok,
    ensures
        spec_is_contained(spec_abs_to_rel(abs)->Ok_0),
        spec_components(spec_abs_to_rel(abs)->Ok_0) == resolved(spec_components(abs))->0,
{
    let parts = spec_components(abs);
    let kept = resolved(parts)->0;
    lemma_components_are_names(abs);
    lemma_resolved_keeps_names(parts);
    assert forall|i: int| 0 <= i < kept.len() implies spec_is_file_name(#[trigger] kept[i]) by {
        let k = choose|k: int| 0 <= k < parts.len() && parts[k] == kept[i];
        assert(spec_is_file_name(parts[k]) || parts[k] == dotdot());
    }
    if kept.len() > 0 {
        lemma_joined_reads_back(kept);
    } else {
        let nothing = Seq::<char>::empty();
        assert(spec_joined(kept) =~= nothing);
        assert(segments(nothing) =~= seq![nothing]);
        assert(seq![nothing].drop_last() =~= Seq::<Seq<char>>::empty());
        assert(counted(seq![nothing].drop_last()) =~= Seq::<Seq<char>>::empty());
        assert(spec_components(nothing) =~= kept);
    }
}

/// A path from the root is refused exactly when it would leave the stage:
/// when, somewhere along its components, more steps have gone up than down.
pub proof fn lemma_abs_to_rel_refuses_escape(abs: Seq<char>)
    requires
        spec_is_absolute(abs),
    ensures
        spec_abs_to_rel(abs) is Err <==> exists|k: int|
            0 <= k <= spec_components(abs).len() && depth(
                #[trigger] spec_components(abs).take(k),
            ) < 0,
{
    lemma_resolved_iff_never_above(spec_components(abs));
}

/// Whether `engine` may render the template `template` as `text`.
pub open spec fn renders<E: Fn(&String) -> Result<String, StagingError>>(
    engine: E,
    template: Seq<char>,
    text: Seq<char>,
) -> bool {
    exists|given: String, out: String|
        given@ == template && out@ == text && #[trigger] call_ensures(
            engine,
            (&given,),
            Ok::<String, StagingError>(out),
        )
}

/// Whether `engine` may refuse the template `template` with the failure `e`.
pub open spec fn refuses<E: Fn(&String) -> Result<String, StagingError>>(
    engine: E,
    template: Seq<char>,
    e: StagingErrorView,
) -> bool {
    exists|given: String, error: StagingError|
        given@ == template && error@ == e && #[trigger] call_ensures(
            engine,
            (&given,),
            Err::<String, StagingError>(error),
        )
}

/// What an engine may do with the templates it is given: which text it may
/// render a template as, and which failure it may refuse a template with.
pub struct Rendering {
    pub renders: spec_fn(Seq<char>, Seq<char>) -> bool,
    pub refuses: spec_fn(Seq<char>, StagingErrorView) -> bool,
}

/// What `engine` may do with the templates it is given.
pub open spec fn rendering<E: Fn(&String) -> Result<String, StagingError>>(engine: E) -> Rendering {
    Rendering {
        renders: |template: Seq<char>, text: Seq<char>| renders(engine, template, text),
        refuses: |template: Seq<char>, e: StagingErrorView| refuses(engine, template, e),
    }
}

impl Rendering {
    /// Whether each of `templates` may be rendered as the text at its place
    /// in `texts`.
    pub open spec fn renders_each(self, templates: Seq<Seq<char>>, texts: Seq<Seq<char>>) -> bool {
        &&& texts.len() == templates.len()
        &&& forall|i: int|
            0 <= i < templates.len() ==> (self.renders)(#[trigger] templates[i], texts[i])
    }

    /// Whether `template` may be rendered at all.
    pub open spec fn renders_some(self, template: Seq<char>) -> bool {
        exists|text: Seq<char>| #[trigger] (self.renders)(template, text)
    }

    /// Whether each of `templates` may be rendered.
    pub open spec fn renders_all(self, templates: Seq<Seq<char>>) -> bool {
        forall|i: int| 0 <= i < templates.len() ==> self.renders_some(#[trigger] templates[i])
    }

    /// Whether the template `template`, where there is one, may be rendered.
    pub open spec fn renders_any(self, template: Option<Seq<char>>) -> bool {
        template matches Some(template) ==> self.renders_some(template)
    }

    /// Whether one of `templates` may be refused with the failure `e`
    /// after all before it have been rendered.
    pub open spec fn refuses_one(self, templates: Seq<Seq<char>>, e: StagingErrorView) -> bool {
        exists|i: int|
            0 <= i < templates.len() && (self.refuses)(#[trigger] templates[i], e)
                && self.renders_all(templates.take(i))
    }

    /// Whether the template `template`, where there is one, may be rendered
    /// as `text`.
    pub open spec fn renders_if_any(self, template: Option<Seq<char>>, text: Option<Seq<char>>) -> bool {
        match template {
            Some(template) => text matches Some(text) && (self.renders)(template, text),
            None => text is None,
        }
    }
}

/// Renders `template`.
fn render<E: Fn(&String) -> Result<String, StagingError>>(engine: &E, template: &String) -> (r:
    Result<String, StagingError>)
    requires
        forall|t: &String| call_requires(engine, (t,)),
    ensures
        match r {
            Ok(text) => (rendering(engine).renders)(template@, text@),
            Err(e) => (rendering(engine).refuses)(template@, e@),
        },
{
    let r = engine(template);
    assert(call_ensures(engine, (template,), r));
    r
}

/// Renders `templates` in order, up to the first that is refused.
fn render_each<E: Fn(&String) -> Result<String, StagingError>>(
    engine: &E,
    templates: &Vec<String>,
) -> (r: Result<Vec<String>, StagingError>)
    requires
        forall|t: &String| call_requires(engine, (t,)),
    ensures
        match r {
            Ok(texts) => rendering(engine).renders_each(templates.deep_view(), texts.deep_view()),
            Err(e) => rendering(engine).refuses_one(templates.deep_view(), e@),
        },
{
    let mut texts: Vec<String> = Vec::new();
    let mut i: usize = 0;
    while i < templates.len()
        invariant
            i <= templates.len(),
            texts.len() == i,
            forall|t: &String| call_requires(engine, (t,)),
            forall|k: int|
                0 <= k < i ==> (rendering(engine).renders)(
                    #[trigger] templates.deep_view()[k],
                    texts.deep_view()[k],
                ),
        decreases templates.len() - i,
    {
        assert(templates.deep_view()[i as int] == templates[i as int]@);
        match render(engine, &templates[i]) {
            Ok(text) => {
                let ghost before = texts.deep_view();
                texts.push(text);
                assert(texts.deep_view() =~= before.push(text@));
            },
            Err(e) => {
                proof {
                    let so_far = templates.deep_view().take(i as int);
                    assert forall|k: int| 0 <= k < so_far.len() implies rendering(
                        engine,
                    ).renders_some(#[trigger] so_far[k]) by {
                        assert((rendering(engine).renders)(
                            templates.deep_view()[k],
                            texts.deep_view()[k],
                        ));
                    }
                }
                return Err(e);
            },
        }
        i += 1;
    }
    Ok(texts)
}

/// Renders `template`, where there is one.
fn render_if_any<E: Fn(&String) -> Result<String, StagingError>>(
    engine: &E,
    template: &Option<String>,
) -> (r: Result<Option<String>, StagingError>)
    requires
        forall|t: &String| call_requires(engine, (t,)),
    ensures
        match r {
            Ok(text) => rendering(engine).renders_if_any(template.deep_view(), text.deep_view()),
            Err(e) => template matches Some(given) && (rendering(engine).refuses)(given@, e@),
        },
{
    match template {
        Some(given) => match render(engine, given) {
            Ok(text) => Ok(Some(text)),
            Err(e) => Err(e),
        },
        None => Ok(None),
    }
}

/// Turn user-facing configuration into what the staging APIs take.
pub trait RenderSpecification {
    /// Whether `r` is something that formatting may give, with an engine
    /// that may do what `engine` says.
    spec fn formats(&self, engine: Rendering, r: Result<SpecificationBuilder, Errors>) -> bool;

    /// Format the serialized data into a `SpecificationBuilder`.
    fn format<E: Fn(&String) -> Result<String, StagingError>>(&self, engine: &E) -> (r: Result<
        SpecificationBuilder,
        Errors,
    >)
        requires
            forall|t: &String| call_requires(engine, (t,)),
        ensures
            self.formats(rendering(engine), r),
    ;
}

/// What a `SpecificationBuilder` holds.
pub enum SpecificationBuilderView {
    SourceFile(SourceFileBuilderView),
    SourceFiles(SourceFilesBuilderView),
    Symlink(SymlinkBuilderView),
}

impl SpecificationBuilderView {
    /// What the builder resolves to for the directory `target_dir`.
    pub open spec fn resolved(self, target_dir: Seq<char>) -> Result<SpecificationView, StagingErrorView> {
        match self {
            SpecificationBuilderView::SourceFile(builder) => match builder.resolved(target_dir) {
                Ok(spec) => Ok(SpecificationView::SourceFile(spec)),
                Err(e) => Err(e),
            },
            SpecificationBuilderView::SourceFiles(builder) => match builder.resolved(target_dir) {
                Ok(spec) => Ok(SpecificationView::SourceFiles(spec)),
                Err(e) => Err(e),
            },
            SpecificationBuilderView::Symlink(builder) => match builder.resolved(target_dir) {
                Ok(spec) => Ok(SpecificationView::Symlink(spec)),
                Err(e) => Err(e),
            },
        }
    }
}

#[derive(Clone, Debug, Eq, PartialEq)]
enum SpecificationBuilderInner {
    SourceFile(SourceFileBuilder),
    SourceFiles(SourceFilesBuilder),
    Symlink(SymlinkBuilder),
}

/// Create concrete filesystem specs.
#[derive(Clone, Debug, Eq, PartialEq)]
pub struct SpecificationBuilder(SpecificationBuilderInner);

impl View for SpecificationBuilder {
    type V = SpecificationBuilderView;

    closed spec fn view(&self) -> SpecificationBuilderView {
        match self.0 {
            SpecificationBuilderInner::SourceFile(builder) => SpecificationBuilderView::SourceFile(
                builder@,
            ),
            SpecificationBuilderInner::SourceFiles(builder) => SpecificationBuilderView::SourceFiles(
                builder@,
            ),
            SpecificationBuilderInner::Symlink(builder) => SpecificationBuilderView::Symlink(
                builder@,
            ),
        }
    }
}

impl SpecificationBuilder {
    /// Resolve a specification for a given `target_dir`.
    pub fn resolve(self, target_dir: &str) -> (r: Result<Specification, Errors>)
        ensures
            surfaced(r, self@.resolved(target_dir@)),
    {
        match self.0 {
            SpecificationBuilderInner::SourceFile(builder) => match builder.resolve(target_dir) {
                Ok(spec) => Ok(Specification(SpecificationInner::SourceFile(spec))),
                Err(errors) => Err(errors),
            },
            SpecificationBuilderInner::SourceFiles(builder) => match builder.resolve(target_dir) {
                Ok(spec) => Ok(Specification(SpecificationInner::SourceFiles(spec))),
                Err(errors) => Err(errors),
            },
            SpecificationBuilderInner::Symlink(builder) => match builder.resolve(target_dir) {
                Ok(spec) => Ok(Specification(SpecificationInner::Symlink(spec))),
                Err(errors) => Err(errors),
            },
        }
    }
}

impl crate::spec::SpecificationBuilder for SpecificationBuilder {
    type Spec = Specification;

    fn resolve(&self, target_dir: &str) -> (r: Result<Specification, Errors>)
        ensures
            surfaced(r, self@.resolved(target_dir@)),
    {
        match &self.0 {
            SpecificationBuilderInner::SourceFile(builder) => match crate::spec::SpecificationBuilder::resolve(
                builder,
                target_dir,
            ) {
                Ok(spec) => Ok(Specification(SpecificationInner::SourceFile(spec))),
                Err(errors) => Err(errors),
            },
            SpecificationBuilderInner::SourceFiles(builder) => match crate::spec::SpecificationBuilder::resolve(
                builder,
                target_dir,
            ) {
                Ok(spec) => Ok(Specification(SpecificationInner::SourceFiles(spec))),
                Err(errors) => Err(errors),
            },
            SpecificationBuilderInner::Symlink(builder) => match crate::spec::SpecificationBuilder::resolve(
                builder,
                target_dir,
            ) {
                Ok(spec) => Ok(Specification(SpecificationInner::Symlink(spec))),
                Err(errors) => Err(errors),
            },
        }
    }
}

/// What a `Specification` holds.
pub enum SpecificationView {
    SourceFile(SourceFileView),
    SourceFiles(SourceFilesView),
    Symlink(SymlinkView),
}

impl SpecificationView {
    /// Whether the outcomes `done` and the result `r` are what staging may
    /// come to.
    pub open spec fn stages(self, done: Seq<Outcome>, r: Result<(), Errors>) -> bool {
        match self {
            SpecificationView::SourceFile(spec) => staged(spec.plan(), Ok(()), done, r),
            SpecificationView::SourceFiles(spec) => spec.stages(done, r),
            SpecificationView::Symlink(spec) => staged(spec.plan(), Ok(()), done, r),
        }
    }
}

#[derive(Clone, Debug, Eq, PartialEq)]
enum SpecificationInner {
    SourceFile(crate::spec::SourceFile),
    SourceFiles(crate::spec::SourceFiles),
    Symlink(crate::spec::Symlink),
}

/// Concrete filesystem specs.
#[derive(Clone, Debug, Eq, PartialEq)]
pub struct Specification(SpecificationInner);

impl View for Specification {
    type V = SpecificationView;

    closed spec fn view(&self) -> SpecificationView {
        match self.0 {
            SpecificationInner::SourceFile(spec) => SpecificationView::SourceFile(spec@),
            SpecificationInner::SourceFiles(spec) => SpecificationView::SourceFiles(spec@),
            SpecificationInner::Symlink(spec) => SpecificationView::Symlink(spec@),
        }
    }
}

impl DeepView for Specification {
    type V = SpecificationView;

    open spec fn deep_view(&self) -> SpecificationView {
        self@
    }
}

impl Specification {
    /// The file to copy and to link to, where that is what this is.
    pub fn as_source_file(&self) -> (spec: Option<&crate::spec::SourceFile>)
        ensures
            match spec {
                Some(spec) => self@ == SpecificationView::SourceFile(spec@),
                None => !(self@ is SourceFile),
            },
    {
        match &self.0 {
            SpecificationInner::SourceFile(spec) => Some(spec),
            _ => None,
        }
    }

    /// The files to find and to copy, where that is what this is.
    pub fn as_source_files(&self) -> (spec: Option<&crate::spec::SourceFiles>)
        ensures
            match spec {
                Some(spec) => self@ == SpecificationView::SourceFiles(spec@),
                None => !(self@ is SourceFiles),
            },
    {
        match &self.0 {
            SpecificationInner::SourceFiles(spec) => Some(spec),
            _ => None,
        }
    }

    /// The link to make, where that is what this is.
    pub fn as_symlink(&self) -> (spec: Option<&crate::spec::Symlink>)
        ensures
            match spec {
                Some(spec) => self@ == SpecificationView::Symlink(spec@),
                None => !(self@ is Symlink),
            },
    {
        match &self.0 {
            SpecificationInner::Symlink(spec) => Some(spec),
            _ => None,
        }
    }
}

impl crate::spec::Specification for Specification {
    fn stage<S: Staging>(&self, stage: &mut Journal<S>) -> (r: Result<(), Errors>)
        ensures
            old(stage).asked().is_prefix_of(final(stage).asked()),
            self@.stages(final(stage).asked().skip(old(stage).asked().len() as int), r),
    {
        match &self.0 {
            SpecificationInner::SourceFile(spec) => spec.stage(stage),
            SpecificationInner::SourceFiles(spec) => spec.stage(stage),
            SpecificationInner::Symlink(spec) => spec.stage(stage),
        }
    }
}

/// The outcomes of `parts`, part after part.
pub open spec fn all_done(parts: Seq<Seq<Outcome>>) -> Seq<Outcome>
    decreases parts.len(),
{
    if parts.len() == 0 {
        Seq::<Outcome>::empty()
    } else {
        all_done(parts.drop_last()) + parts.last()
    }
}

/// Whether the outcomes `done` and the result `r` are what staging `specs`
/// one after the other may come to. Each specification is staged, whatever
/// came of those before it: `done` falls into one part for each, with the
/// result that goes with it. `r` is what the results amount to together:
/// success where all succeeded, else every failure in order.
pub open spec fn stages_all(specs: Seq<SpecificationView>, done: Seq<Outcome>, r: Result<(), Errors>) -> bool {
    exists|parts: Seq<Seq<Outcome>>, results: Seq<Result<(), Errors>>|
        #![trigger all_done(parts), settled(results, r)]
        {
            &&& parts.len() == specs.len()
            &&& results.len() == specs.len()
            &&& forall|i: int|
                0 <= i < specs.len() ==> (#[trigger] specs[i]).stages(parts[i], results[i])
            &&& done == all_done(parts)
            &&& settled(results, r)
        }
}

/// Stages `specs` in order. A specification that fails does not keep the
/// ones after it from being staged; the failures of all are gathered.
pub fn stage_all<S: Staging>(specs: &Vec<Specification>, stage: &mut Journal<S>) -> (r: Result<
    (),
    Errors,
>)
    ensures
        old(stage).asked().is_prefix_of(final(stage).asked()),
        stages_all(
            specs.deep_view(),
            final(stage).asked().skip(old(stage).asked().len() as int),
            r,
        ),
{
    let ghost before = stage.asked();
    let ghost mut parts: Seq<Seq<Outcome>> = Seq::empty();
    let mut results: Vec<Result<(), Errors>> = Vec::new();
    let mut i: usize = 0;
    assert(stage.asked() =~= before + all_done(parts));
    while i < specs.len()
        invariant
            i <= specs.len(),
            before == old(stage).asked(),
            parts.len() == i,
            results.len() == i,
            stage.asked() == before + all_done(parts),
            forall|k: int|
                0 <= k < i ==> (#[trigger] specs.deep_view()[k]).stages(parts[k], results@[k]),
        decreases specs.len() - i,
    {
        let ghost so_far = stage.asked();
        let r = crate::spec::Specification::stage(&specs[i], stage);
        proof {
            let part = stage.asked().skip(so_far.len() as int);
            assert(stage.asked() =~= so_far + part);
            assert(parts.push(part).drop_last() =~= parts);
            assert(specs.deep_view()[i as int] == specs[i as int]@);
            parts = parts.push(part);
        }
        results.push(r);
        i += 1;
    }
    let ghost all = results@;
    let r = settle(results);
    proof {
        let done = stage.asked().skip(before.len() as int);
        assert(done =~= all_done(parts));
        assert(before =~= stage.asked().subrange(0, before.len() as int));
        assert(settled(all, r));
    }
    r
}

/// Specifies a file to be staged into the target directory.
#[derive(Clone, Debug, Eq, PartialEq)]
pub struct SourceFile {
    ///  Specifies the full path of the file to be copied into the target directory
    pub path: String,
    /// Specifies the name the target file should be renamed as when copying from the source file.
    /// Default is the filename of the source file.
    pub rename: Option<String>,
    /// Specifies symbolic links to `rename` in the same target directory.
    pub symlink: Vec<String>,
}

impl View for SourceFile {
    type V = SourceFileBuilderView;

    /// The templates of this node.
    open spec fn view(&self) -> SourceFileBuilderView {
        SourceFileBuilderView {
            path: self.path@,
            rename: self.rename.deep_view(),
            symlink: self.symlink.deep_view(),
        }
    }
}

impl SourceFileBuilderView {
    /// Whether `engine` may render these templates as the texts of `texts`.
    pub open spec fn renders_as(self, engine: Rendering, texts: SourceFileBuilderView) -> bool {
        &&& (engine.renders)(self.path, texts.path)
        &&& engine.renders_if_any(self.rename, texts.rename)
        &&& engine.renders_each(self.symlink, texts.symlink)
    }

    /// Whether `engine` may refuse one of these templates with the failure
    /// `e`, after it has rendered those that are rendered before it.
    pub open spec fn refused_with(self, engine: Rendering, e: StagingErrorView) -> bool {
        ||| (engine.refuses)(self.path, e)
        ||| (engine.renders_some(self.path) && engine.refuses_one(self.symlink, e))
        ||| (engine.renders_some(self.path) && engine.renders_all(self.symlink) && (
        self.rename matches Some(template) && (engine.refuses)(template, e)))
    }
}

impl SourceFile {
    /// Renders the templates and hands the texts to a builder. The first
    /// template that the engine refuses ends the pass with its failure.
    pub fn format<E: Fn(&String) -> Result<String, StagingError>>(&self, engine: &E) -> (r: Result<
        SourceFileBuilder,
        Errors,
    >)
        requires
            forall|t: &String| call_requires(engine, (t,)),
        ensures
            match r {
                Ok(builder) => self@.renders_as(rendering(engine), builder@),
                Err(errors) => errors@.len() == 1 && self@.refused_with(
                    rendering(engine),
                    errors@[0],
                ),
            },
    {
        let path = match render(engine, &self.path) {
            Ok(path) => path,
            Err(e) => {
                return Err(Errors::with_error(e));
            },
        };
        let symlink = match render_each(engine, &self.symlink) {
            Ok(symlink) => symlink,
            Err(e) => {
                return Err(Errors::with_error(e));
            },
        };
        let rename = match render_if_any(engine, &self.rename) {
            Ok(rename) => rename,
            Err(e) => {
                return Err(Errors::with_error(e));
            },
        };
        let builder = SourceFileBuilder::new(path).rename(rename).push_symlinks(symlink);
        assert(builder@.symlink =~= symlink.deep_view());
        Ok(builder)
    }
}

impl RenderSpecification for SourceFile {
    open spec fn formats(&self, engine: Rendering, r: Result<SpecificationBuilder, Errors>) -> bool {
        match r {
            Ok(builder) => builder@ matches SpecificationBuilderView::SourceFile(texts)
                && self@.renders_as(engine, texts),
            Err(errors) => errors@.len() == 1 && self@.refused_with(engine, errors@[0]),
        }
    }

    fn format<E: Fn(&String) -> Result<String, StagingError>>(&self, engine: &E) -> (r: Result<
        SpecificationBuilder,
        Errors,
    >) {
        match SourceFile::format(self, engine) {
            Ok(builder) => Ok(SpecificationBuilder(SpecificationBuilderInner::SourceFile(builder))),
            Err(errors) => Err(errors),
        }
    }
}

/// Specifies a collection of files to be staged into the target directory.
#[derive(Clone, Debug, Eq, PartialEq)]
pub struct SourceFiles {
    ///  Specifies the root path that `patterns` will be run on to identify files to be copied into
    ///  the target directory.
    pub path: String,
    /// Specifies the pattern for executing the recursive/multifile match.
    pub pattern: Vec<String>,
    /// When true, symbolic links are followed as if they were normal directories and files.
    /// If a symbolic link is broken or is involved in a loop, an error is yielded.
    pub follow_links: bool,
    /// Toggles whether no results for the pattern constitutes an error.
    ///
    /// Generally, the default of `false` is best because it makes mistakes more obvious.  An
    /// example of when no results are acceptable is a default staging configuration that
    /// implements a lot of default "good enough" policy.
    pub allow_empty: bool,
}

impl View for SourceFiles {
    type V = SourceFilesBuilderView;

    /// The templates and the switches of this node.
    open spec fn view(&self) -> SourceFilesBuilderView {
        SourceFilesBuilderView {
            path: self.path@,
            pattern: self.pattern.deep_view(),
            follow_links: self.follow_links,
            allow_empty: self.allow_empty,
        }
    }
}

impl SourceFilesBuilderView {
    /// Whether `engine` may render these templates as the texts of `texts`,
    /// which keeps the switches.
    pub open spec fn renders_as(self, engine: Rendering, texts: SourceFilesBuilderView) -> bool {
        &&& (engine.renders)(self.path, texts.path)
        &&& engine.renders_each(self.pattern, texts.pattern)
        &&& texts.follow_links == self.follow_links
        &&& texts.allow_empty == self.allow_empty
    }

    /// Whether `engine` may refuse one of these templates with the failure
    /// `e`, after it has rendered those that are rendered before it.
    pub open spec fn refused_with(self, engine: Rendering, e: StagingErrorView) -> bool {
        ||| (engine.refuses)(self.path, e)
        ||| (engine.renders_some(self.path) && engine.refuses_one(self.pattern, e))
    }
}

impl SourceFiles {
    /// Renders the templates and hands the texts to a builder. The first
    /// template that the engine refuses ends the pass with its failure.
    pub fn format<E: Fn(&String) -> Result<String, StagingError>>(&self, engine: &E) -> (r: Result<
        SourceFilesBuilder,
        Errors,
    >)
        requires
            forall|t: &String| call_requires(engine, (t,)),
        ensures
            match r {
                Ok(builder) => self@.renders_as(rendering(engine), builder@),
                Err(errors) => errors@.len() == 1 && self@.refused_with(
                    rendering(engine),
                    errors@[0],
                ),
            },
    {
        let path = match render(engine, &self.path) {
            Ok(path) => path,
            Err(e) => {
                return Err(Errors::with_error(e));
            },
        };
        let pattern = match render_each(engine, &self.pattern) {
            Ok(pattern) => pattern,
            Err(e) => {
                return Err(Errors::with_error(e));
            },
        };
        let builder = SourceFilesBuilder::new(path).push_patterns(pattern).follow_links(
            self.follow_links,
        ).allow_empty(self.allow_empty);
        assert(builder@.pattern =~= pattern.deep_view());
        Ok(builder)
    }
}

impl RenderSpecification for SourceFiles {
    open spec fn formats(&self, engine: Rendering, r: Result<SpecificationBuilder, Errors>) -> bool {
        match r {
            Ok(builder) => builder@ matches SpecificationBuilderView::SourceFiles(texts)
                && self@.renders_as(engine, texts),
            Err(errors) => errors@.len() == 1 && self@.refused_with(engine, errors@[0]),
        }
    }

    fn format<E: Fn(&String) -> Result<String, StagingError>>(&self, engine: &E) -> (r: Result<
        SpecificationBuilder,
        Errors,
    >) {
        match SourceFiles::format(self, engine) {
            Ok(builder) => Ok(
                SpecificationBuilder(SpecificationBuilderInner::SourceFiles(builder)),
            ),
            Err(errors) => Err(errors),
        }
    }
}

/// Specifies a symbolic link file to be staged into the target directory.
#[derive(Clone, Debug, Eq, PartialEq)]
pub struct Symlink {
    /// The literal path for the target to point to.
    pub target: String,
    /// Specifies the name the symlink should be given.
    /// Default is the filename of the `target`.
    pub rename: Option<String>,
}

impl View for Symlink {
    type V = SymlinkBuilderView;

    /// The templates of this node.
    open spec fn view(&self) -> SymlinkBuilderView {
        SymlinkBuilderView { target: self.target@, rename: self.rename.deep_view() }
    }
}

impl SymlinkBuilderView {
    /// Whether `engine` may render these templates as the texts of `texts`.
    pub open spec fn renders_as(self, engine: Rendering, texts: SymlinkBuilderView) -> bool {
        &&& (engine.renders)(self.target, texts.target)
        &&& engine.renders_if_any(self.rename, texts.rename)
    }

    /// Whether `engine` may refuse one of these templates with the failure
    /// `e`, after it has rendered those that are rendered before it.
    pub open spec fn refused_with(self, engine: Rendering, e: StagingErrorView) -> bool {
        ||| (engine.refuses)(self.target, e)
        ||| (engine.renders_some(self.target) && (self.rename matches Some(template)
            && (engine.refuses)(template, e)))
    }
}

impl Symlink {
    /// Renders the templates and hands the texts to a builder. The first
    /// template that the engine refuses ends the pass with its failure.
    pub fn format<E: Fn(&String) -> Result<String, StagingError>>(&self, engine: &E) -> (r: Result<
        SymlinkBuilder,
        Errors,
    >)
        requires
            forall|t: &String| call_requires(engine, (t,)),
        ensures
            match r {
                Ok(builder) => self@.renders_as(rendering(engine), builder@),
                Err(errors) => errors@.len() == 1 && self@.refused_with(
                    rendering(engine),
                    errors@[0],
                ),
            },
    {
        let target = match render(engine, &self.target) {
            Ok(target) => target,
            Err(e) => {
                return Err(Errors::with_error(e));
            },
        };
        let rename = match render_if_any(engine, &self.rename) {
            Ok(rename) => rename,
            Err(e) => {
                return Err(Errors::with_error(e));
            },
        };
        Ok(SymlinkBuilder::new(target).rename(rename))
    }
}

impl RenderSpecification for Symlink {
    open spec fn formats(&self, engine: Rendering, r: Result<SpecificationBuilder, Errors>) -> bool {
        match r {
            Ok(builder) => builder@ matches SpecificationBuilderView::Symlink(texts)
                && self@.renders_as(engine, texts),
            Err(errors) => errors@.len() == 1 && self@.refused_with(engine, errors@[0]),
        }
    }

    fn format<E: Fn(&String) -> Result<String, StagingError>>(&self, engine: &E) -> (r: Result<
        SpecificationBuilder,
        Errors,
    >) {
        match Symlink::format(self, engine) {
            Ok(builder) => Ok(SpecificationBuilder(SpecificationBuilderInner::Symlink(builder))),
            Err(errors) => Err(errors),
        }
    }
}

/// Content to stage.
#[derive(Clone, Debug, Eq, PartialEq)]
pub enum Source {
    /// Specifies a file to be staged into the target directory.
    SourceFile(SourceFile),
    /// Specifies a collection of files to be staged into the target directory.
    SourceFiles(SourceFiles),
    /// Specifies a symbolic link file to be staged into the target directory.
    Symlink(Symlink),
}

impl Source {
    /// Format the serialized data into a `SpecificationBuilder`.
    pub fn format<E: Fn(&String) -> Result<String, StagingError>>(&self, engine: &E) -> (r: Result<
        SpecificationBuilder,
        Errors,
    >)
        requires
            forall|t: &String| call_requires(engine, (t,)),
        ensures
            self.formats(rendering(engine), r),
    {
        match self {
            Source::SourceFile(node) => RenderSpecification::format(node, engine),
            Source::SourceFiles(node) => RenderSpecification::format(node, engine),
            Source::Symlink(node) => RenderSpecification::format(node, engine),
        }
    }
}

impl RenderSpecification for Source {
    open spec fn formats(&self, engine: Rendering, r: Result<SpecificationBuilder, Errors>) -> bool {
        match self {
            Source::SourceFile(node) => node.formats(engine, r),
            Source::SourceFiles(node) => node.formats(engine, r),
            Source::Symlink(node) => node.formats(engine, r),
        }
    }

    /// Format the serialized data into a `SpecificationBuilder`.
    fn format<E: Fn(&String) -> Result<String, StagingError>>(&self, engine: &E) -> (r: Result<
        SpecificationBuilder,
        Errors,
    >) {
        Source::format(self, engine)
    }
}

impl<R: RenderSpecification> Default for CustomMapStage<R> {
    /// A configuration without targets.
    fn default() -> (stage: Self)
        ensures
            stage.targets() == Seq::<Seq<char>>::empty(),
    {
        CustomMapStage::new()
    }
}

/// Whether `r` is something that formatting `source` with `engine` and
/// resolving the outcome for the directory `dir` may give: the failures of
/// formatting, else what the builder resolves to.
pub open spec fn source_resolves<R: RenderSpecification>(
    engine: Rendering,
    source: R,
    dir: Seq<char>,
    r: Result<Specification, Errors>,
) -> bool {
    exists|formatted: Result<SpecificationBuilder, Errors>|
        {
            &&& #[trigger] source.formats(engine, formatted)
            &&& match formatted {
                Ok(builder) => surfaced(r, builder@.resolved(dir)),
                Err(errors) => r matches Err(same) && same == errors,
            }
        }
}

/// Whether `r` is something that resolving `sources` for the target that is
/// written `text` may give, in the stage at `stage_root`. A target that is no
/// path within the stage is refused outright. Else every source is resolved
/// for the directory, whatever comes of the others, and `r` is what their
/// results amount to together.
pub open spec fn placed<R: RenderSpecification>(
    engine: Rendering,
    text: Seq<char>,
    sources: Seq<R>,
    stage_root: Seq<char>,
    r: Result<Vec<Specification>, Errors>,
) -> bool {
    match spec_abs_to_rel(text) {
        Err(e) => r matches Err(errors) && errors@ == seq![e],
        Ok(rel) => exists|results: Seq<Result<Specification, Errors>>|
            {
                &&& results.len() == sources.len()
                &&& forall|i: int|
                    0 <= i < sources.len() ==> source_resolves(
                        engine,
                        sources[i],
                        spec_join(stage_root, rel),
                        #[trigger] results[i],
                    )
                &&& #[trigger] gathered(results, r)
            },
    }
}

/// Whether `r` is something that resolving `sources` for the target with
/// the template `target` may give: the failure of rendering the template,
/// else what comes of the text that it renders to.
pub open spec fn target_resolves<R: RenderSpecification>(
    engine: Rendering,
    target: Seq<char>,
    sources: Seq<R>,
    stage_root: Seq<char>,
    r: Result<Vec<Specification>, Errors>,
) -> bool {
    ||| (r matches Err(errors) && errors@.len() == 1 && (engine.refuses)(target, errors@[0]))
    ||| exists|text: Seq<char>|
        (engine.renders)(target, text) && #[trigger] placed(engine, text, sources, stage_root, r)
}

/// For each stage target, a list of sources to populate it with.
///
/// The target is an absolute path, treating the stage as the root.  The target supports template
/// formatting.
pub struct CustomMapStage<R: RenderSpecification>(Targets<Vec<R>>);

/// For each stage target, a list of sources to populate it with.
///
/// The target is an absolute path, treating the stage as the root.  The target supports template
/// formatting.
pub type MapStage = CustomMapStage<Source>;

impl<R: RenderSpecification> CustomMapStage<R> {
    /// The templates of the targets, in the order of their text.
    pub closed spec fn targets(&self) -> Seq<Seq<char>> {
        self.0.keys()
    }

    /// The sources of each target, in the order of `targets`.
    pub closed spec fn sources(&self) -> Seq<Vec<R>> {
        self.0.values()
    }

    /// Whether `r` is something that resolving with `engine` may give, in
    /// the stage at `stage_root`: every target is resolved, whatever comes of
    /// the others, and `r` is what the results of the targets amount to
    /// together.
    pub open spec fn resolves(
        &self,
        engine: Rendering,
        stage_root: Seq<char>,
        r: Result<Vec<Specification>, Errors>,
    ) -> bool {
        exists|results: Seq<Result<Vec<Specification>, Errors>>|
            {
                &&& results.len() == self.targets().len()
                &&& forall|t: int|
                    0 <= t < results.len() ==> target_resolves(
                        engine,
                        self.targets()[t],
                        self.sources()[t]@,
                        stage_root,
                        #[trigger] results[t],
                    )
                &&& #[trigger] combined(results, r)
            }
    }

    /// Targets are resolved apart from one another. Where one target alone
    /// fails, the whole fails with exactly the failures of that target; and
    /// each of the other targets, taken by itself, resolves to what it
    /// contributed: its work is not lost, it is only not handed out.
    pub proof fn lemma_targets_resolve_apart(
        &self,
        engine: Rendering,
        stage_root: Seq<char>,
        results: Seq<Result<Vec<Specification>, Errors>>,
        r: Result<Vec<Specification>, Errors>,
        failed: int,
    )
        requires
            results.len() == self.targets().len(),
            forall|t: int|
                0 <= t < results.len() ==> target_resolves(
                    engine,
                    self.targets()[t],
                    self.sources()[t]@,
                    stage_root,
                    #[trigger] results[t],
                ),
            combined(results, r),
            0 <= failed < results.len(),
            results[failed] matches Err(errors) && errors@.len() > 0,
            forall|t: int| 0 <= t < results.len() && t != failed ==> (#[trigger] results[t]) is Ok,
        ensures
            self.resolves(engine, stage_root, r),
            r matches Err(errors) && errors@ == results[failed]->Err_0@,
            forall|alone: CustomMapStage<R>, t: int|
                0 <= t < results.len() && t != failed && alone.targets() == seq![self.targets()[t]]
                    && alone.sources() == seq![self.sources()[t]] ==> #[trigger] alone.resolves(
                    engine,
                    stage_root,
                    results[t],
                ),
    {
        lemma_combined_one_failed(results, r, failed);
        assert forall|alone: CustomMapStage<R>, t: int|
            0 <= t < results.len() && t != failed && alone.targets() == seq![self.targets()[t]]
                && alone.sources() == seq![self.sources()[t]] implies #[trigger] alone.resolves(
            engine,
            stage_root,
            results[t],
        ) by {
            let only = seq![results[t]];
            lemma_combined_itself(results[t]);
            assert(only[0] == results[t]);
            assert(combined(only, results[t]));
        }
    }

    /// A configuration without targets.
    pub fn new() -> (stage: Self)
        ensures
            stage.targets() == Seq::<Seq<char>>::empty(),
            stage.sources() == Seq::<Vec<R>>::empty(),
    {
        CustomMapStage(Targets::new())
    }

    /// The configuration of `entries`: each target with the sources that the
    /// last entry of its template gives it.
    pub fn from_iter(entries: Vec<(String, Vec<R>)>) -> (stage: Self)
        ensures
            stage.targets() == names_of_all(entries@),
            stage.sources() == contents_of_all(entries@),
    {
        CustomMapStage(Targets::from_iter(entries))
    }

    /// Populates `target` with `sources`, in place of any sources that it
    /// had.
    pub fn insert(self, target: String, sources: Vec<R>) -> (stage: Self)
        ensures
            stage.targets() == keys_with(self.targets(), target@),
            stage.sources() == values_with(self.targets(), self.sources(), target@, sources),
    {
        CustomMapStage(self.0.insert(target, sources))
    }

    /// How many targets there are.
    pub fn len(&self) -> (n: usize)
        ensures
            n == self.targets().len(),
            n == self.sources().len(),
    {
        self.0.len()
    }

    /// The template of the target at `index`.
    pub fn target(&self, index: usize) -> (target: &String)
        requires
            index < self.targets().len(),
        ensures
            target@ == self.targets()[index as int],
    {
        self.0.key(index)
    }

    /// The sources of the target at `index`.
    pub fn sources_of(&self, index: usize) -> (sources: &Vec<R>)
        requires
            index < self.sources().len(),
        ensures
            *sources == self.sources()[index as int],
    {
        self.0.value(index)
    }

    /// Checks the configuration: renders and resolves all of it, from the
    /// root of the stage, and gives back every failure that comes of it.
    pub fn format<E: Fn(&String) -> Result<String, StagingError>>(&self, engine: &E) -> (r: Result<
        (),
        Errors,
    >)
        requires
            forall|t: &String| call_requires(engine, (t,)),
        ensures
            exists|resolved: Result<Vec<Specification>, Errors>|
                {
                    &&& #[trigger] self.resolves(rendering(engine), Seq::<char>::empty(), resolved)
                    &&& match r {
                        Ok(_) => resolved is Ok,
                        Err(errors) => resolved == Err::<Vec<Specification>, Errors>(errors),
                    }
                },
    {
        let root = String::new();
        let resolved = self.resolve(engine, root.as_str());
        let r = match resolved {
            Ok(_) => Ok(()),
            Err(errors) => Err(errors),
        };
        assert(self.resolves(rendering(engine), Seq::<char>::empty(), resolved));
        r
    }

    /// Resolves the sources of the target at `index`.
    fn resolve_target<E: Fn(&String) -> Result<String, StagingError>>(
        &self,
        index: usize,
        engine: &E,
        stage_root: &str,
    ) -> (r: Result<Vec<Specification>, Errors>)
        requires
            index < self.targets().len(),
            forall|t: &String| call_requires(engine, (t,)),
        ensures
            target_resolves(
                rendering(engine),
                self.targets()[index as int],
                self.sources()[index as int]@,
                stage_root@,
                r,
            ),
    {
        let n = self.0.len();
        let target = self.0.key(index);
        let sources = self.0.value(index);
        let text = match render(engine, target) {
            Ok(text) => text,
            Err(e) => {
                return Err(Errors::with_error(e));
            },
        };
        let rel = match abs_to_rel(text.as_str()) {
            Ok(rel) => rel,
            Err(e) => {
                let r = Err(Errors::with_error(e));
                assert(placed(rendering(engine), text@, sources@, stage_root@, r));
                return r;
            },
        };
        let dir = join(stage_root, rel.as_str());
        let mut results: Vec<Result<Specification, Errors>> = Vec::new();
        let mut i: usize = 0;
        while i < sources.len()
            invariant
                i <= sources.len(),
                results.len() == i,
                forall|t: &String| call_requires(engine, (t,)),
                dir@ == spec_join(stage_root@, rel@),
                forall|k: int|
                    0 <= k < i ==> source_resolves(
                        rendering(engine),
                        sources@[k],
                        dir@,
                        #[trigger] results@[k],
                    ),
            decreases sources.len() - i,
        {
            let formatted = sources[i].format(engine);
            let r = match formatted {
                Ok(builder) => builder.resolve(dir.as_str()),
                Err(errors) => Err(errors),
            };
            assert(source_resolves(rendering(engine), sources@[i as int], dir@, r)) by {
                assert(sources@[i as int].formats(rendering(engine), formatted));
            }
            results.push(r);
            i += 1;
        }
        let ghost all = results@;
        let r = gather(results);
        assert(gathered(all, r));
        assert(placed(rendering(engine), text@, sources@, stage_root@, r));
        r
    }

    /// Renders the configuration and resolves it: for every target, in the
    /// order of the templates, every source in the order in which it is
    /// listed. Failures are gathered, none ends the pass; as soon as there is
    /// one, the whole fails with all of them.
    pub fn resolve<E: Fn(&String) -> Result<String, StagingError>>(
        &self,
        engine: &E,
        stage_root: &str,
    ) -> (r: Result<Vec<Specification>, Errors>)
        requires
            forall|t: &String| call_requires(engine, (t,)),
        ensures
            self.resolves(rendering(engine), stage_root@, r),
    {
        let mut results: Vec<Result<Vec<Specification>, Errors>> = Vec::new();
        let mut t: usize = 0;
        let n = self.len();
        while t < n
            invariant
                t <= n,
                n == self.targets().len(),
                n == self.sources().len(),
                results.len() == t,
                forall|t: &String| call_requires(engine, (t,)),
                forall|k: int|
                    0 <= k < t ==> target_resolves(
                        rendering(engine),
                        self.targets()[k],
                        self.sources()[k]@,
                        stage_root@,
                        #[trigger] results@[k],
                    ),
            decreases n - t,
        {
            let r = self.resolve_target(t, engine, stage_root);
            results.push(r);
            t += 1;
        }
        let ghost all = results@;
        let r = combine(results);
        assert(combined(all, r));
        r
    }
}

} // verus!

//! Staging errors.
//!
//! A failure is a value: a kind, an optional context and an optional cause.
//! Independent failures are gathered in an `Errors` batch, which is surfaced
//! only when it holds at least one of them.
use vstd::prelude::*;

verus! {

/// For programmatically processing failures.
#[derive(Debug, Copy, Clone, PartialEq, Eq, Structural)]
pub enum ErrorKind {
    /// Error in the configuration.
    InvalidConfiguration,
    /// Preparing to stage failed.
    HarvestingFailed,
    /// Staging failed.
    StagingFailed,
}

impl ErrorKind {
    /// The sentence that describes this kind.
    pub open spec fn text(self) -> Seq<char> {
        match self {
            ErrorKind::InvalidConfiguration => "Error in the configuration."@,
            ErrorKind::HarvestingFailed => "Preparing to stage failed."@,
            ErrorKind::StagingFailed => "Staging failed."@,
        }
    }

    /// A failure of this kind, without context or cause.
    pub fn error(self) -> (e: StagingError)
        ensures
            e@ == StagingErrorView::bare(self),
    {
        StagingError::new(self)
    }

    /// The sentence that describes this kind.
    pub fn to_string(&self) -> (s: String)
        ensures
            s@ == self.text(),
    {
        match self {
            ErrorKind::InvalidConfiguration => "Error in the configuration.".to_owned(),
            ErrorKind::HarvestingFailed => "Preparing to stage failed.".to_owned(),
            ErrorKind::StagingFailed => "Staging failed.".to_owned(),
        }
    }
}

/// What a `StagingError` holds.
pub struct StagingErrorView {
    pub kind: ErrorKind,
    pub context: Option<Seq<char>>,
    pub cause: Option<Seq<char>>,
}

impl StagingErrorView {
    /// A failure with neither context nor cause.
    pub open spec fn bare(kind: ErrorKind) -> StagingErrorView {
        StagingErrorView { kind, context: None, cause: None }
    }

    /// A failure that says where it arose.
    pub open spec fn told(kind: ErrorKind, context: Seq<char>) -> StagingErrorView {
        StagingErrorView { kind, context: Some(context), cause: None }
    }

    /// A failure that passes on what an underlying operation reported.
    pub open spec fn caused(kind: ErrorKind, cause: Seq<char>) -> StagingErrorView {
        StagingErrorView { kind, context: None, cause: Some(cause) }
    }

    /// The report of this failure: a headline with the kind, then the
    /// context and the cause, each on a line of its own where present.
    pub open spec fn text(self) -> Seq<char> {
        "Staging failed: "@ + self.kind.text() + "\n"@ + (match self.context {
            Some(context) => context + "\n"@,
            None => Seq::<char>::empty(),
        }) + (match self.cause {
            Some(cause) => "Cause: "@ + cause + "\n"@,
            None => Seq::<char>::empty(),
        })
    }
}

/// Single staging failure.
#[derive(Debug)]
pub struct StagingError {
    kind: ErrorKind,
    context: Option<String>,
    cause: Option<String>,
}

impl View for StagingError {
    type V = StagingErrorView;

    closed spec fn view(&self) -> StagingErrorView {
        StagingErrorView {
            kind: self.kind,
            context: self.context.deep_view(),
            cause: self.cause.deep_view(),
        }
    }
}

impl DeepView for StagingError {
    type V = StagingErrorView;

    open spec fn deep_view(&self) -> StagingErrorView {
        self@
    }
}

impl Clone for StagingError {
    fn clone(&self) -> (e: StagingError)
        ensures
            e@ == self@,
    {
        StagingError {
            kind: self.kind,
            context: match &self.context {
                Some(context) => Some(context.clone()),
                None => None,
            },
            cause: match &self.cause {
                Some(cause) => Some(cause.clone()),
                None => None,
            },
        }
    }
}

impl StagingError {
    pub fn new(kind: ErrorKind) -> (e: StagingError)
        ensures
            e@ == StagingErrorView::bare(kind),
    {
        StagingError { kind, context: None, cause: None }
    }

    /// Says where the failure arose, in place of any earlier context.
    pub fn set_context(self, context: String) -> (e: StagingError)
        ensures
            e@ == (StagingErrorView { context: Some(context@), ..self@ }),
    {
        let mut e = self;
        e.context = Some(context);
        e
    }

    /// Records what the underlying operation reported, in place of any
    /// earlier cause.
    pub fn set_cause(self, cause: String) -> (e: StagingError)
        ensures
            e@ == (StagingErrorView { cause: Some(cause@), ..self@ }),
    {
        let mut e = self;
        e.cause = Some(cause);
        e
    }

    /// Programmtically process failure.
    pub fn kind(&self) -> (kind: ErrorKind)
        ensures
            kind == self@.kind,
    {
        self.kind
    }

    /// Where the failure arose, if that was recorded.
    pub fn context(&self) -> (context: Option<&String>)
        ensures
            context.deep_view() == self@.context,
    {
        self.context.as_ref()
    }

    /// What the underlying operation reported, if anything.
    pub fn cause(&self) -> (cause: Option<&String>)
        ensures
            cause.deep_view() == self@.cause,
    {
        self.cause.as_ref()
    }

    /// The report of this failure.
    pub fn to_string(&self) -> (s: String)
        ensures
            s@ == self@.text(),
    {
        let mut out = "Staging failed: ".to_owned();
        let kind = self.kind.to_string();
        out.append(kind.as_str());
        out.append("\n");
        match &self.context {
            Some(context) => {
                out.append(context.as_str());
                out.append("\n");
            },
            None => {},
        }
        match &self.cause {
            Some(cause) => {
                out.append("Cause: ");
                out.append(cause.as_str());
                out.append("\n");
            },
            None => {},
        }
        out
    }
}

/// The reports of `errors`, each followed by a line break.
pub open spec fn report(errors: Seq<StagingErrorView>) -> Seq<char>
    decreases errors.len(),
{
    if errors.len() == 0 {
        Seq::<char>::empty()
    } else {
        report(errors.drop_last()) + errors.last().text() + "\n"@
    }
}

/// The values of the successful `results`, in order.
pub open spec fn successes<T>(results: Seq<Result<T, Errors>>) -> Seq<T>
    decreases results.len(),
{
    if results.len() == 0 {
        Seq::<T>::empty()
    } else {
        match results.last() {
            Ok(value) => successes(results.drop_last()).push(value),
            Err(_) => successes(results.drop_last()),
        }
    }
}

/// The failures of the failed `results`, batch after batch, in order.
pub open spec fn failures<T>(results: Seq<Result<T, Errors>>) -> Seq<StagingErrorView>
    decreases results.len(),
{
    if results.len() == 0 {
        Seq::<StagingErrorView>::empty()
    } else {
        match results.last() {
            Ok(_) => failures(results.drop_last()),
            Err(errors) => failures(results.drop_last()) + errors@,
        }
    }
}

/// The values of all `lists`, list after list.
pub open spec fn flat<T>(lists: Seq<Vec<T>>) -> Seq<T>
    decreases lists.len(),
{
    if lists.len() == 0 {
        Seq::<T>::empty()
    } else {
        flat(lists.drop_last()) + lists.last()@
    }
}

/// Whether `r` is what `results` amount to together: where none of them
/// failed, the values of all in order; else every failure of every one that
/// failed, in order.
pub open spec fn gathered<T>(results: Seq<Result<T, Errors>>, r: Result<Vec<T>, Errors>) -> bool {
    match r {
        Ok(values) => failures(results).len() == 0 && values@ == successes(results),
        Err(errors) => errors@.len() > 0 && errors@ == failures(results),
    }
}

/// Whether `r` is what `results`, each with a list of values, amount to
/// together: where none of them failed, the values of all lists in order;
/// else every failure of every one that failed, in order.
pub open spec fn combined<T>(results: Seq<Result<Vec<T>, Errors>>, r: Result<Vec<T>, Errors>) -> bool {
    match r {
        Ok(values) => failures(results).len() == 0 && values@ == flat(successes(results)),
        Err(errors) => errors@.len() > 0 && errors@ == failures(results),
    }
}

/// Whether `r` is what `results` amount to together where their values do
/// not matter: success where none of them failed; else every failure of
/// every one that failed, in order.
pub open spec fn settled<T>(results: Seq<Result<T, Errors>>, r: Result<(), Errors>) -> bool {
    match r {
        Ok(_) => failures(results).len() == 0,
        Err(errors) => errors@.len() > 0 && errors@ == failures(results),
    }
}

/// Results that all succeeded hold no failure, and as many values as there
/// are results.
pub proof fn lemma_all_succeeded<T>(results: Seq<Result<T, Errors>>)
    requires
        forall|i: int| 0 <= i < results.len() ==> (#[trigger] results[i]) is Ok,
    ensures
        failures(results).len() == 0,
        successes(results).len() == results.len(),
        forall|i: int| 0 <= i < results.len() ==> Ok::<T, Errors>(#[trigger] successes(results)[i]) == results[i],
    decreases results.len(),
{
    if results.len() > 0 {
        lemma_all_succeeded(results.drop_last());
    }
}

/// Where one result alone failed, its failures are all the failures.
pub proof fn lemma_one_failed<T>(results: Seq<Result<T, Errors>>, at: int)
    requires
        0 <= at < results.len(),
        results[at] is Err,
        forall|i: int| 0 <= i < results.len() && i != at ==> (#[trigger] results[i]) is Ok,
    ensures
        failures(results) == results[at]->Err_0@,
    decreases results.len(),
{
    let init = results.drop_last();
    if at == results.len() - 1 {
        lemma_all_succeeded(init);
        assert(failures(results) =~= results[at]->Err_0@);
    } else {
        lemma_one_failed(init, at);
    }
}

/// Independent results are kept apart: where one of them alone failed, the
/// whole fails with exactly the failures of that one.
pub proof fn lemma_combined_one_failed<T>(
    results: Seq<Result<Vec<T>, Errors>>,
    r: Result<Vec<T>, Errors>,
    at: int,
)
    requires
        combined(results, r),
        0 <= at < results.len(),
        results[at] matches Err(errors) && errors@.len() > 0,
        forall|i: int| 0 <= i < results.len() && i != at ==> (#[trigger] results[i]) is Ok,
    ensures
        r matches Err(errors) && errors@ == results[at]->Err_0@,
{
    lemma_one_failed(results, at);
}

/// A result that succeeded amounts, taken by itself, to itself.
pub proof fn lemma_combined_itself<T>(result: Result<Vec<T>, Errors>)
    requires
        result is Ok,
    ensures
        combined(seq![result], result),
{
    let results = seq![result];
    lemma_all_succeeded(results);
    assert(results.drop_last() =~= Seq::<Result<Vec<T>, Errors>>::empty());
    assert(successes(results) =~= seq![result->Ok_0]);
    assert(seq![result->Ok_0].drop_last() =~= Seq::<Vec<T>>::empty());
    assert(flat(seq![result->Ok_0].drop_last()) =~= Seq::<T>::empty());
    assert(flat(seq![result->Ok_0]) =~= result->Ok_0@);
}

/// A result that succeeded is worth the same alone: taken by itself it
/// amounts to its own values.
pub proof fn lemma_combined_alone<T>(result: Result<Vec<T>, Errors>, r: Result<Vec<T>, Errors>)
    requires
        result is Ok,
        combined(seq![result], r),
    ensures
        r matches Ok(values) && values@ == result->Ok_0@,
{
    let results = seq![result];
    lemma_all_succeeded(results);
    assert(results.drop_last() =~= Seq::<Result<Vec<T>, Errors>>::empty());
    assert(successes(results) =~= seq![result->Ok_0]);
    assert(seq![result->Ok_0].drop_last() =~= Seq::<Vec<T>>::empty());
    assert(flat(seq![result->Ok_0].drop_last()) =~= Seq::<T>::empty());
    assert(flat(seq![result->Ok_0]) =~= result->Ok_0@);
}

/// Aggregation of errors from a staging operation.
#[derive(Debug, Clone)]
pub struct Errors {
    errors: Vec<StagingError>,
}

impl View for Errors {
    type V = Seq<StagingErrorView>;

    closed spec fn view(&self) -> Seq<StagingErrorView> {
        self.errors.deep_view()
    }
}

impl DeepView for Errors {
    type V = Seq<StagingErrorView>;

    open spec fn deep_view(&self) -> Seq<StagingErrorView> {
        self@
    }
}

impl Errors {
    /// An empty batch, to gather failures in.
    pub fn new() -> (errors: Errors)
        ensures
            errors@ == Seq::<StagingErrorView>::empty(),
    {
        let errors = Errors { errors: Vec::new() };
        assert(errors@ =~= Seq::<StagingErrorView>::empty());
        errors
    }

    /// The batch of one failure.
    pub fn with_error(error: StagingError) -> (errors: Errors)
        ensures
            errors@ == seq![error@],
    {
        let mut errors = Errors::new();
        errors.push(error);
        assert(errors@ =~= seq![error@]);
        errors
    }

    /// The batch of `errors`, in their order.
    pub fn from_iter(errors: Vec<StagingError>) -> (batch: Errors)
        ensures
            batch@ == errors.deep_view(),
    {
        Errors { errors }
    }

    pub fn len(&self) -> (n: usize)
        ensures
            n == self@.len(),
    {
        self.errors.len()
    }

    pub fn is_empty(&self) -> (empty: bool)
        ensures
            empty == (self@.len() == 0),
    {
        self.errors.len() == 0
    }

    /// The failure at `index`, counted from the oldest.
    pub fn get(&self, index: usize) -> (error: &StagingError)
        requires
            index < self@.len(),
        ensures
            error@ == self@[index as int],
    {
        &self.errors[index]
    }

    /// Adds one failure at the end.
    pub fn push(&mut self, error: StagingError)
        ensures
            final(self)@ == old(self)@.push(error@),
    {
        self.errors.push(error);
        assert(self@ =~= old(self)@.push(error@));
    }

    /// Adds the failures of `other` at the end, in their order.
    pub fn extend(&mut self, other: Errors)
        ensures
            final(self)@ == old(self)@ + other@,
    {
        let mut added = other.errors;
        self.errors.append(&mut added);
        assert(self@ =~= old(self)@ + other@);
    }

    /// Decides what a gathering pass amounts to: `value` where nothing
    /// failed, the whole batch otherwise.
    pub fn ok<T>(self, value: T) -> (r: Result<T, Errors>)
        ensures
            self@.len() == 0 ==> r == Ok::<T, Errors>(value),
            self@.len() > 0 ==> r == Err::<T, Errors>(self),
    {
        if self.errors.len() == 0 {
            Ok(value)
        } else {
            Err(self)
        }
    }

    /// Splits `results`: the values of those that succeeded are returned in
    /// order, the failures of the others join this batch in order. No result
    /// stops the pass.
    pub fn partition<T>(&mut self, results: Vec<Result<T, Errors>>) -> (values: Vec<T>)
        ensures
            values@ == successes(results@),
            final(self)@ == old(self)@ + failures(results@),
    {
        let ghost all = results@;
        let mut values: Vec<T> = Vec::new();
        for result in it: results
            invariant
                it.seq() == all,
                values@ == successes(all.take(it.index() as int)),
                self@ == old(self)@ + failures(all.take(it.index() as int)),
        {
            proof {
                let done = all.take(it.index() as int);
                let next = all.take(it.index() + 1);
                assert(next.drop_last() =~= done);
                assert(next.last() == result);
            }
            match result {
                Ok(value) => {
                    values.push(value);
                },
                Err(errors) => {
                    self.extend(errors);
                },
            }
        }
        assert(all.take(all.len() as int) =~= all);
        values
    }

    /// The failures, oldest first, to take one by one.
    pub fn into_iter(self) -> (iter: ErrorsIter)
        ensures
            iter@ == self@,
    {
        let mut errors = self.errors;
        let ghost all = errors@;
        let mut rest: Vec<StagingError> = Vec::new();
        while errors.len() > 0
            invariant
                errors@.len() + rest@.len() == all.len(),
                errors@ == all.take(errors@.len() as int),
                forall|i: int| 0 <= i < rest@.len() ==> rest@[i] == all[all.len() - 1 - i],
            decreases errors.len(),
        {
            let error = errors.pop().unwrap();
            rest.push(error);
        }
        let iter = ErrorsIter { rest };
        assert(iter@ =~= self@);
        iter
    }

    /// The reports of all failures, each followed by a line break.
    pub fn to_string(&self) -> (s: String)
        ensures
            s@ == report(self@),
    {
        let mut out = String::new();
        let mut i: usize = 0;
        while i < self.errors.len()
            invariant
                i <= self.errors.len(),
                out@ == report(self@.take(i as int)),
            decreases self.errors.len() - i,
        {
            proof {
                assert(self@.take(i + 1).drop_last() =~= self@.take(i as int));
            }
            let text = self.errors[i].to_string();
            out.append(text.as_str());
            out.append("\n");
            i += 1;
        }
        assert(self@.take(i as int) =~= self@);
        out
    }
}

/// Decides what `results` amount to together. Every result is looked at:
/// none stops the pass.
pub fn gather<T>(results: Vec<Result<T, Errors>>) -> (r: Result<Vec<T>, Errors>)
    ensures
        gathered(results@, r),
{
    let mut errors = Errors::new();
    let values = errors.partition(results);
    assert(errors@ =~= failures(results@));
    errors.ok(values)
}

/// Decides what `results` amount to together where their values do not
/// matter. Every result is looked at: none stops the pass.
pub fn settle<T>(results: Vec<Result<T, Errors>>) -> (r: Result<(), Errors>)
    ensures
        settled(results@, r),
{
    let mut errors = Errors::new();
    let _ = errors.partition(results);
    assert(errors@ =~= failures(results@));
    errors.ok(())
}

/// Decides what `results`, each with a list of values, amount to together.
/// Every result is looked at: none stops the pass.
pub fn combine<T>(results: Vec<Result<Vec<T>, Errors>>) -> (r: Result<Vec<T>, Errors>)
    ensures
        combined(results@, r),
{
    let mut errors = Errors::new();
    let lists = errors.partition(results);
    let ghost all = lists@;
    let mut values: Vec<T> = Vec::new();
    assert(values@ =~= flat(all.take(0)));
    for list in it: lists
        invariant
            it.seq() == all,
            values@ == flat(all.take(it.index() as int)),
    {
        proof {
            let next = all.take(it.index() + 1);
            assert(next.drop_last() =~= all.take(it.index() as int));
            assert(next.last() == list);
        }
        let mut list = list;
        values.append(&mut list);
    }
    assert(all.take(all.len() as int) =~= all);
    assert(errors@ =~= failures(results@));
    errors.ok(values)
}

impl From<StagingError> for Errors {
    /// The batch of one failure.
    fn from(error: StagingError) -> (errors: Errors)
        ensures
            errors@ == seq![error@],
    {
        Errors::with_error(error)
    }
}

impl vstd::std_specs::convert::FromSpecImpl<StagingError> for Errors {
    /// Two batches of the same failures are not known to be the same value,
    /// so `from` is described by its own contract alone.
    open spec fn obeys_from_spec() -> bool {
        false
    }

    open spec fn from_spec(error: StagingError) -> Errors {
        arbitrary()
    }
}

impl Default for Errors {
    /// An empty batch.
    fn default() -> (errors: Errors)
        ensures
            errors@ == Seq::<StagingErrorView>::empty(),
    {
        Errors::new()
    }
}

/// Iterate over errors from a staging operation;
#[derive(Debug)]
pub struct ErrorsIter {
    rest: Vec<StagingError>,
}

impl View for ErrorsIter {
    type V = Seq<StagingErrorView>;

    /// The failures still to come, next first.
    closed spec fn view(&self) -> Seq<StagingErrorView> {
        self.rest.deep_view().reverse()
    }
}

impl ErrorsIter {
    /// Takes the next failure, if one is left.
    pub fn next(&mut self) -> (error: Option<StagingError>)
        ensures
            old(self)@.len() == 0 ==> error is None && final(self)@ == old(self)@,
            old(self)@.len() > 0 ==> error.deep_view() == Some(old(self)@[0]) && final(self)@
                == old(self)@.skip(1),
    {
        let error = self.rest.pop();
        assert(old(self)@.len() > 0 ==> self@ =~= old(self)@.skip(1));
        error
    }

    /// How many failures are left: the lower and the upper bound agree.
    pub fn size_hint(&self) -> (bounds: (usize, Option<usize>))
        ensures
            bounds.0 == self@.len(),
            bounds.1 == Some(self@.len() as usize),
    {
        (self.rest.len(), Some(self.rest.len()))
    }

    /// How many failures are left.
    pub fn count(self) -> (n: usize)
        ensures
            n == self@.len(),
    {
        self.rest.len()
    }
}

} // verus!

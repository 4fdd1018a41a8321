use stager::error::combine;
use stager::error::gather;
use stager::error::ErrorKind;
use stager::error::Errors;
use stager::error::StagingError;

fn failure(context: &str) -> StagingError {
    ErrorKind::HarvestingFailed
        .error()
        .set_context(context.to_string())
}

fn batch(contexts: &[&str]) -> Errors {
    Errors::from_iter(contexts.iter().map(|context| failure(context)).collect())
}

fn contexts(errors: &Errors) -> Vec<String> {
    (0..errors.len())
        .map(|index| errors.get(index).context().unwrap().clone())
        .collect()
}

#[test]
fn kinds_describe_themselves() {
    assert_eq!(
        ErrorKind::InvalidConfiguration.to_string(),
        "Error in the configuration."
    );
    assert_eq!(
        ErrorKind::HarvestingFailed.to_string(),
        "Preparing to stage failed."
    );
    assert_eq!(ErrorKind::StagingFailed.to_string(), "Staging failed.");
}

#[test]
fn a_new_error_holds_its_kind_alone() {
    let error = StagingError::new(ErrorKind::StagingFailed);
    assert_eq!(error.kind(), ErrorKind::StagingFailed);
    assert!(error.context().is_none());
    assert!(error.cause().is_none());
    assert_eq!(
        ErrorKind::InvalidConfiguration.error().kind(),
        ErrorKind::InvalidConfiguration
    );
}

#[test]
fn context_and_cause_are_kept_apart() {
    let error = ErrorKind::StagingFailed
        .error()
        .set_context("copying a file".to_string())
        .set_cause("permission denied".to_string());
    assert_eq!(error.kind(), ErrorKind::StagingFailed);
    assert_eq!(error.context().unwrap(), "copying a file");
    assert_eq!(error.cause().unwrap(), "permission denied");
    let again = error.clone().set_context("linking".to_string());
    assert_eq!(again.context().unwrap(), "linking");
    assert_eq!(again.cause().unwrap(), "permission denied");
    assert_eq!(error.context().unwrap(), "copying a file");
}

#[test]
fn an_error_reports_kind_context_and_cause() {
    assert_eq!(
        ErrorKind::HarvestingFailed.error().to_string(),
        "Staging failed: Preparing to stage failed.\n"
    );
    assert_eq!(
        failure("no files").to_string(),
        "Staging failed: Preparing to stage failed.\nno files\n"
    );
    assert_eq!(
        ErrorKind::StagingFailed
            .error()
            .set_cause("disk full".to_string())
            .to_string(),
        "Staging failed: Staging failed.\nCause: disk full\n"
    );
    assert_eq!(
        ErrorKind::InvalidConfiguration
            .error()
            .set_context("bad path".to_string())
            .set_cause("escape".to_string())
            .to_string(),
        "Staging failed: Error in the configuration.\nbad path\nCause: escape\n"
    );
}

#[test]
fn a_batch_reports_each_error_with_a_break() {
    assert_eq!(Errors::new().to_string(), "");
    assert_eq!(
        batch(&["a", "b"]).to_string(),
        "Staging failed: Preparing to stage failed.\na\n\nStaging failed: Preparing to stage failed.\nb\n\n"
    );
}

#[test]
fn a_batch_grows_at_its_end() {
    let mut errors = Errors::new();
    assert!(errors.is_empty());
    assert_eq!(errors.len(), 0);
    errors.push(failure("a"));
    errors.extend(batch(&["b", "c"]));
    errors.push(failure("d"));
    assert!(!errors.is_empty());
    assert_eq!(contexts(&errors), vec!["a", "b", "c", "d"]);
    assert_eq!(contexts(&Errors::with_error(failure("x"))), vec!["x"]);
    assert_eq!(contexts(&Errors::from(failure("y"))), vec!["y"]);
    assert!(Errors::default().is_empty());
}

#[test]
fn ok_surfaces_a_batch_only_if_it_holds_errors() {
    assert_eq!(Errors::new().ok(7).unwrap(), 7);
    let errors = batch(&["a"]).ok(7).unwrap_err();
    assert_eq!(contexts(&errors), vec!["a"]);
}

#[test]
fn partition_continues_past_failures() {
    let mut errors = batch(&["before"]);
    let values = errors.partition(vec![
        Ok(1),
        Err(batch(&["a", "b"])),
        Ok(2),
        Err(batch(&[])),
        Err(batch(&["c"])),
        Ok(3),
    ]);
    assert_eq!(values, vec![1, 2, 3]);
    assert_eq!(contexts(&errors), vec!["before", "a", "b", "c"]);
}

#[test]
fn gather_succeeds_only_without_any_failure() {
    let values = gather(vec![Ok(1), Ok(2), Ok(3)]).unwrap();
    assert_eq!(values, vec![1, 2, 3]);
    let none: Vec<Result<u8, Errors>> = vec![];
    assert!(gather(none).unwrap().is_empty());
    let errors = gather(vec![Ok(1), Err(batch(&["a"])), Ok(3), Err(batch(&["b", "c"]))]).unwrap_err();
    assert_eq!(contexts(&errors), vec!["a", "b", "c"]);
}

#[test]
fn combine_flattens_or_gathers_every_failure() {
    let values = combine(vec![Ok(vec![1, 2]), Ok(vec![]), Ok(vec![3])]).unwrap();
    assert_eq!(values, vec![1, 2, 3]);
    let errors = combine(vec![
        Err(batch(&["a"])),
        Ok(vec![1]),
        Err(batch(&["b"])),
    ])
    .unwrap_err();
    assert_eq!(contexts(&errors), vec!["a", "b"]);
}

#[test]
fn one_failure_among_successes_is_the_whole_failure() {
    let results = vec![Ok(vec![1]), Err(batch(&["only"])), Ok(vec![2, 3])];
    let errors = combine(results).unwrap_err();
    assert_eq!(errors.len(), 1);
    assert_eq!(contexts(&errors), vec!["only"]);
    assert_eq!(combine(vec![Ok(vec![2, 3])]).unwrap(), vec![2, 3]);
}

#[test]
fn errors_are_taken_oldest_first() {
    let mut iter = batch(&["a", "b", "c"]).into_iter();
    assert_eq!(iter.size_hint(), (3, Some(3)));
    assert_eq!(iter.next().unwrap().context().unwrap(), "a");
    assert_eq!(iter.size_hint(), (2, Some(2)));
    assert_eq!(iter.next().unwrap().context().unwrap(), "b");
    assert_eq!(iter.next().unwrap().context().unwrap(), "c");
    assert!(iter.next().is_none());
    assert!(iter.next().is_none());
    assert_eq!(iter.size_hint(), (0, Some(0)));
    assert_eq!(batch(&["a", "b"]).into_iter().count(), 2);
    assert_eq!(Errors::new().into_iter().count(), 0);
}

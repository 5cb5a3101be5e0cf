use dataset_destroyer::error::Error;
use dataset_destroyer::processor::batch::conclude;
use dataset_destroyer::processor::batch::may_start;
use dataset_destroyer::processor::batch::require_inputs;
use dataset_destroyer::processor::batch::settle;
use dataset_destroyer::processor::batch::Report;

fn decode(text: &str) -> Error {
    Error::Decode(text.to_string())
}

/// Runs the images one after the other as a worker would: each asks the
/// flag before it starts.
fn run(outcomes: Vec<Result<(), Error>>) -> (Vec<Report>, usize) {
    let mut flag = false;
    let mut progress = 0;
    let mut reports = Vec::new();
    for outcome in outcomes {
        let report = if may_start(flag) { settle(outcome) } else { Report::Skipped };
        if report.raises_flag() {
            flag = true;
        }
        if report.advances() {
            progress += 1;
        }
        reports.push(report);
    }
    (reports, progress)
}

#[test]
fn no_input_file_is_an_error() {
    assert_eq!(require_inputs(0), Err(Error::NoInputFiles));
    assert_eq!(require_inputs(1), Ok(()));
    assert_eq!(require_inputs(usize::MAX), Ok(()));
}

#[test]
fn image_starts_only_while_the_flag_is_down() {
    assert!(may_start(false));
    assert!(!may_start(true));
}

#[test]
fn outcome_settles_into_its_report() {
    assert_eq!(settle(Ok(())), Report::Saved);
    assert_eq!(settle(Err(decode("bad"))), Report::Failed(decode("bad")));
    assert!(Report::Saved.advances());
    assert!(!Report::Saved.raises_flag());
    assert!(!Report::Skipped.advances());
    assert!(!Report::Skipped.raises_flag());
    assert!(!Report::Failed(Error::EmptySet).advances());
    assert!(Report::Failed(Error::EmptySet).raises_flag());
}

#[test]
fn run_without_failure_succeeds() {
    assert_eq!(conclude(vec![]), Ok(()));
    assert_eq!(conclude(vec![Report::Saved, Report::Saved]), Ok(()));
    assert_eq!(conclude(vec![Report::Saved, Report::Skipped]), Ok(()));
}

#[test]
fn run_fails_with_the_first_failure_in_input_order() {
    let reports = vec![
        Report::Saved,
        Report::Failed(decode("second")),
        Report::Saved,
        Report::Failed(Error::Encode("fourth".to_string())),
        Report::Skipped,
    ];
    assert_eq!(conclude(reports), Err(decode("second")));
    assert_eq!(conclude(vec![Report::Failed(Error::TypeMismatch)]), Err(Error::TypeMismatch));
    assert_eq!(
        conclude(vec![Report::Skipped, Report::Skipped, Report::Failed(Error::EmptySet)]),
        Err(Error::EmptySet)
    );
}

#[test]
fn failing_image_fails_the_run_and_keeps_later_images_from_starting() {
    let outcomes = vec![Ok(()), Ok(()), Err(decode("image 3")), Ok(()), Ok(())];
    let total = outcomes.len();
    let (reports, progress) = run(outcomes);
    assert_eq!(
        reports,
        vec![
            Report::Saved,
            Report::Saved,
            Report::Failed(decode("image 3")),
            Report::Skipped,
            Report::Skipped,
        ]
    );
    assert_eq!(progress, 2);
    assert!(progress < total);
    assert_eq!(conclude(reports), Err(decode("image 3")));
}

#[test]
fn images_in_flight_may_still_complete_after_a_failure() {
    let reports = vec![
        Report::Saved,
        Report::Failed(decode("image 2")),
        Report::Saved,
        Report::Skipped,
    ];
    let saved = reports.iter().filter(|report| report.advances()).count();
    assert_eq!(saved, 2);
    assert!(saved < reports.len());
    assert_eq!(conclude(reports), Err(decode("image 2")));
}

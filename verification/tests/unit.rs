use dataset_destroyer::config::compression::Jpeg;
use dataset_destroyer::config::enumerations::FileName;
use dataset_destroyer::config::enumerations::OutputType;
use dataset_destroyer::config::enumerations::Parameter;
use dataset_destroyer::config::enumerations::SaveFormat;
use dataset_destroyer::config::filter::Sharpen3x3;
use dataset_destroyer::config::Config;
use dataset_destroyer::config::ImageModifier;
use dataset_destroyer::config::Output;
use dataset_destroyer::config::Sequence;
use dataset_destroyer::error::ConfigFault;
use dataset_destroyer::error::Error;
use dataset_destroyer::processor::batch::settle;
use dataset_destroyer::processor::batch::Report;
use dataset_destroyer::processor::step::Step;
use dataset_destroyer::processor::unit::begin;
use dataset_destroyer::processor::unit::Next;

fn jpeg(id: &str, quality: Parameter) -> ImageModifier {
    ImageModifier::Jpeg(Box::new(Jpeg { id: id.to_string(), quality }))
}

fn config(execute: Option<Parameter>) -> Config {
    Config {
        input: None,
        output: Some(Output {
            save: OutputType::Each,
            path: "out".to_string(),
            naming: FileName::Original,
            format: SaveFormat::Original,
        }),
        progress: None,
        define: Some(vec![
            ImageModifier::Sharpen3x3(Box::new(Sharpen3x3 { id: "sharpen".to_string() })),
            jpeg("jpeg", Parameter::Int(70)),
            jpeg("broken", Parameter::Id("x".to_string())),
        ]),
        sequence: Some(vec![
            Sequence {
                id: "both".to_string(),
                elements: vec![Parameter::Id("sharpen".to_string()), Parameter::Id("jpeg".to_string())],
            },
            Sequence {
                id: "breaks".to_string(),
                elements: vec![
                    Parameter::Id("sharpen".to_string()),
                    Parameter::Id("broken".to_string()),
                    Parameter::Id("jpeg".to_string()),
                ],
            },
        ]),
        execute,
    }
}

/// Works on one image as a driver would, with an algorithm that fails on
/// the steps it is told to fail on, and says which steps were run and what
/// the work came to.
fn drive(config: &Config, decode: Result<(), Error>, failing: &[Step], save: Result<(), Error>) -> (Vec<Step>, Report) {
    let mut ran = Vec::new();
    let begun = match begin(config) {
        Ok(begun) => begun,
        Err(e) => return (ran, Report::Failed(e)),
    };
    let pending = match begun.decoded(decode) {
        Ok(pending) => pending,
        Err(e) => return (ran, Report::Failed(e)),
    };
    let mut next = pending.proceed();
    loop {
        next = match next {
            Next::Apply(pending, step) => {
                ran.push(step);
                if failing.contains(&step) {
                    pending.applied(Err(Error::Algorithm("rejected".to_string())))
                } else {
                    pending.applied(Ok(()))
                }
            },
            Next::Save(output) => {
                assert_eq!(output.path(), "out");
                return (ran, settle(save));
            },
            Next::Finish(report) => return (ran, report),
        };
    }
}

#[test]
fn work_on_an_image_runs_the_plan_in_order_and_saves() {
    let config = config(Some(Parameter::Id("both".to_string())));
    let (ran, report) = drive(&config, Ok(()), &[], Ok(()));
    assert_eq!(ran, vec![Step::Sharpen3x3, Step::Jpeg { quality: 70 }]);
    assert_eq!(report, Report::Saved);
}

#[test]
fn work_on_an_image_with_an_empty_plan_only_saves() {
    let mut config = config(Some(Parameter::Id("none".to_string())));
    config.sequence = Some(vec![Sequence { id: "none".to_string(), elements: vec![] }]);
    let (ran, report) = drive(&config, Ok(()), &[], Ok(()));
    assert_eq!(ran, vec![]);
    assert_eq!(report, Report::Saved);
}

#[test]
fn work_cannot_begin_without_an_output() {
    let mut config = config(Some(Parameter::Id("both".to_string())));
    config.output = None;
    match begin(&config) {
        Err(e) => assert_eq!(e, Error::Config(ConfigFault::MissingOutput)),
        Ok(_) => panic!("there is no output section"),
    }
    let (ran, report) = drive(&config, Ok(()), &[], Ok(()));
    assert_eq!(ran, vec![]);
    assert_eq!(report, Report::Failed(Error::Config(ConfigFault::MissingOutput)));
}

#[test]
fn image_that_cannot_be_read_ends_the_work_before_any_plan() {
    let config = config(None);
    let unreadable = Error::Decode("not an image".to_string());
    let (ran, report) = drive(&config, Err(unreadable.clone()), &[], Ok(()));
    assert_eq!(ran, vec![]);
    assert_eq!(report, Report::Failed(unreadable));
}

#[test]
fn failure_of_the_plan_ends_the_work_before_any_step() {
    let (ran, report) = drive(&config(None), Ok(()), &[], Ok(()));
    assert_eq!(ran, vec![]);
    assert_eq!(report, Report::Failed(Error::Config(ConfigFault::MissingExecute)));
    let unknown = config(Some(Parameter::Id("nothing".to_string())));
    let (ran, report) = drive(&unknown, Ok(()), &[], Ok(()));
    assert_eq!(ran, vec![]);
    assert_eq!(report, Report::Failed(Error::UnknownIdentifier("nothing".to_string())));
}

#[test]
fn step_that_fails_ends_the_work_at_once() {
    let config = config(Some(Parameter::Id("both".to_string())));
    let (ran, report) = drive(&config, Ok(()), &[Step::Sharpen3x3], Ok(()));
    assert_eq!(ran, vec![Step::Sharpen3x3]);
    assert_eq!(report, Report::Failed(Error::Algorithm("rejected".to_string())));
    let (ran, report) = drive(&config, Ok(()), &[Step::Jpeg { quality: 70 }], Ok(()));
    assert_eq!(ran, vec![Step::Sharpen3x3, Step::Jpeg { quality: 70 }]);
    assert_eq!(report, Report::Failed(Error::Algorithm("rejected".to_string())));
}

#[test]
fn operation_whose_parameters_do_not_resolve_ends_the_work_after_the_steps_before_it() {
    let config = config(Some(Parameter::Id("breaks".to_string())));
    let (ran, report) = drive(&config, Ok(()), &[], Ok(()));
    assert_eq!(ran, vec![Step::Sharpen3x3]);
    assert_eq!(report, Report::Failed(Error::TypeMismatch));
}

#[test]
fn image_that_cannot_be_written_fails_after_all_steps() {
    let config = config(Some(Parameter::Id("both".to_string())));
    let unwritable = Error::Encode("disk full".to_string());
    let (ran, report) = drive(&config, Ok(()), &[], Err(unwritable.clone()));
    assert_eq!(ran.len(), 2);
    assert_eq!(report, Report::Failed(unwritable));
}

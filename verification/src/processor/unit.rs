//! The work on one image, step by step.
//!
//! The library decides what is done next and the caller does it: it reads
//! the image, runs a step on it, writes it, and says each time how that
//! went. A failure at any point ends the work; the steps of the plan are
//! handed out in their order, each with its parameters resolved when its
//! turn comes; the image is written after the last step.

use vstd::prelude::*;
use crate::config::Config;
use crate::config::ImageModifier;
use crate::config::Output;
use crate::error::ConfigFault;
use crate::error::Error;
use crate::error::ErrorModel;
use crate::processor::batch::Report;
use crate::processor::parameter::names_of;
use crate::processor::step::Step;

verus! {

/// The work on one image before the image is read: the configuration says
/// where the result goes.
pub struct Begun<'a> {
    pub config: &'a Config,
    pub output: &'a Output,
}

/// The work on one image once its plan stands: the operations of the plan,
/// and how many of them are done with.
pub struct Pending<'a> {
    pub output: &'a Output,
    pub modifiers: Vec<&'a ImageModifier>,
    pub next: usize,
}

/// What is to be done next with an image.
pub enum Next<'a> {
    /// Run the step on the image, then say how it went.
    Apply(Pending<'a>, Step),
    /// All steps are done: write the image to this output.
    Save(&'a Output),
    /// The work has failed: nothing more is to be done.
    Finish(Report),
}

/// The identifiers of some operations, in their order.
pub open spec fn names_among(modifiers: Seq<&ImageModifier>) -> Seq<Seq<char>> {
    Seq::new(modifiers.len(), |i: int| modifiers[i].name())
}

/// Begins the work on one image. It cannot begin without an output
/// section.
pub fn begin<'a>(config: &'a Config) -> (r: Result<Begun<'a>, Error>)
    ensures
        match config.output {
            Some(output) => r matches Ok(begun) && begun.config == config && *begun.output == output,
            None => r matches Err(e) && e@ == ErrorModel::Config(ConfigFault::MissingOutput),
        },
{
    match &config.output {
        Some(output) => Ok(Begun { config, output }),
        None => Err(Error::Config(ConfigFault::MissingOutput)),
    }
}

impl<'a> Begun<'a> {
    /// Takes note of how reading the image went. A failure to read ends
    /// the work. After a good read the plan is built and its operations
    /// are looked up; a failure of the plan ends the work too.
    pub fn decoded(self, outcome: Result<(), Error>) -> (r: Result<Pending<'a>, Error>)
        ensures
            match outcome {
                Err(e) => r == Err::<Pending<'a>, Error>(e),
                Ok(_) => match r {
                    Ok(pending) => {
                        &&& self.config.plans(Ok(names_among(pending.modifiers@)))
                        &&& forall|i: int|
                            0 <= i < pending.modifiers@.len() ==> self.config.finds_modifier(
                                (#[trigger] pending.modifiers@[i]).name(),
                                *pending.modifiers@[i],
                            )
                        &&& pending.next == 0
                        &&& pending.output == self.output
                    },
                    Err(e) => self.config.plans(Err(e@)),
                },
            },
    {
        if let Err(e) = outcome {
            return Err(e);
        }
        let plan = self.config.build_plan()?;
        let ghost names = names_of(plan@);
        let modifiers = match self.config.plan_modifiers(&plan) {
            Ok(modifiers) => modifiers,
            Err(e) => {
                proof {
                    let i = choose|i: int|
                        0 <= i < plan@.len() && !self.config.has_modifier(#[trigger] plan@[i]@);
                    assert(names[i] == plan@[i]@);
                }
                return Err(e);
            },
        };
        proof {
            assert forall|i: int| 0 <= i < modifiers@.len() implies self.config.finds_modifier(
                (#[trigger] modifiers@[i]).name(),
                *modifiers@[i],
            ) && modifiers@[i].name() == names[i] by {
                assert(self.config.finds_modifier(plan@[i]@, *modifiers@[i]));
                let k = choose|k: int| #[trigger]
                    self.config.modifier_at(plan@[i]@, k) && *modifiers@[i] == self.config.modifiers()[k];
                assert(self.config.modifier_at(plan@[i]@, k));
            }
            assert(names_among(modifiers@) =~= names);
        }
        Ok(Pending { output: self.output, modifiers, next: 0 })
    }
}

impl<'a> Pending<'a> {
    /// Says what is to be done next: the parameters of the next operation
    /// are resolved and the step is handed out; an operation whose
    /// parameters do not resolve ends the work; after the last operation
    /// the image is to be written.
    pub fn proceed(self) -> (r: Next<'a>)
        ensures
            match r {
                Next::Apply(pending, step) => {
                    &&& self.next < self.modifiers@.len()
                    &&& self.modifiers@[self.next as int].step_error() is None
                    &&& self.modifiers@[self.next as int].admits_step(step)
                    &&& pending.modifiers == self.modifiers
                    &&& pending.next == self.next + 1
                    &&& pending.output == self.output
                },
                Next::Save(output) => self.next >= self.modifiers@.len() && output == self.output,
                Next::Finish(report) => {
                    &&& self.next < self.modifiers@.len()
                    &&& report matches Report::Failed(e)
                    &&& self.modifiers@[self.next as int].step_error() == Some(e@)
                },
            },
    {
        if self.next >= self.modifiers.len() {
            return Next::Save(self.output);
        }
        match self.modifiers[self.next].prepare() {
            Ok(step) => Next::Apply(
                Pending { output: self.output, modifiers: self.modifiers, next: self.next + 1 },
                step,
            ),
            Err(e) => Next::Finish(Report::Failed(e)),
        }
    }

    /// Takes note of how the step last handed out went. A failure ends the
    /// work; after a success the work proceeds.
    pub fn applied(self, outcome: Result<(), Error>) -> (r: Next<'a>)
        ensures
            match outcome {
                Err(e) => r matches Next::Finish(report) && report == Report::Failed(e),
                Ok(_) => match r {
                    Next::Apply(pending, step) => {
                        &&& self.next < self.modifiers@.len()
                        &&& self.modifiers@[self.next as int].step_error() is None
                        &&& self.modifiers@[self.next as int].admits_step(step)
                        &&& pending.modifiers == self.modifiers
                        &&& pending.next == self.next + 1
                        &&& pending.output == self.output
                    },
                    Next::Save(output) => self.next >= self.modifiers@.len() && output == self.output,
                    Next::Finish(report) => {
                        &&& self.next < self.modifiers@.len()
                        &&& report matches Report::Failed(e)
                        &&& self.modifiers@[self.next as int].step_error() == Some(e@)
                    },
                },
            },
    {
        match outcome {
            Err(e) => Next::Finish(Report::Failed(e)),
            Ok(_) => self.proceed(),
        }
    }
}

} // verus!

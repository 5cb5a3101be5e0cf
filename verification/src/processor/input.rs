//! Where the input of a run comes from.

use vstd::prelude::*;
use crate::config::Config;
use crate::config::Input;
use crate::config::enumerations::InputType;
use crate::error::ConfigFault;
use crate::error::Error;
use crate::error::ErrorModel;
use crate::processor::parameter::names_of;
use crate::processor::parameter::outcome_view;

verus! {

impl InputType {
    /// The path patterns that the input names, in their order; a path-list
    /// file names none, being reserved.
    pub open spec fn pattern_names(&self) -> Option<Seq<Seq<char>>> {
        match self {
            InputType::Path(pattern) => Some(seq![pattern@]),
            InputType::PathArr(patterns) => Some(names_of(patterns@)),
            InputType::PathFile => None,
        }
    }

    /// The path patterns to expand into input files.
    pub fn patterns(&self) -> (r: Result<Vec<String>, Error>)
        ensures
            match self.pattern_names() {
                Some(names) => outcome_view(r) == Ok::<Seq<Seq<char>>, ErrorModel>(names),
                None => outcome_view(r) == Err::<Seq<Seq<char>>, ErrorModel>(
                    ErrorModel::Config(ConfigFault::PathListFile),
                ),
            },
    {
        match self {
            InputType::Path(pattern) => {
                let mut patterns: Vec<String> = Vec::new();
                patterns.push(pattern.clone());
                assert(names_of(patterns@) =~= seq![pattern@]);
                Ok(patterns)
            },
            InputType::PathArr(given) => {
                let mut patterns: Vec<String> = Vec::new();
                let mut i: usize = 0;
                while i < given.len()
                    invariant
                        i <= given.len(),
                        patterns@.len() == i,
                        forall|j: int| 0 <= j < i ==> patterns@[j]@ == given@[j]@,
                    decreases given.len() - i,
                {
                    patterns.push(given[i].clone());
                    i += 1;
                }
                assert(names_of(patterns@) =~= names_of(given@));
                Ok(patterns)
            },
            InputType::PathFile => Err(Error::Config(ConfigFault::PathListFile)),
        }
    }
}

impl Config {
    /// The input section, which a run cannot do without.
    pub fn required_input(&self) -> (r: Result<&Input, Error>)
        ensures
            match self.input {
                Some(input) => r == Ok::<&Input, Error>(&input),
                None => r matches Err(e) && e@ == ErrorModel::Config(ConfigFault::MissingInput),
            },
    {
        match &self.input {
            Some(input) => Ok(input),
            None => Err(Error::Config(ConfigFault::MissingInput)),
        }
    }
}

} // verus!

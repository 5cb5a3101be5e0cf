//! The look of the progress bar.

use vstd::prelude::*;
use crate::config::Config;
use crate::config::ProgressSettings;

verus! {

/// The template of the progress bar where the configuration gives none.
pub const DEFAULT_TEMPLATE: &'static str =
    " Elapsed: {elapsed} {wide_bar} {percent}% | Files count: {pos}/{len} ";

/// The characters of the progress bar where the configuration gives none.
pub const DEFAULT_CHARS: &'static str = "->\u{c2}\u{b7}";

impl Config {
    /// The look of the progress bar: the configured one, or the default.
    pub fn progress_style(&self) -> (r: ProgressSettings)
        ensures
            match self.progress {
                Some(given) => r.template@ == given.template@ && r.chars@ == given.chars@,
                None => r.template@ == DEFAULT_TEMPLATE@ && r.chars@ == DEFAULT_CHARS@,
            },
    {
        match &self.progress {
            Some(given) => ProgressSettings {
                template: given.template.clone(),
                chars: given.chars.clone(),
            },
            None => ProgressSettings {
                template: DEFAULT_TEMPLATE.to_owned(),
                chars: DEFAULT_CHARS.to_owned(),
            },
        }
    }
}

} // verus!

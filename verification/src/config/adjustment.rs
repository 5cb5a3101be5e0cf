//! The tonal adjustments and their parameters.

use vstd::prelude::*;
use crate::config::enumerations::Parameter;
use crate::error::Error;
use crate::processor::parameter::FloatDraw;

verus! {

/// The tonal adjustments.
#[derive(Debug, Clone)]
pub enum ImageAdjustment {
    Brighten(Box<Brighten>),
    Contrast(Box<Contrast>),
}

/// A shift of brightness.
#[derive(Debug, Clone)]
pub struct Brighten {
    pub id: String,
    pub value: Parameter,
}

/// A change of contrast.
#[derive(Debug, Clone)]
pub struct Contrast {
    pub id: String,
    pub contrast: Parameter,
}

impl Brighten {
    /// The identifier of this operation.
    pub fn id(&self) -> (r: &str)
        ensures
            r@ == self.id@,
    {
        self.id.as_str()
    }

    /// Resolves the shift.
    pub fn value(&self) -> (r: Result<u32, Error>)
        ensures
            self.value.int_outcome(r),
    {
        self.value.resolve_int()
    }
}

impl Contrast {
    /// The identifier of this operation.
    pub fn id(&self) -> (r: &str)
        ensures
            r@ == self.id@,
    {
        self.id.as_str()
    }

    /// Resolves the contrast.
    pub fn contrast(&self) -> (r: Result<FloatDraw, Error>)
        ensures
            self.contrast.float_outcome(r),
    {
        self.contrast.float()
    }
}

} // verus!

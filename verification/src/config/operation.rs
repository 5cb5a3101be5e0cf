//! The changes of size and of colour layout and their parameters.

use vstd::prelude::*;
use crate::config::enumerations::Parameter;
use crate::config::enumerations::ResizeFilter;
use crate::error::ConfigFault;
use crate::error::Error;
use crate::error::ErrorModel;

verus! {

/// A change of size.
#[derive(Debug, Clone)]
pub struct Resize {
    pub id: String,
    pub width: Option<Parameter>,
    pub height: Option<Parameter>,
    pub filter: ResizeFilter,
}

/// A conversion to luma with alpha.
#[derive(Debug, Clone)]
pub struct ToLumaAlpha {
    pub id: String,
}

/// A conversion to luma.
#[derive(Debug, Clone)]
pub struct ToLuma {
    pub id: String,
}

/// A conversion to RGB with alpha.
#[derive(Debug, Clone)]
pub struct ToRgba {
    pub id: String,
}

/// A conversion to RGB.
#[derive(Debug, Clone)]
pub struct ToRgb {
    pub id: String,
}

impl Resize {
    /// The identifier of this operation.
    pub fn id(&self) -> (r: &str)
        ensures
            r@ == self.id@,
    {
        self.id.as_str()
    }

    /// Resolves the new width; a resize without one is a fault of the
    /// configuration.
    pub fn width(&self) -> (r: Result<u32, Error>)
        ensures
            match self.width {
                Some(width) => width.int_outcome(r),
                None => r matches Err(e) && e@ == ErrorModel::Config(ConfigFault::MissingWidth),
            },
    {
        match &self.width {
            Some(width) => width.resolve_int(),
            None => Err(Error::Config(ConfigFault::MissingWidth)),
        }
    }

    /// Resolves the new height; a resize without one is a fault of the
    /// configuration.
    pub fn height(&self) -> (r: Result<u32, Error>)
        ensures
            match self.height {
                Some(height) => height.int_outcome(r),
                None => r matches Err(e) && e@ == ErrorModel::Config(ConfigFault::MissingHeight),
            },
    {
        match &self.height {
            Some(height) => height.resolve_int(),
            None => Err(Error::Config(ConfigFault::MissingHeight)),
        }
    }

    /// The resampling kernel.
    pub fn filter(&self) -> (r: ResizeFilter)
        ensures
            r == self.filter,
    {
        self.filter
    }
}

impl ToLumaAlpha {
    /// The identifier of this operation.
    pub fn id(&self) -> (r: &str)
        ensures
            r@ == self.id@,
    {
        self.id.as_str()
    }
}

impl ToLuma {
    /// The identifier of this operation.
    pub fn id(&self) -> (r: &str)
        ensures
            r@ == self.id@,
    {
        self.id.as_str()
    }
}

impl ToRgba {
    /// The identifier of this operation.
    pub fn id(&self) -> (r: &str)
        ensures
            r@ == self.id@,
    {
        self.id.as_str()
    }
}

impl ToRgb {
    /// The identifier of this operation.
    pub fn id(&self) -> (r: &str)
        ensures
            r@ == self.id@,
    {
        self.id.as_str()
    }
}

} // verus!

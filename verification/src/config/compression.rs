//! The lossy round trips and their parameters.

use vstd::prelude::*;
use crate::config::enumerations::Parameter;
use crate::error::Error;

verus! {

/// The lossy round trips.
#[derive(Debug, Clone)]
pub enum ImageCompression {
    Jpeg(Box<Jpeg>),
    WebP(Box<WebP>),
}

/// A round trip through JPEG.
#[derive(Debug, Clone)]
pub struct Jpeg {
    pub id: String,
    pub quality: Parameter,
}

/// A round trip through lossy WebP.
#[derive(Debug, Clone)]
pub struct WebP {
    pub id: String,
    pub quality: Parameter,
}

impl Jpeg {
    /// The identifier of this operation.
    pub fn id(&self) -> (r: &str)
        ensures
            r@ == self.id@,
    {
        self.id.as_str()
    }

    /// Resolves the quality.
    pub fn quality(&self) -> (r: Result<u32, Error>)
        ensures
            self.quality.int_outcome(r),
    {
        self.quality.resolve_int()
    }
}

impl WebP {
    /// The identifier of this operation.
    pub fn id(&self) -> (r: &str)
        ensures
            r@ == self.id@,
    {
        self.id.as_str()
    }

    /// Resolves the quality.
    pub fn quality(&self) -> (r: Result<u32, Error>)
        ensures
            self.quality.int_outcome(r),
    {
        self.quality.resolve_int()
    }
}

} // verus!

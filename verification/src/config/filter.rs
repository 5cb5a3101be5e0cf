//! The filters and their parameters.

use vstd::prelude::*;
use crate::config::enumerations::Parameter;
use crate::error::Error;
use crate::processor::parameter::FloatDraw;

verus! {

/// An edge-preserving smoothing filter.
#[derive(Debug, Clone)]
pub struct BilateralFilter {
    pub id: String,
    pub window_size: Parameter,
    pub sigma_color: Parameter,
    pub sigma_spatial: Parameter,
}

/// A mean filter over a rectangle.
#[derive(Debug, Clone)]
pub struct BoxFilter {
    pub id: String,
    pub x_radius: Parameter,
    pub y_radius: Parameter,
}

/// A Gaussian blur.
#[derive(Debug, Clone)]
pub struct GaussianBlur {
    pub id: String,
    pub sigma: Parameter,
}

/// A sharpening filter with a fixed 3x3 kernel.
#[derive(Debug, Clone)]
pub struct Sharpen3x3 {
    pub id: String,
}

/// Sharpening by an unsharp mask.
#[derive(Debug, Clone)]
pub struct SharpenGaussian {
    pub id: String,
    pub sigma: Parameter,
    pub amount: Parameter,
}

/// A median filter over a rectangle.
#[derive(Debug, Clone)]
pub struct MedianFilter {
    pub id: String,
    pub x_radius: Parameter,
    pub y_radius: Parameter,
}

impl BilateralFilter {
    /// The identifier of this operation.
    pub fn id(&self) -> (r: &str)
        ensures
            r@ == self.id@,
    {
        self.id.as_str()
    }

    /// Resolves the window size.
    pub fn window_size(&self) -> (r: Result<u32, Error>)
        ensures
            self.window_size.int_outcome(r),
    {
        self.window_size.resolve_int()
    }

    /// Resolves the colour deviation.
    pub fn sigma_color(&self) -> (r: Result<FloatDraw, Error>)
        ensures
            self.sigma_color.float_outcome(r),
    {
        self.sigma_color.float()
    }

    /// Resolves the spatial deviation.
    pub fn sigma_spatial(&self) -> (r: Result<FloatDraw, Error>)
        ensures
            self.sigma_spatial.float_outcome(r),
    {
        self.sigma_spatial.float()
    }
}

impl BoxFilter {
    /// The identifier of this operation.
    pub fn id(&self) -> (r: &str)
        ensures
            r@ == self.id@,
    {
        self.id.as_str()
    }

    /// Resolves the horizontal radius.
    pub fn x_radius(&self) -> (r: Result<u32, Error>)
        ensures
            self.x_radius.int_outcome(r),
    {
        self.x_radius.resolve_int()
    }

    /// Resolves the vertical radius.
    pub fn y_radius(&self) -> (r: Result<u32, Error>)
        ensures
            self.y_radius.int_outcome(r),
    {
        self.y_radius.resolve_int()
    }
}

impl GaussianBlur {
    /// The identifier of this operation.
    pub fn id(&self) -> (r: &str)
        ensures
            r@ == self.id@,
    {
        self.id.as_str()
    }

    /// Resolves the deviation.
    pub fn sigma(&self) -> (r: Result<FloatDraw, Error>)
        ensures
            self.sigma.float_outcome(r),
    {
        self.sigma.float()
    }
}

impl Sharpen3x3 {
    /// The identifier of this operation.
    pub fn id(&self) -> (r: &str)
        ensures
            r@ == self.id@,
    {
        self.id.as_str()
    }
}

impl SharpenGaussian {
    /// The identifier of this operation.
    pub fn id(&self) -> (r: &str)
        ensures
            r@ == self.id@,
    {
        self.id.as_str()
    }

    /// Resolves the deviation.
    pub fn sigma(&self) -> (r: Result<FloatDraw, Error>)
        ensures
            self.sigma.float_outcome(r),
    {
        self.sigma.float()
    }

    /// Resolves the strength.
    pub fn amount(&self) -> (r: Result<FloatDraw, Error>)
        ensures
            self.amount.float_outcome(r),
    {
        self.amount.float()
    }
}

impl MedianFilter {
    /// The identifier of this operation.
    pub fn id(&self) -> (r: &str)
        ensures
            r@ == self.id@,
    {
        self.id.as_str()
    }

    /// Resolves the horizontal radius.
    pub fn x_radius(&self) -> (r: Result<u32, Error>)
        ensures
            self.x_radius.int_outcome(r),
    {
        self.x_radius.resolve_int()
    }

    /// Resolves the vertical radius.
    pub fn y_radius(&self) -> (r: Result<u32, Error>)
        ensures
            self.y_radius.int_outcome(r),
    {
        self.y_radius.resolve_int()
    }
}

} // verus!

//! An operation with its parameters resolved.

use vstd::prelude::*;
use crate::config::ImageModifier;
use crate::config::enumerations::Parameter;
use crate::config::enumerations::ResizeFilter;
use crate::error::ConfigFault;
use crate::error::Error;
use crate::error::ErrorModel;
use crate::processor::parameter::FloatDraw;

verus! {

/// One operation with its parameters resolved for one image: what is
/// handed to the algorithm.
#[derive(Debug, Clone, Copy, PartialEq, Eq, Structural)]
pub enum Step {
    BoxFilter { x_radius: u32, y_radius: u32 },
    Sharpen3x3,
    GaussianBlur { sigma: FloatDraw },
    MedianFilter { x_radius: u32, y_radius: u32 },
    BilateralFilter { window_size: u32, sigma_color: FloatDraw, sigma_spatial: FloatDraw },
    SharpenGaussian { sigma: FloatDraw, amount: FloatDraw },
    /// The quality is the low byte of the resolved integer.
    Jpeg { quality: u8 },
    /// The quality is the low byte of the resolved integer.
    WebP { quality: u8 },
    /// The shift is the resolved integer read as a signed one.
    Brighten { value: i32 },
    Contrast { contrast: FloatDraw },
    Resize { width: usize, height: usize, filter: ResizeFilter },
    ToLumaAlpha,
    ToLuma,
    ToRgb,
    ToRgba,
}

/// The low byte of an integer.
pub open spec fn low_byte(value: u32) -> u8 {
    value as u8
}

/// An integer of 32 bits read as a signed one.
pub open spec fn as_signed(value: u32) -> i32 {
    value as i32
}

/// The first of two errors that is there.
pub open spec fn first_of(first: Option<ErrorModel>, second: Option<ErrorModel>) -> Option<ErrorModel> {
    if first is Some {
        first
    } else {
        second
    }
}

/// The error with which resolving a side of a resize ends, where the rule
/// decides it: a side that is not given is a fault of the configuration.
pub open spec fn side_error(side: Option<Parameter>, fault: ConfigFault) -> Option<ErrorModel> {
    match side {
        Some(parameter) => parameter.int_error(),
        None => Some(ErrorModel::Config(fault)),
    }
}

/// Whether a side of a resize may resolve to `length`.
pub open spec fn admits_side(side: Option<Parameter>, length: usize) -> bool {
    side matches Some(parameter) && exists|value: u32| #[trigger]
        parameter.admits_int(value) && length == value
}

impl ImageModifier {
    /// The error with which resolving the parameters ends, where their
    /// rules decide it: the error of the first parameter that has one, in
    /// the order in which the operation reads them.
    pub open spec fn step_error(&self) -> Option<ErrorModel> {
        match self {
            ImageModifier::BoxFilter(m) => first_of(m.x_radius.int_error(), m.y_radius.int_error()),
            ImageModifier::Sharpen3x3(_) => None,
            ImageModifier::GaussianBlur(m) => m.sigma.float_error(),
            ImageModifier::MedianFilter(m) => first_of(m.x_radius.int_error(), m.y_radius.int_error()),
            ImageModifier::BilateralFilter(m) => first_of(
                m.window_size.int_error(),
                first_of(m.sigma_color.float_error(), m.sigma_spatial.float_error()),
            ),
            ImageModifier::SharpenGaussian(m) => first_of(m.sigma.float_error(), m.amount.float_error()),
            ImageModifier::Jpeg(m) => m.quality.int_error(),
            ImageModifier::WebP(m) => m.quality.int_error(),
            ImageModifier::Brighten(m) => m.value.int_error(),
            ImageModifier::Contrast(m) => m.contrast.float_error(),
            ImageModifier::Resize(m) => first_of(
                side_error(m.width, ConfigFault::MissingWidth),
                side_error(m.height, ConfigFault::MissingHeight),
            ),
            ImageModifier::ToLumaAlpha(_) => None,
            ImageModifier::ToLuma(_) => None,
            ImageModifier::ToRgb(_) => None,
            ImageModifier::ToRgba(_) => None,
        }
    }

    /// Whether resolving the parameters may give `step`: the step is of the
    /// operation's kind and each of its values is one that the parameter
    /// behind it may resolve to.
    pub open spec fn admits_step(&self, step: Step) -> bool {
        match self {
            ImageModifier::BoxFilter(m) => step matches Step::BoxFilter { x_radius, y_radius }
                && m.x_radius.admits_int(x_radius) && m.y_radius.admits_int(y_radius),
            ImageModifier::Sharpen3x3(_) => step == Step::Sharpen3x3,
            ImageModifier::GaussianBlur(m) => step matches Step::GaussianBlur { sigma }
                && m.sigma.admits_float(sigma),
            ImageModifier::MedianFilter(m) => step matches Step::MedianFilter { x_radius, y_radius }
                && m.x_radius.admits_int(x_radius) && m.y_radius.admits_int(y_radius),
            ImageModifier::BilateralFilter(m) => step matches Step::BilateralFilter {
                window_size,
                sigma_color,
                sigma_spatial,
            } && m.window_size.admits_int(window_size) && m.sigma_color.admits_float(sigma_color)
                && m.sigma_spatial.admits_float(sigma_spatial),
            ImageModifier::SharpenGaussian(m) => step matches Step::SharpenGaussian { sigma, amount }
                && m.sigma.admits_float(sigma) && m.amount.admits_float(amount),
            ImageModifier::Jpeg(m) => step matches Step::Jpeg { quality } && exists|value: u32|
                m.quality.admits_int(value) && quality == #[trigger] low_byte(value),
            ImageModifier::WebP(m) => step matches Step::WebP { quality } && exists|value: u32|
                m.quality.admits_int(value) && quality == #[trigger] low_byte(value),
            ImageModifier::Brighten(m) => step matches Step::Brighten { value: shift } && exists|value: u32|
                m.value.admits_int(value) && shift == #[trigger] as_signed(value),
            ImageModifier::Contrast(m) => step matches Step::Contrast { contrast }
                && m.contrast.admits_float(contrast),
            ImageModifier::Resize(m) => step matches Step::Resize { width, height, filter }
                && admits_side(m.width, width) && admits_side(m.height, height) && filter == m.filter,
            ImageModifier::ToLumaAlpha(_) => step == Step::ToLumaAlpha,
            ImageModifier::ToLuma(_) => step == Step::ToLuma,
            ImageModifier::ToRgb(_) => step == Step::ToRgb,
            ImageModifier::ToRgba(_) => step == Step::ToRgba,
        }
    }

    /// Resolves the parameters of the operation for one image, in the order
    /// in which the operation reads them, and ends with the first error.
    pub fn prepare(&self) -> (r: Result<Step, Error>)
        ensures
            match r {
                Ok(step) => self.step_error() is None && self.admits_step(step),
                Err(e) => self.step_error() == Some(e@),
            },
    {
        match self {
            ImageModifier::BoxFilter(m) => {
                let x_radius = m.x_radius()?;
                let y_radius = m.y_radius()?;
                Ok(Step::BoxFilter { x_radius, y_radius })
            },
            ImageModifier::Sharpen3x3(_) => Ok(Step::Sharpen3x3),
            ImageModifier::GaussianBlur(m) => {
                let sigma = m.sigma()?;
                Ok(Step::GaussianBlur { sigma })
            },
            ImageModifier::MedianFilter(m) => {
                let x_radius = m.x_radius()?;
                let y_radius = m.y_radius()?;
                Ok(Step::MedianFilter { x_radius, y_radius })
            },
            ImageModifier::BilateralFilter(m) => {
                let window_size = m.window_size()?;
                let sigma_color = m.sigma_color()?;
                let sigma_spatial = m.sigma_spatial()?;
                Ok(Step::BilateralFilter { window_size, sigma_color, sigma_spatial })
            },
            ImageModifier::SharpenGaussian(m) => {
                let sigma = m.sigma()?;
                let amount = m.amount()?;
                Ok(Step::SharpenGaussian { sigma, amount })
            },
            ImageModifier::Jpeg(m) => {
                let value = m.quality()?;
                let quality = #[verifier::truncate] (value as u8);
                assert(quality == low_byte(value));
                Ok(Step::Jpeg { quality })
            },
            ImageModifier::WebP(m) => {
                let value = m.quality()?;
                let quality = #[verifier::truncate] (value as u8);
                assert(quality == low_byte(value));
                Ok(Step::WebP { quality })
            },
            ImageModifier::Brighten(m) => {
                let value = m.value()?;
                let shift = #[verifier::truncate] (value as i32);
                assert(shift == as_signed(value));
                Ok(Step::Brighten { value: shift })
            },
            ImageModifier::Contrast(m) => {
                let contrast = m.contrast()?;
                Ok(Step::Contrast { contrast })
            },
            ImageModifier::Resize(m) => {
                let width = m.width()?;
                let height = m.height()?;
                Ok(Step::Resize { width: width as usize, height: height as usize, filter: m.filter() })
            },
            ImageModifier::ToLumaAlpha(_) => Ok(Step::ToLumaAlpha),
            ImageModifier::ToLuma(_) => Ok(Step::ToLuma),
            ImageModifier::ToRgb(_) => Ok(Step::ToRgb),
            ImageModifier::ToRgba(_) => Ok(Step::ToRgba),
        }
    }
}

} // verus!

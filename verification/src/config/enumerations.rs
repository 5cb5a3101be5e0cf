//! The values that a configuration is made of.

use vstd::prelude::*;

verus! {

/// The kernel that a resize operation resamples with.
#[derive(Debug, Clone, Copy, PartialEq, Eq, Structural)]
pub enum ResizeFilter {
    Point,
    Catrom,
    BSpline,
    Mitchell,
    Lanczos3,
    Gaussian,
    Triangle,
}

/// The format that results are saved in.
#[derive(Debug, Clone, Copy, PartialEq, Eq, Structural)]
pub enum SaveFormat {
    Png,
    Jpeg,
    Webp,
    Original,
}

/// A single-precision number, held as its IEEE 754 bit pattern.
///
/// The engine never computes with such a number: it stores it, picks it from
/// a set and hands it on.
#[derive(Debug, Clone, Copy, PartialEq, Eq, Structural)]
pub struct FloatBits {
    pub bits: u32,
}

/// A value of the configuration: given outright, or a rule by which it is
/// drawn anew each time it is asked for.
#[derive(Debug, Clone, PartialEq)]
pub enum Parameter {
    /// One identifier.
    Id(String),
    /// One identifier out of these.
    RandId(Vec<String>),
    /// So many identifiers out of these, each position taken at most once.
    RandMulId(Vec<String>, usize),
    /// A share in percent; reserved.
    Percent(u32),
    /// A share in percent, drawn; reserved.
    RandPercent(),
    /// A share in percent out of these; reserved.
    RandPercentFrom(Vec<u32>),
    /// One number.
    Float(FloatBits),
    /// A number from the first bound up to, not including, the second.
    RandFloat(FloatBits, FloatBits),
    /// One number out of these.
    RandFloatFrom(Vec<FloatBits>),
    /// One integer.
    Int(u32),
    /// An integer from the first bound up to, not including, the second.
    RandInt(usize, usize),
    /// One integer out of these.
    RandIntFrom(Vec<u32>),
    /// Any kernel; reserved.
    RandResizeFilter,
    /// One kernel out of these; reserved.
    RandResizeFilterFrom(Vec<ResizeFilter>),
    /// Any kernel but these; reserved.
    RandResizeFilterWithout(Vec<ResizeFilter>),
    /// Any format; reserved.
    RandFormat,
    /// One format out of these; reserved.
    RandFormatFrom(Vec<SaveFormat>),
    /// Any format but these; reserved.
    RandFormatWithout(Vec<SaveFormat>),
}

/// Where the input images are.
#[derive(Debug, Clone)]
pub enum InputType {
    /// One path pattern.
    Path(String),
    /// Several path patterns.
    PathArr(Vec<String>),
    /// A file that lists paths; reserved.
    PathFile,
}

/// How results are laid out.
#[derive(Debug, Clone, Copy)]
pub enum OutputType {
    /// One file for each input file.
    Each,
}

/// How result files are named.
#[derive(Debug, Clone, Copy)]
pub enum FileName {
    /// As the input file.
    Original,
    /// By a pattern; reserved.
    Pattern,
}

} // verus!

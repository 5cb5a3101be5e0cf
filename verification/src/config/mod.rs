//! The configuration of a run: where images come from and go to, which
//! operations and sequences are declared, and what is to run.

use vstd::prelude::*;
use crate::config::adjustment::Brighten;
use crate::config::adjustment::Contrast;
use crate::config::compression::Jpeg;
use crate::config::compression::WebP;
use crate::config::enumerations::FileName;
use crate::config::enumerations::InputType;
use crate::config::enumerations::OutputType;
use crate::config::enumerations::Parameter;
use crate::config::enumerations::SaveFormat;
use crate::config::filter::BilateralFilter;
use crate::config::filter::BoxFilter;
use crate::config::filter::GaussianBlur;
use crate::config::filter::MedianFilter;
use crate::config::filter::Sharpen3x3;
use crate::config::filter::SharpenGaussian;
use crate::config::operation::Resize;
use crate::config::operation::ToLuma;
use crate::config::operation::ToLumaAlpha;
use crate::config::operation::ToRgb;
use crate::config::operation::ToRgba;

pub mod enumerations;
pub mod filter;
pub mod compression;
pub mod adjustment;
pub mod operation;

verus! {

/// The family an operation belongs to.
#[derive(Debug, Clone, Copy, PartialEq, Eq, Structural)]
pub enum Category {
    Filter,
    Compression,
    Adjustment,
    Operation,
}

/// One declared operation, of any kind.
#[derive(Debug, Clone)]
pub enum ImageModifier {
    BoxFilter(Box<BoxFilter>),
    Sharpen3x3(Box<Sharpen3x3>),
    GaussianBlur(Box<GaussianBlur>),
    MedianFilter(Box<MedianFilter>),
    BilateralFilter(Box<BilateralFilter>),
    SharpenGaussian(Box<SharpenGaussian>),
    Jpeg(Box<Jpeg>),
    WebP(Box<WebP>),
    Brighten(Box<Brighten>),
    Contrast(Box<Contrast>),
    Resize(Box<Resize>),
    ToLumaAlpha(Box<ToLumaAlpha>),
    ToLuma(Box<ToLuma>),
    ToRgb(Box<ToRgb>),
    ToRgba(Box<ToRgba>),
}

/// A whole configuration: where images come from and go to, what is
/// declared, and what is to run.
#[derive(Debug)]
pub struct Config {
    pub input: Option<Input>,
    pub output: Option<Output>,
    pub progress: Option<ProgressSettings>,
    pub define: Option<Vec<ImageModifier>>,
    pub sequence: Option<Vec<Sequence>>,
    pub execute: Option<Parameter>,
}

/// The input section.
#[derive(Debug, Clone)]
pub struct Input {
    pub receive: InputType,
}

/// The output section.
#[derive(Debug, Clone)]
pub struct Output {
    pub save: OutputType,
    pub path: String,
    pub naming: FileName,
    pub format: SaveFormat,
}

/// How the progress bar looks.
#[derive(Debug, Clone)]
pub struct ProgressSettings {
    pub template: String,
    pub chars: String,
}

/// A named list of elements, each of which stands for identifiers of
/// operations or of other sequences.
#[derive(Debug, Clone)]
pub struct Sequence {
    pub id: String,
    pub elements: Vec<Parameter>,
}

impl ImageModifier {
    /// The identifier of the operation, as a character sequence.
    pub open spec fn name(&self) -> Seq<char> {
        match self {
            ImageModifier::BoxFilter(m) => m.id@,
            ImageModifier::Sharpen3x3(m) => m.id@,
            ImageModifier::GaussianBlur(m) => m.id@,
            ImageModifier::MedianFilter(m) => m.id@,
            ImageModifier::BilateralFilter(m) => m.id@,
            ImageModifier::SharpenGaussian(m) => m.id@,
            ImageModifier::Jpeg(m) => m.id@,
            ImageModifier::WebP(m) => m.id@,
            ImageModifier::Brighten(m) => m.id@,
            ImageModifier::Contrast(m) => m.id@,
            ImageModifier::Resize(m) => m.id@,
            ImageModifier::ToLumaAlpha(m) => m.id@,
            ImageModifier::ToLuma(m) => m.id@,
            ImageModifier::ToRgb(m) => m.id@,
            ImageModifier::ToRgba(m) => m.id@,
        }
    }

    /// The family of the operation, by its kind.
    pub open spec fn family(&self) -> Category {
        match self {
            ImageModifier::BoxFilter(_) => Category::Filter,
            ImageModifier::Sharpen3x3(_) => Category::Filter,
            ImageModifier::GaussianBlur(_) => Category::Filter,
            ImageModifier::MedianFilter(_) => Category::Filter,
            ImageModifier::BilateralFilter(_) => Category::Filter,
            ImageModifier::SharpenGaussian(_) => Category::Filter,
            ImageModifier::Jpeg(_) => Category::Compression,
            ImageModifier::WebP(_) => Category::Compression,
            ImageModifier::Brighten(_) => Category::Adjustment,
            ImageModifier::Contrast(_) => Category::Adjustment,
            ImageModifier::Resize(_) => Category::Operation,
            ImageModifier::ToLumaAlpha(_) => Category::Operation,
            ImageModifier::ToLuma(_) => Category::Operation,
            ImageModifier::ToRgb(_) => Category::Operation,
            ImageModifier::ToRgba(_) => Category::Operation,
        }
    }

    /// The identifier of the operation.
    pub fn id(&self) -> (r: &str)
        ensures
            r@ == self.name(),
    {
        match self {
            ImageModifier::BoxFilter(m) => m.id(),
            ImageModifier::Sharpen3x3(m) => m.id(),
            ImageModifier::GaussianBlur(m) => m.id(),
            ImageModifier::MedianFilter(m) => m.id(),
            ImageModifier::BilateralFilter(m) => m.id(),
            ImageModifier::SharpenGaussian(m) => m.id(),
            ImageModifier::Jpeg(m) => m.id(),
            ImageModifier::WebP(m) => m.id(),
            ImageModifier::Brighten(m) => m.id(),
            ImageModifier::Contrast(m) => m.id(),
            ImageModifier::Resize(m) => m.id(),
            ImageModifier::ToLumaAlpha(m) => m.id(),
            ImageModifier::ToLuma(m) => m.id(),
            ImageModifier::ToRgb(m) => m.id(),
            ImageModifier::ToRgba(m) => m.id(),
        }
    }

    /// The family of the operation.
    pub fn category(&self) -> (r: Category)
        ensures
            r == self.family(),
    {
        match self {
            ImageModifier::BoxFilter(_) => Category::Filter,
            ImageModifier::Sharpen3x3(_) => Category::Filter,
            ImageModifier::GaussianBlur(_) => Category::Filter,
            ImageModifier::MedianFilter(_) => Category::Filter,
            ImageModifier::BilateralFilter(_) => Category::Filter,
            ImageModifier::SharpenGaussian(_) => Category::Filter,
            ImageModifier::Jpeg(_) => Category::Compression,
            ImageModifier::WebP(_) => Category::Compression,
            ImageModifier::Brighten(_) => Category::Adjustment,
            ImageModifier::Contrast(_) => Category::Adjustment,
            ImageModifier::Resize(_) => Category::Operation,
            ImageModifier::ToLumaAlpha(_) => Category::Operation,
            ImageModifier::ToLuma(_) => Category::Operation,
            ImageModifier::ToRgb(_) => Category::Operation,
            ImageModifier::ToRgba(_) => Category::Operation,
        }
    }
}

impl Config {
    /// The input section, if there is one.
    pub fn input(&self) -> (r: Option<&Input>)
        ensures
            r is Some <==> self.input is Some,
            r matches Some(found) ==> self.input == Some(*found),
    {
        self.input.as_ref()
    }

    /// The output section, if there is one.
    pub fn output(&self) -> (r: Option<&Output>)
        ensures
            r is Some <==> self.output is Some,
            r matches Some(found) ==> self.output == Some(*found),
    {
        self.output.as_ref()
    }

    /// The look of the progress bar, if one is given.
    pub fn progress(&self) -> (r: Option<&ProgressSettings>)
        ensures
            r is Some <==> self.progress is Some,
            r matches Some(found) ==> self.progress == Some(*found),
    {
        self.progress.as_ref()
    }

    /// The declared operations, if any are.
    pub fn define(&self) -> (r: Option<&Vec<ImageModifier>>)
        ensures
            r is Some <==> self.define is Some,
            r matches Some(found) ==> self.define == Some(*found),
    {
        self.define.as_ref()
    }

    /// The declared sequences, if any are.
    pub fn sequence(&self) -> (r: Option<&Vec<Sequence>>)
        ensures
            r is Some <==> self.sequence is Some,
            r matches Some(found) ==> self.sequence == Some(*found),
    {
        self.sequence.as_ref()
    }

    /// The execute directive, if there is one.
    pub fn execute(&self) -> (r: Option<&Parameter>)
        ensures
            r is Some <==> self.execute is Some,
            r matches Some(found) ==> self.execute == Some(*found),
    {
        self.execute.as_ref()
    }
}

impl Input {
    /// Where the input images are.
    pub fn receive(&self) -> (r: &InputType)
        ensures
            *r == self.receive,
    {
        &self.receive
    }
}

impl Output {
    /// The directory that results are written to.
    pub fn path(&self) -> (r: &str)
        ensures
            r@ == self.path@,
    {
        self.path.as_str()
    }
}

impl ProgressSettings {
    /// The template of the bar.
    pub fn template(&self) -> (r: &str)
        ensures
            r@ == self.template@,
    {
        self.template.as_str()
    }

    /// The characters the bar is drawn with.
    pub fn chars(&self) -> (r: &str)
        ensures
            r@ == self.chars@,
    {
        self.chars.as_str()
    }
}

impl Sequence {
    /// The identifier of the sequence.
    pub fn id(&self) -> (r: &str)
        ensures
            r@ == self.id@,
    {
        self.id.as_str()
    }

    /// The elements, in declared order.
    pub fn elements(&self) -> (r: &Vec<Parameter>)
        ensures
            *r == self.elements,
    {
        &self.elements
    }
}

} // verus!

//! What can end a run.

use vstd::prelude::*;

verus! {

/// A part of the configuration that a run needs and does not find.
#[derive(Debug, Clone, Copy, PartialEq, Eq, Structural)]
pub enum ConfigFault {
    /// No input section.
    MissingInput,
    /// No output section.
    MissingOutput,
    /// No execute directive.
    MissingExecute,
    /// A resize operation without a width.
    MissingWidth,
    /// A resize operation without a height.
    MissingHeight,
    /// The input is a path-list file, which is reserved.
    PathListFile,
    /// A range of integers that reaches beyond 32 bits, where integers of
    /// 32 bits are drawn.
    RangeBeyond32Bits,
}

/// Everything that ends a run.
#[derive(Debug, Clone, PartialEq, Eq)]
pub enum Error {
    /// The configuration is unusable.
    Config(ConfigFault),
    /// An identifier names neither an operation nor a sequence.
    UnknownIdentifier(String),
    /// A sequence was reached again while it was being unfolded.
    CyclicSequence(String),
    /// A parameter was asked for a value of another kind than it holds.
    TypeMismatch,
    /// A random choice from nothing.
    EmptySet,
    /// More distinct elements were asked for than the set holds.
    InsufficientElements,
    /// The input patterns match no file.
    NoInputFiles,
    /// An image could not be read.
    Decode(String),
    /// An image could not be written.
    Encode(String),
    /// An operation rejected the image it was given.
    Algorithm(String),
}

/// What an [`Error`] says, with its texts as character sequences.
pub enum ErrorModel {
    Config(ConfigFault),
    UnknownIdentifier(Seq<char>),
    CyclicSequence(Seq<char>),
    TypeMismatch,
    EmptySet,
    InsufficientElements,
    NoInputFiles,
    Decode(Seq<char>),
    Encode(Seq<char>),
    Algorithm(Seq<char>),
}

impl View for Error {
    type V = ErrorModel;

    open spec fn view(&self) -> ErrorModel {
        match self {
            Error::Config(fault) => ErrorModel::Config(*fault),
            Error::UnknownIdentifier(id) => ErrorModel::UnknownIdentifier(id@),
            Error::CyclicSequence(id) => ErrorModel::CyclicSequence(id@),
            Error::TypeMismatch => ErrorModel::TypeMismatch,
            Error::EmptySet => ErrorModel::EmptySet,
            Error::InsufficientElements => ErrorModel::InsufficientElements,
            Error::NoInputFiles => ErrorModel::NoInputFiles,
            Error::Decode(text) => ErrorModel::Decode(text@),
            Error::Encode(text) => ErrorModel::Encode(text@),
            Error::Algorithm(text) => ErrorModel::Algorithm(text@),
        }
    }
}

} // verus!

//! The engine: it looks identifiers up, resolves parameters, unfolds
//! sequences into plans and concludes a run from what became of its images.

use vstd::prelude::*;
use crate::config::Config;
use crate::config::ImageModifier;
use crate::config::Sequence;
use crate::config::enumerations::Parameter;
use crate::error::Error;
use crate::error::ErrorModel;

pub mod parameter;
pub mod sequence;
pub mod laws;
pub mod batch;
pub mod input;
pub mod progress;
pub mod step;
pub mod channels;
pub mod unit;

verus! {

/// What an identifier names.
#[derive(Debug, Clone, Copy, PartialEq, Eq, Structural)]
pub enum IdType {
    /// A declared operation.
    Modifier,
    /// A declared sequence.
    Sequence,
}

/// What a lookup of an identifier found.
#[derive(Debug, Clone, Copy)]
pub enum Found<'a> {
    /// A declared operation.
    Modifier(&'a ImageModifier),
    /// A declared sequence.
    Sequence(&'a Sequence),
    /// Nothing of that name.
    Nothing,
}

impl ImageModifier {
    /// The identifier as it is stored.
    fn id_string(&self) -> (r: &String)
        ensures
            r@ == self.name(),
    {
        match self {
            ImageModifier::BoxFilter(m) => &m.id,
            ImageModifier::Sharpen3x3(m) => &m.id,
            ImageModifier::GaussianBlur(m) => &m.id,
            ImageModifier::MedianFilter(m) => &m.id,
            ImageModifier::BilateralFilter(m) => &m.id,
            ImageModifier::SharpenGaussian(m) => &m.id,
            ImageModifier::Jpeg(m) => &m.id,
            ImageModifier::WebP(m) => &m.id,
            ImageModifier::Brighten(m) => &m.id,
            ImageModifier::Contrast(m) => &m.id,
            ImageModifier::Resize(m) => &m.id,
            ImageModifier::ToLumaAlpha(m) => &m.id,
            ImageModifier::ToLuma(m) => &m.id,
            ImageModifier::ToRgb(m) => &m.id,
            ImageModifier::ToRgba(m) => &m.id,
        }
    }
}

impl Config {
    /// The declared operations, in declared order; none where the section
    /// is missing.
    pub open spec fn modifiers(&self) -> Seq<ImageModifier> {
        match self.define {
            Some(declared) => declared@,
            None => Seq::empty(),
        }
    }

    /// The declared sequences, in declared order; none where the section is
    /// missing.
    pub open spec fn sequences(&self) -> Seq<Sequence> {
        match self.sequence {
            Some(declared) => declared@,
            None => Seq::empty(),
        }
    }

    /// Whether some declared operation is named `id`.
    pub open spec fn has_modifier(&self, id: Seq<char>) -> bool {
        exists|i: int| 0 <= i < self.modifiers().len() && (#[trigger] self.modifiers()[i]).name() == id
    }

    /// Whether some declared sequence is named `id`.
    pub open spec fn has_sequence(&self, id: Seq<char>) -> bool {
        exists|i: int| 0 <= i < self.sequences().len() && (#[trigger] self.sequences()[i]).id@ == id
    }

    /// Whether the operation at position `i` is the first one named `id`.
    pub open spec fn modifier_at(&self, id: Seq<char>, i: int) -> bool {
        &&& 0 <= i < self.modifiers().len()
        &&& self.modifiers()[i].name() == id
        &&& forall|j: int| 0 <= j < i ==> (#[trigger] self.modifiers()[j]).name() != id
    }

    /// Whether the sequence at position `i` is the first one named `id`.
    pub open spec fn sequence_at(&self, id: Seq<char>, i: int) -> bool {
        &&& 0 <= i < self.sequences().len()
        &&& self.sequences()[i].id@ == id
        &&& forall|j: int| 0 <= j < i ==> (#[trigger] self.sequences()[j]).id@ != id
    }

    /// Whether `found` is the first declared operation named `id`.
    pub open spec fn finds_modifier(&self, id: Seq<char>, found: ImageModifier) -> bool {
        exists|i: int| #[trigger] self.modifier_at(id, i) && found == self.modifiers()[i]
    }

    /// Whether `found` is the first declared sequence named `id`.
    pub open spec fn finds_sequence(&self, id: Seq<char>, found: Sequence) -> bool {
        exists|i: int| #[trigger] self.sequence_at(id, i) && found == self.sequences()[i]
    }

    /// What `id` names: an operation if one is so named, else a sequence if
    /// one is, else nothing.
    pub open spec fn kind_of(&self, id: Seq<char>) -> Option<IdType> {
        if self.has_modifier(id) {
            Some(IdType::Modifier)
        } else if self.has_sequence(id) {
            Some(IdType::Sequence)
        } else {
            None
        }
    }

    /// Looks an operation up by its identifier. Of several with the same
    /// identifier the first declared one is found.
    pub fn get_modifier(&self, id: &str) -> (r: Option<&ImageModifier>)
        ensures
            match r {
                Some(found) => self.finds_modifier(id@, *found),
                None => !self.has_modifier(id@),
            },
    {
        let key = id.to_owned();
        if let Some(declared) = &self.define {
            let mut i: usize = 0;
            while i < declared.len()
                invariant
                    i <= declared.len(),
                    self.define == Some(*declared),
                    key@ == id@,
                    forall|j: int| 0 <= j < i ==> (#[trigger] self.modifiers()[j]).name() != id@,
                decreases declared.len() - i,
            {
                if *declared[i].id_string() == key {
                    assert(self.modifier_at(id@, i as int));
                    return Some(&declared[i]);
                }
                i += 1;
            }
        }
        None
    }

    /// Looks a sequence up by its identifier. Of several with the same
    /// identifier the first declared one is found.
    pub fn get_sequence(&self, id: &str) -> (r: Option<&Sequence>)
        ensures
            match r {
                Some(found) => self.finds_sequence(id@, *found),
                None => !self.has_sequence(id@),
            },
    {
        let key = id.to_owned();
        if let Some(declared) = &self.sequence {
            let mut i: usize = 0;
            while i < declared.len()
                invariant
                    i <= declared.len(),
                    self.sequence == Some(*declared),
                    key@ == id@,
                    forall|j: int| 0 <= j < i ==> (#[trigger] self.sequences()[j]).id@ != id@,
                decreases declared.len() - i,
            {
                if declared[i].id == key {
                    assert(self.sequence_at(id@, i as int));
                    return Some(&declared[i]);
                }
                i += 1;
            }
        }
        None
    }

    /// Looks up what `id` names: the first operation of that name, or else
    /// the first sequence of that name.
    pub fn find(&self, id: &str) -> (r: Found<'_>)
        ensures
            match r {
                Found::Modifier(found) => self.finds_modifier(id@, *found),
                Found::Sequence(found) => !self.has_modifier(id@) && self.finds_sequence(id@, *found),
                Found::Nothing => self.kind_of(id@) is None,
            },
    {
        if let Some(found) = self.get_modifier(id) {
            return Found::Modifier(found);
        }
        if let Some(found) = self.get_sequence(id) {
            return Found::Sequence(found);
        }
        Found::Nothing
    }

    /// Says what `id` names. An identifier that names an operation and a
    /// sequence counts as the operation; one that names neither is unknown.
    pub fn get_type(&self, id: &str) -> (r: Result<IdType, Error>)
        ensures
            match r {
                Ok(kind) => self.kind_of(id@) == Some(kind),
                Err(e) => self.kind_of(id@) is None && e@ == ErrorModel::UnknownIdentifier(id@),
            },
    {
        match self.find(id) {
            Found::Modifier(_) => Ok(IdType::Modifier),
            Found::Sequence(_) => Ok(IdType::Sequence),
            Found::Nothing => Err(Error::UnknownIdentifier(id.to_owned())),
        }
    }
}

} // verus!

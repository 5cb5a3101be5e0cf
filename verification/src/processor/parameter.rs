//! Resolution of parameters.
//!
//! A parameter is a value or a rule by which a value is drawn. Nothing is
//! kept between two resolutions: each one draws anew. The draws come from
//! the generator of the calling thread, so threads never share one. That
//! generator seeds itself from the operating system when a thread first
//! uses it, and panics if it cannot; nothing here rules that out.

use vstd::prelude::*;
use crate::config::enumerations::Parameter;
use crate::config::enumerations::FloatBits;
use crate::error::ConfigFault;
use crate::error::Error;
use crate::error::ErrorModel;

verus! {

/// Draws one value from `low..high` with the thread's generator.
///
/// Trusted: `rand::Rng::gen_range` on `rand::thread_rng()`. It panics on an
/// empty range, which `requires` leaves out, and returns a value of the range.
#[verifier::external_body]
fn draw_between(low: usize, high: usize) -> (drawn: usize)
    requires
        low < high,
    ensures
        low <= drawn < high,
{
    rand::Rng::gen_range(&mut rand::thread_rng(), low..high)
}

/// Picks one of the items with the thread's generator.
///
/// Trusted: `rand::seq::SliceRandom::choose` on `rand::thread_rng()`. It
/// returns `None` for no items and otherwise a reference to one of them.
#[verifier::external_body]
fn pick_one<T>(items: &Vec<T>) -> (picked: Option<&T>)
    ensures
        items@.len() == 0 <==> picked is None,
        picked matches Some(item) ==> exists|k: int| 0 <= k < items@.len() && items@[k] == *item,
{
    rand::seq::SliceRandom::choose(items.as_slice(), &mut rand::thread_rng())
}

/// Picks up to `amount` of the items, each position at most once, with the
/// thread's generator.
///
/// Trusted: `rand::seq::SliceRandom::choose_multiple` on
/// `rand::thread_rng()`. It samples as many distinct indices as asked for, or
/// as there are items if that is fewer, and yields the items at those indices
/// in the order in which the indices were drawn.
#[verifier::external_body]
fn pick_several<T>(items: &Vec<T>, amount: usize) -> (picked: Vec<&T>)
    ensures
        picked@.len() == if amount <= items@.len() { amount as int } else { items@.len() as int },
        exists|at: Seq<int>|
            distinct_positions(at, items@.len() as int) && at.len() == picked@.len()
                && forall|j: int| 0 <= j < at.len() ==> *picked@[j] == items@[#[trigger] at[j]],
{
    rand::seq::SliceRandom::choose_multiple(items.as_slice(), &mut rand::thread_rng(), amount).collect()
}

/// Positions below `len`, none of them twice.
pub open spec fn distinct_positions(at: Seq<int>, len: int) -> bool {
    &&& at.no_duplicates()
    &&& forall|j: int| 0 <= j < at.len() ==> 0 <= #[trigger] at[j] < len
}

/// The positions that one draw gave, in the order in which they were drawn.
pub type Draw = Seq<int>;

/// Positions as they are written down, as a draw.
pub open spec fn positions(at: Seq<usize>) -> Draw {
    Seq::new(at.len(), |j: int| at[j] as int)
}

/// The texts of some strings, in their order.
pub open spec fn names_of(strings: Seq<String>) -> Seq<Seq<char>> {
    Seq::new(strings.len(), |i: int| strings[i]@)
}

/// What a resolution or an unfolding came to, with its texts as character
/// sequences.
pub open spec fn outcome_view(r: Result<Vec<String>, Error>) -> Result<Seq<Seq<char>>, ErrorModel> {
    match r {
        Ok(ids) => Ok(names_of(ids@)),
        Err(e) => Err(e@),
    }
}

/// What is left to do for a number once its rule has been read.
#[derive(Debug, Clone, Copy, PartialEq, Eq, Structural)]
pub enum FloatDraw {
    /// The number is this one.
    Exact(FloatBits),
    /// The number is to be drawn from the first bound up to, not including,
    /// the second.
    Between(FloatBits, FloatBits),
}

impl Parameter {
    /// The error with which integer resolution ends, where the rule decides it.
    pub open spec fn int_error(&self) -> Option<ErrorModel> {
        match self {
            Parameter::Int(_) => None,
            Parameter::RandInt(low, high) => if *low >= *high {
                Some(ErrorModel::EmptySet)
            } else if *high > 0x1_0000_0000 {
                Some(ErrorModel::Config(ConfigFault::RangeBeyond32Bits))
            } else {
                None
            },
            Parameter::RandIntFrom(set) => if set@.len() == 0 {
                Some(ErrorModel::EmptySet)
            } else {
                None
            },
            _ => Some(ErrorModel::TypeMismatch),
        }
    }

    /// Whether integer resolution may give `value`.
    pub open spec fn admits_int(&self, value: u32) -> bool {
        match self {
            Parameter::Int(i) => value == *i,
            Parameter::RandInt(low, high) => *low <= value < *high,
            Parameter::RandIntFrom(set) => set@.contains(value),
            _ => false,
        }
    }

    /// Whether integer resolution may end with `r`.
    pub open spec fn int_outcome(&self, r: Result<u32, Error>) -> bool {
        match r {
            Ok(value) => self.int_error() is None && self.admits_int(value),
            Err(e) => self.int_error() == Some(e@),
        }
    }

    /// Resolves the parameter to an integer.
    ///
    /// A literal gives its value, a range a number drawn from it, a set one
    /// of its members. An empty range or set gives `EmptySet`, a range that
    /// reaches beyond 32 bits a fault of the configuration, a parameter of
    /// another kind `TypeMismatch`.
    pub fn resolve_int(&self) -> (r: Result<u32, Error>)
        ensures
            self.int_outcome(r),
            self matches Parameter::Int(i) ==> r == Ok::<u32, Error>(*i),
            self matches Parameter::RandInt(low, high) ==> (r matches Ok(value) ==> *low <= value < *high),
    {
        match self {
            Parameter::Int(i) => Ok(*i),
            Parameter::RandInt(low, high) => {
                if *low >= *high {
                    Err(Error::EmptySet)
                } else if *high - 1 > u32::MAX as usize {
                    Err(Error::Config(ConfigFault::RangeBeyond32Bits))
                } else {
                    let drawn = draw_between(*low, *high);
                    Ok(drawn as u32)
                }
            },
            Parameter::RandIntFrom(set) => {
                match pick_one(set) {
                    Some(value) => Ok(*value),
                    None => Err(Error::EmptySet),
                }
            },
            _ => Err(Error::TypeMismatch),
        }
    }

    /// The error with which number resolution ends, where the rule decides it.
    pub open spec fn float_error(&self) -> Option<ErrorModel> {
        match self {
            Parameter::Float(_) => None,
            Parameter::RandFloat(_, _) => None,
            Parameter::RandFloatFrom(set) => if set@.len() == 0 {
                Some(ErrorModel::EmptySet)
            } else {
                None
            },
            _ => Some(ErrorModel::TypeMismatch),
        }
    }

    /// Whether number resolution may give `draw`.
    pub open spec fn admits_float(&self, draw: FloatDraw) -> bool {
        match self {
            Parameter::Float(f) => draw == FloatDraw::Exact(*f),
            Parameter::RandFloat(low, high) => draw == FloatDraw::Between(*low, *high),
            Parameter::RandFloatFrom(set) => exists|k: int|
                0 <= k < set@.len() && draw == FloatDraw::Exact(#[trigger] set@[k]),
            _ => false,
        }
    }

    /// Whether number resolution may end with `r`.
    pub open spec fn float_outcome(&self, r: Result<FloatDraw, Error>) -> bool {
        match r {
            Ok(draw) => self.float_error() is None && self.admits_float(draw),
            Err(e) => self.float_error() == Some(e@),
        }
    }

    /// Resolves the parameter to a number, as far as that takes no
    /// arithmetic on numbers: a draw from a range is left to the caller.
    ///
    /// A literal gives its value, a range its two bounds, a set one of its
    /// members. An empty set gives `EmptySet`, a parameter of another kind
    /// `TypeMismatch`.
    pub fn float(&self) -> (r: Result<FloatDraw, Error>)
        ensures
            self.float_outcome(r),
            self matches Parameter::Float(f) ==> r == Ok::<FloatDraw, Error>(FloatDraw::Exact(*f)),
    {
        match self {
            Parameter::Float(f) => Ok(FloatDraw::Exact(*f)),
            Parameter::RandFloat(low, high) => Ok(FloatDraw::Between(*low, *high)),
            Parameter::RandFloatFrom(set) => {
                match pick_one(set) {
                    Some(f) => Ok(FloatDraw::Exact(*f)),
                    None => Err(Error::EmptySet),
                }
            },
            _ => Err(Error::TypeMismatch),
        }
    }

    /// The error with which identifier resolution ends, where the rule
    /// decides it.
    pub open spec fn ids_error(&self) -> Option<ErrorModel> {
        match self {
            Parameter::Id(_) => None,
            Parameter::RandId(set) => if set@.len() == 0 {
                Some(ErrorModel::EmptySet)
            } else {
                None
            },
            Parameter::RandMulId(set, count) => if *count > set@.len() {
                Some(ErrorModel::InsufficientElements)
            } else {
                None
            },
            _ => Some(ErrorModel::TypeMismatch),
        }
    }

    /// Whether identifier resolution may make this draw: one position of
    /// the set for a rule that picks one identifier, as many positions of
    /// the set as are asked for, none of them twice, for one that picks
    /// several. A literal draws nothing.
    pub open spec fn admits_draw(&self, at: Draw) -> bool {
        match self {
            Parameter::RandId(set) => at.len() == 1 && 0 <= at[0] < set@.len(),
            Parameter::RandMulId(set, count) => at.len() == *count && distinct_positions(
                at,
                set@.len() as int,
            ),
            _ => false,
        }
    }

    /// The identifiers at the positions of a draw, in the order of the
    /// draw.
    pub open spec fn drawn_ids(&self, at: Draw) -> Seq<Seq<char>> {
        match self {
            Parameter::RandId(set) => Seq::new(at.len(), |j: int| set@[at[j]]@),
            Parameter::RandMulId(set, _) => Seq::new(at.len(), |j: int| set@[at[j]]@),
            _ => Seq::empty(),
        }
    }

    /// Whether identifier resolution may give `ids`: a literal gives
    /// itself, a rule the identifiers at the positions of a draw it may
    /// make.
    pub open spec fn admits_ids(&self, ids: Seq<Seq<char>>) -> bool {
        match self {
            Parameter::Id(id) => ids == seq![id@],
            _ => exists|at: Draw| #[trigger] self.admits_draw(at) && ids == self.drawn_ids(at),
        }
    }

    /// Whether identifier resolution may end with `r`.
    pub open spec fn ids_outcome(&self, r: Result<Vec<String>, Error>) -> bool {
        match r {
            Ok(ids) => self.ids_error() is None && self.admits_ids(names_of(ids@)),
            Err(e) => self.ids_error() == Some(e@),
        }
    }

    /// Resolves the parameter to the identifiers it stands for.
    ///
    /// A literal gives its identifier, a set one of its members, a set with
    /// a count that many members from distinct positions. An empty set gives
    /// `EmptySet`, a count above the set's size `InsufficientElements`, a
    /// parameter of another kind `TypeMismatch`.
    pub fn id_seq(&self) -> (r: Result<Vec<String>, Error>)
        ensures
            self.ids_outcome(r),
            self matches Parameter::Id(id) ==> outcome_view(r) == Ok::<Seq<Seq<char>>, ErrorModel>(
                seq![id@],
            ),
    {
        match self {
            Parameter::Id(id) => {
                let mut ids: Vec<String> = Vec::new();
                ids.push(id.clone());
                assert(names_of(ids@) == seq![id@]);
                Ok(ids)
            },
            Parameter::RandId(set) => {
                match pick_one(set) {
                    Some(id) => {
                        let mut ids: Vec<String> = Vec::new();
                        ids.push(id.clone());
                        proof {
                            let k = choose|k: int| 0 <= k < set@.len() && set@[k] == *id;
                            let at = seq![k];
                            assert(self.admits_draw(at));
                            assert(names_of(ids@) =~= self.drawn_ids(at));
                        }
                        Ok(ids)
                    },
                    None => Err(Error::EmptySet),
                }
            },
            Parameter::RandMulId(set, count) => {
                if *count > set.len() {
                    return Err(Error::InsufficientElements);
                }
                let picked = pick_several(set, *count);
                let mut ids: Vec<String> = Vec::new();
                let mut j: usize = 0;
                while j < picked.len()
                    invariant
                        j <= picked.len(),
                        ids@.len() == j,
                        forall|i: int| 0 <= i < j ==> ids@[i]@ == (*picked@[i])@,
                    decreases picked.len() - j,
                {
                    ids.push(picked[j].clone());
                    j += 1;
                }
                proof {
                    let at = choose|at: Seq<int>|
                        distinct_positions(at, set@.len() as int) && at.len() == picked@.len()
                            && forall|j: int|
                            0 <= j < at.len() ==> *picked@[j] == set@[#[trigger] at[j]];
                    assert forall|j: int| 0 <= j < at.len() implies names_of(ids@)[j] == set@[#[trigger] at[j]]@ by {
                        assert(*picked@[j] == set@[at[j]]);
                    }
                    assert(self.admits_draw(at));
                    assert(names_of(ids@) =~= self.drawn_ids(at));
                }
                Ok(ids)
            },
            _ => Err(Error::TypeMismatch),
        }
    }
}

/// Says whether no position occurs twice.
fn all_distinct(at: &Vec<usize>) -> (r: bool)
    ensures
        r == positions(at@).no_duplicates(),
{
    let mut i: usize = 0;
    while i < at.len()
        invariant
            i <= at.len(),
            forall|a: int, b: int| 0 <= a < b < i ==> at@[a] != at@[b],
        decreases at.len() - i,
    {
        let mut j: usize = 0;
        while j < i
            invariant
                j <= i < at.len(),
                forall|a: int, b: int| 0 <= a < b < i ==> at@[a] != at@[b],
                forall|a: int| 0 <= a < j ==> at@[a] != at@[i as int],
            decreases i - j,
        {
            if at[j] == at[i] {
                assert(positions(at@)[j as int] == positions(at@)[i as int]);
                return false;
            }
            j += 1;
        }
        i += 1;
    }
    assert forall|a: int, b: int|
        0 <= a < at@.len() && 0 <= b < at@.len() && a != b implies positions(at@)[a] != positions(
        at@,
    )[b] by {
        if a < b {
            assert(at@[a] != at@[b]);
        } else {
            assert(at@[b] != at@[a]);
        }
    }
    true
}

/// Says whether each position lies below `len`.
fn all_below(at: &Vec<usize>, len: usize) -> (r: bool)
    ensures
        r == forall|j: int| 0 <= j < at@.len() ==> 0 <= #[trigger] positions(at@)[j] < len,
{
    let mut i: usize = 0;
    while i < at.len()
        invariant
            i <= at.len(),
            forall|j: int| 0 <= j < i ==> at@[j] < len,
        decreases at.len() - i,
    {
        if at[i] >= len {
            assert(!(positions(at@)[i as int] < len));
            return false;
        }
        i += 1;
    }
    assert forall|j: int| 0 <= j < at@.len() implies 0 <= #[trigger] positions(at@)[j] < len by {
        assert(at@[j] < len);
    }
    true
}

impl Parameter {
    /// The error with which identifier resolution ends, if the rule
    /// decides one.
    pub fn ids_fault(&self) -> (r: Option<Error>)
        ensures
            match r {
                Some(e) => self.ids_error() == Some(e@),
                None => self.ids_error() is None,
            },
    {
        match self {
            Parameter::Id(_) => None,
            Parameter::RandId(set) => if set.len() == 0 {
                Some(Error::EmptySet)
            } else {
                None
            },
            Parameter::RandMulId(set, count) => if *count > set.len() {
                Some(Error::InsufficientElements)
            } else {
                None
            },
            _ => Some(Error::TypeMismatch),
        }
    }

    /// The identifiers at the positions of a draw, where the draw is one
    /// that identifier resolution may make.
    pub fn ids_at(&self, at: &Vec<usize>) -> (r: Option<Vec<String>>)
        ensures
            r is Some <==> self.admits_draw(positions(at@)),
            r matches Some(ids) ==> names_of(ids@) == self.drawn_ids(positions(at@)),
    {
        let set = match self {
            Parameter::RandId(set) => {
                if at.len() != 1 {
                    return None;
                }
                set
            },
            Parameter::RandMulId(set, count) => {
                if at.len() != *count || !all_distinct(at) {
                    return None;
                }
                set
            },
            _ => {
                return None;
            },
        };
        if !all_below(at, set.len()) {
            assert(!(0 <= positions(at@)[0] < set@.len()) || at@.len() != 1);
            return None;
        }
        let mut ids: Vec<String> = Vec::new();
        let mut j: usize = 0;
        while j < at.len()
            invariant
                j <= at.len(),
                ids@.len() == j,
                forall|i: int| 0 <= i < at@.len() ==> 0 <= #[trigger] positions(at@)[i] < set@.len(),
                forall|i: int| 0 <= i < j ==> ids@[i]@ == set@[at@[i] as int]@,
            decreases at.len() - j,
        {
            assert(0 <= positions(at@)[j as int] < set@.len());
            ids.push(set[at[j]].clone());
            j += 1;
        }
        assert(names_of(ids@) =~= self.drawn_ids(positions(at@)));
        Some(ids)
    }
}

/// Identifiers drawn from a set that holds none twice are as many as were
/// asked for, all of the set, and none of them twice.
pub proof fn law_several_are_distinct(parameter: Parameter, ids: Seq<Seq<char>>)
    requires
        parameter matches Parameter::RandMulId(set, _) && names_of(set@).no_duplicates(),
        parameter.admits_ids(ids),
    ensures
        parameter matches Parameter::RandMulId(set, count) && ids.len() == count && forall|j: int|
            0 <= j < ids.len() ==> names_of(set@).contains(#[trigger] ids[j]),
        ids.no_duplicates(),
{
    match parameter {
        Parameter::RandMulId(set, count) => {
            let pool = names_of(set@);
            let at = choose|at: Draw| #[trigger]
                parameter.admits_draw(at) && ids == parameter.drawn_ids(at);
            assert forall|j: int| 0 <= j < ids.len() implies pool.contains(#[trigger] ids[j]) by {
                assert(0 <= at[j] < set@.len());
                assert(ids[j] == pool[at[j]]);
            }
            assert forall|i: int, j: int| 0 <= i < ids.len() && 0 <= j < ids.len() && i != j implies ids[i]
                != ids[j] by {
                assert(0 <= at[i] < set@.len());
                assert(0 <= at[j] < set@.len());
                assert(ids[i] == pool[at[i]]);
                assert(ids[j] == pool[at[j]]);
                assert(at[i] != at[j]);
            }
        },
        _ => {},
    }
}

} // verus!

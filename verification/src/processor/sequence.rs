//! Unfolding of identifiers into plans.
//!
//! An identifier names an operation, which stands for itself, or a
//! sequence, whose elements are resolved and unfolded in turn. Resolution
//! draws at random, so what an identifier unfolds to is not a function of
//! the configuration. It is one of the configuration and of a script: the
//! list of the draws that the resolutions make, in the order in which they
//! are made. [`Config::walk_id`] says what unfolding comes to for a given
//! script. [`Config::unwrap_id`] and [`Config::build_plan`] unfold with the
//! draws that the generator makes, and promise that their result is what
//! the walk comes to for some script, read to its end.
//! [`Config::replay_id`] and [`Config::replay_plan`] unfold with the draws
//! of a script that they are given.

use vstd::prelude::*;
use vstd::pervasive::unreached;
use crate::config::Config;
use crate::config::ImageModifier;
use crate::config::enumerations::Parameter;
use crate::error::ConfigFault;
use crate::error::Error;
use crate::error::ErrorModel;
use crate::processor::Found;
use crate::processor::IdType;
use crate::processor::laws::law_unfolded_element_names_operations;
use crate::processor::laws::law_unfolded_ids_name_operations;
use crate::processor::parameter::names_of;
use crate::processor::parameter::outcome_view;
use crate::processor::parameter::positions;
use crate::processor::parameter::Draw;

verus! {

/// How unfolding went, for a given script.
pub enum Walk {
    /// The script does not fit the walk: it ran out, or its next draw is
    /// none that the element on turn may make.
    Stuck,
    /// The walk came to `result` and left `rest` of the script unread.
    Done { result: Result<Seq<Seq<char>>, ErrorModel>, rest: Seq<Draw> },
}

/// The draws of a script as it is written down.
pub open spec fn draws_of(script: Seq<Vec<usize>>) -> Seq<Draw> {
    Seq::new(script.len(), |i: int| positions(script[i]@))
}

/// Entering a sequence that is not being unfolded leaves fewer sequences
/// that are not.
pub proof fn lemma_entering_shrinks_idle(config: Config, active: Set<Seq<char>>, id: Seq<char>)
    requires
        config.has_sequence(id),
        !active.contains(id),
    ensures
        config.idle(active.insert(id)).len() < config.idle(active).len(),
{
    let names = Seq::new(config.sequences().len(), |i: int| config.sequences()[i].id@);
    vstd::seq_lib::seq_to_set_is_finite(names);
    let i = choose|i: int| 0 <= i < config.sequences().len() && (#[trigger] config.sequences()[i]).id@ == id;
    assert(names[i] == id);
    assert(config.sequence_names().contains(id));
    assert(config.idle(active.insert(id)) =~= config.idle(active).remove(id));
}

/// Whether each of the identifiers names a declared operation.
pub open spec fn all_operations(config: Config, ids: Seq<Seq<char>>) -> bool {
    forall|i: int| 0 <= i < ids.len() ==> config.has_modifier(#[trigger] ids[i])
}

/// The identifiers on a path, as a set.
pub open spec fn active_on(path: Seq<String>) -> Set<Seq<char>> {
    names_of(path).to_set()
}

/// Whether `id` is on the path.
fn on_path(path: &Vec<String>, id: &String) -> (found: bool)
    ensures
        found == active_on(path@).contains(id@),
{
    let mut i: usize = 0;
    while i < path.len()
        invariant
            i <= path.len(),
            forall|j: int| 0 <= j < i ==> names_of(path@)[j] != id@,
        decreases path.len() - i,
    {
        if path[i] == *id {
            assert(names_of(path@)[i as int] == id@);
            return true;
        }
        i += 1;
    }
    false
}

/// The path with `id` added at its end.
fn path_with(path: &Vec<String>, id: &String) -> (longer: Vec<String>)
    ensures
        active_on(longer@) == active_on(path@).insert(id@),
{
    let mut longer: Vec<String> = Vec::new();
    let mut i: usize = 0;
    while i < path.len()
        invariant
            i <= path.len(),
            longer@.len() == i,
            forall|j: int| 0 <= j < i ==> longer@[j]@ == path@[j]@,
        decreases path.len() - i,
    {
        longer.push(path[i].clone());
        i += 1;
    }
    longer.push(id.clone());
    proof {
        let before = names_of(path@);
        let after = names_of(longer@);
        assert(after =~= before.push(id@));
        assert forall|x: Seq<char>| after.to_set().contains(x) <==> before.to_set().insert(id@).contains(x) by {
            if after.contains(x) {
                let i = choose|i: int| 0 <= i < after.len() && after[i] == x;
                if i < before.len() {
                    assert(before[i] == x);
                }
            }
            if before.contains(x) {
                let i = choose|i: int| 0 <= i < before.len() && before[i] == x;
                assert(after[i] == x);
            }
            if x == id@ {
                assert(after[before.len() as int] == x);
            }
        }
        assert(after.to_set() =~= before.to_set().insert(id@));
    }
    longer
}

impl Config {
    /// The identifiers of the declared sequences.
    pub open spec fn sequence_names(&self) -> Set<Seq<char>> {
        Seq::new(self.sequences().len(), |i: int| self.sequences()[i].id@).to_set()
    }

    /// The declared sequences that are not being unfolded.
    pub open spec fn idle(&self, active: Set<Seq<char>>) -> Set<Seq<char>> {
        self.sequence_names().difference(active)
    }

    /// The elements of the first sequence named `id`.
    pub open spec fn elements_of(&self, id: Seq<char>) -> Seq<Parameter> {
        self.sequences()[choose|i: int| self.sequence_at(id, i)].elements@
    }

    /// Unfolds `id` while the sequences in `active` are being unfolded.
    ///
    /// An operation stands for itself. A sequence that is already being
    /// unfolded is a cycle. Any other sequence is unfolded element by
    /// element. An identifier that names nothing is unknown.
    pub open spec fn walk_id(&self, id: Seq<char>, active: Set<Seq<char>>, script: Seq<Draw>) -> Walk
        decreases self.idle(active).len(), 0nat, 0nat,
    {
        match self.kind_of(id) {
            None => Walk::Done { result: Err(ErrorModel::UnknownIdentifier(id)), rest: script },
            Some(IdType::Modifier) => Walk::Done { result: Ok(seq![id]), rest: script },
            Some(IdType::Sequence) => {
                if active.contains(id) {
                    Walk::Done { result: Err(ErrorModel::CyclicSequence(id)), rest: script }
                } else {
                    proof {
                        lemma_entering_shrinks_idle(*self, active, id);
                    }
                    self.walk_elements(self.elements_of(id), 0, active.insert(id), Seq::empty(), script)
                }
            },
        }
    }

    /// Unfolds the elements from position `k` on, after `done`.
    pub open spec fn walk_elements(
        &self,
        elements: Seq<Parameter>,
        k: int,
        active: Set<Seq<char>>,
        done: Seq<Seq<char>>,
        script: Seq<Draw>,
    ) -> Walk
        decreases self.idle(active).len(), 3nat, elements.len() - k,
    {
        if k >= elements.len() {
            Walk::Done { result: Ok(done), rest: script }
        } else {
            match self.walk_element(elements[k], active, done, script) {
                Walk::Done { result: Ok(more), rest } => self.walk_elements(
                    elements,
                    k + 1,
                    active,
                    more,
                    rest,
                ),
                other => other,
            }
        }
    }

    /// Unfolds one element, after `done`.
    ///
    /// The element is resolved: to its error, which ends the walk; to
    /// itself, if it is a literal; or else to the identifiers at the
    /// positions of the next draw of the script. The identifiers are
    /// unfolded in turn.
    pub open spec fn walk_element(
        &self,
        element: Parameter,
        active: Set<Seq<char>>,
        done: Seq<Seq<char>>,
        script: Seq<Draw>,
    ) -> Walk
        decreases self.idle(active).len(), 2nat, 0nat,
    {
        match element.ids_error() {
            Some(e) => Walk::Done { result: Err(e), rest: script },
            None => match element {
                Parameter::Id(id) => self.walk_ids(seq![id@], 0, active, done, script),
                _ => {
                    if script.len() == 0 || !element.admits_draw(script[0]) {
                        Walk::Stuck
                    } else {
                        self.walk_ids(
                            element.drawn_ids(script[0]),
                            0,
                            active,
                            done,
                            script.drop_first(),
                        )
                    }
                },
            },
        }
    }

    /// Unfolds the identifiers from position `j` on, after `done`.
    pub open spec fn walk_ids(
        &self,
        ids: Seq<Seq<char>>,
        j: int,
        active: Set<Seq<char>>,
        done: Seq<Seq<char>>,
        script: Seq<Draw>,
    ) -> Walk
        decreases self.idle(active).len(), 1nat, ids.len() - j,
    {
        if j >= ids.len() {
            Walk::Done { result: Ok(done), rest: script }
        } else {
            match self.walk_id(ids[j], active, script) {
                Walk::Done { result: Ok(part), rest } => self.walk_ids(
                    ids,
                    j + 1,
                    active,
                    done + part,
                    rest,
                ),
                other => other,
            }
        }
    }

    /// What unfolding `id` comes to for a script, from no sequence being
    /// unfolded.
    pub open spec fn walk(&self, id: Seq<char>, script: Seq<Draw>) -> Walk {
        self.walk_id(id, Set::empty(), script)
    }

    /// What the plan of an image comes to for a script: what unfolding the
    /// execute directive comes to, from no sequence being unfolded.
    /// Without a directive there is no plan.
    pub open spec fn walk_plan(&self, script: Seq<Draw>) -> Walk {
        match self.execute {
            Some(directive) => self.walk_element(directive, Set::empty(), Seq::empty(), script),
            None => Walk::Done {
                result: Err(ErrorModel::Config(ConfigFault::MissingExecute)),
                rest: script,
            },
        }
    }

    /// Whether unfolding `id` may come to `result`: whether it does so for
    /// some script, read to its end.
    pub open spec fn unfolds_to(&self, id: Seq<char>, result: Result<Seq<Seq<char>>, ErrorModel>) -> bool {
        exists|script: Seq<Draw>| #[trigger]
            self.walk(id, script) == (Walk::Done { result, rest: Seq::empty() })
    }

    /// Whether the plan of an image may come to `result`: whether it does
    /// so for some script, read to its end.
    pub open spec fn plans(&self, result: Result<Seq<Seq<char>>, ErrorModel>) -> bool {
        exists|script: Seq<Draw>| #[trigger]
            self.walk_plan(script) == (Walk::Done { result, rest: Seq::empty() })
    }
}

/// What a replay came to: what the walk comes to for the script, with the
/// number of draws that were read; nothing where the walk is stuck.
pub open spec fn replays(walk: Walk, script: Seq<Draw>, r: Option<(Result<Vec<String>, Error>, usize)>) -> bool {
    match walk {
        Walk::Stuck => r is None,
        Walk::Done { result, rest } => r matches Some((found, read)) && outcome_view(found) == result
            && read <= script.len() && rest == script.skip(read as int),
    }
}

impl Config {
    /// Unfolds `id` into the identifiers of the operations it stands for,
    /// in order, with the draws that the generator makes.
    pub fn unwrap_id(&self, id: &str) -> (r: Result<Vec<String>, Error>)
        ensures
            self.unfolds_to(id@, outcome_view(r)),
            self.kind_of(id@) is None ==> outcome_view(r) == Err::<Seq<Seq<char>>, ErrorModel>(
                ErrorModel::UnknownIdentifier(id@),
            ),
            self.kind_of(id@) == Some(IdType::Modifier) ==> outcome_view(r) == Ok::<
                Seq<Seq<char>>,
                ErrorModel,
            >(seq![id@]),
            r matches Ok(ids) ==> all_operations(*self, names_of(ids@)),
    {
        let path: Vec<String> = Vec::new();
        let script: Vec<Vec<usize>> = Vec::new();
        let key = id.to_owned();
        let (out, _, Ghost(used)) = self.unfold_under(&key, &path, true, &script, 0);
        proof {
            assert(active_on(path@) =~= Set::empty());
            assert(used + Seq::<Draw>::empty() =~= used);
        }
        match out {
            Some(r) => {
                proof {
                    assert(self.walk(id@, used + Seq::<Draw>::empty()) == (Walk::Done {
                        result: outcome_view(r),
                        rest: Seq::empty(),
                    }));
                    law_unfolded_ids_name_operations(*self, id@, Set::empty(), used);
                }
                r
            },
            None => unreached(),
        }
    }

    /// Unfolds `id` with the draws of a script, and says how many of them
    /// it read. Where the script does not fit, there is no result.
    pub fn replay_id(&self, id: &str, script: &Vec<Vec<usize>>) -> (r: Option<
        (Result<Vec<String>, Error>, usize),
    >)
        ensures
            replays(self.walk(id@, draws_of(script@)), draws_of(script@), r),
    {
        let path: Vec<String> = Vec::new();
        let key = id.to_owned();
        let (out, read, Ghost(used)) = self.unfold_under(&key, &path, false, script, 0);
        proof {
            let draws = draws_of(script@);
            assert(active_on(path@) =~= Set::empty());
            assert(draws.skip(0) =~= draws);
            assert(used + draws.skip(read as int) =~= draws);
        }
        match out {
            Some(found) => Some((found, read)),
            None => None,
        }
    }

    /// Builds the plan of one image with the draws that the generator
    /// makes: resolves the execute directive and unfolds each identifier
    /// it gave, in order.
    pub fn build_plan(&self) -> (r: Result<Vec<String>, Error>)
        ensures
            self.plans(outcome_view(r)),
            r matches Ok(plan) ==> all_operations(*self, names_of(plan@)),
    {
        match &self.execute {
            Some(directive) => {
                let path: Vec<String> = Vec::new();
                let script: Vec<Vec<usize>> = Vec::new();
                let plan: Vec<String> = Vec::new();
                let (out, _, Ghost(used)) = self.unfold_element(directive, &path, plan, true, &script, 0);
                proof {
                    assert(active_on(path@) =~= Set::empty());
                    assert(names_of(plan@) =~= Seq::empty());
                    assert(used + Seq::<Draw>::empty() =~= used);
                }
                match out {
                    Some(r) => {
                        proof {
                            assert(self.walk_plan(used + Seq::<Draw>::empty()) == (Walk::Done {
                                result: outcome_view(r),
                                rest: Seq::empty(),
                            }));
                            law_unfolded_element_names_operations(
                                *self,
                                *directive,
                                Set::empty(),
                                Seq::empty(),
                                used,
                            );
                        }
                        r
                    },
                    None => unreached(),
                }
            },
            None => {
                let r = Err(Error::Config(ConfigFault::MissingExecute));
                assert(self.walk_plan(Seq::empty()) == (Walk::Done {
                    result: outcome_view(r),
                    rest: Seq::empty(),
                }));
                r
            },
        }
    }

    /// Builds the plan of one image with the draws of a script, and says
    /// how many of them it read. Where the script does not fit, there is
    /// no result.
    pub fn replay_plan(&self, script: &Vec<Vec<usize>>) -> (r: Option<(Result<Vec<String>, Error>, usize)>)
        ensures
            replays(self.walk_plan(draws_of(script@)), draws_of(script@), r),
    {
        let ghost draws = draws_of(script@);
        proof {
            assert(draws.skip(0) =~= draws);
        }
        match &self.execute {
            Some(directive) => {
                let path: Vec<String> = Vec::new();
                let plan: Vec<String> = Vec::new();
                let (out, read, Ghost(used)) = self.unfold_element(directive, &path, plan, false, script, 0);
                proof {
                    assert(active_on(path@) =~= Set::empty());
                    assert(names_of(plan@) =~= Seq::empty());
                    assert(used + draws.skip(read as int) =~= draws);
                }
                match out {
                    Some(found) => Some((found, read)),
                    None => None,
                }
            },
            None => Some((Err(Error::Config(ConfigFault::MissingExecute)), 0)),
        }
    }

    /// Looks up the operation behind each identifier of a plan, in order.
    /// The first identifier that names no operation is reported as unknown.
    pub fn plan_modifiers(&self, plan: &Vec<String>) -> (r: Result<Vec<&ImageModifier>, Error>)
        ensures
            match r {
                Ok(found) => {
                    &&& found@.len() == plan@.len()
                    &&& forall|i: int|
                        0 <= i < plan@.len() ==> self.finds_modifier(plan@[i]@, *#[trigger] found@[i])
                },
                Err(e) => exists|i: int|
                    {
                        &&& 0 <= i < plan@.len()
                        &&& !self.has_modifier(#[trigger] plan@[i]@)
                        &&& e@ == ErrorModel::UnknownIdentifier(plan@[i]@)
                        &&& forall|j: int| 0 <= j < i ==> self.has_modifier(#[trigger] plan@[j]@)
                    },
            },
    {
        let mut found: Vec<&ImageModifier> = Vec::new();
        let mut i: usize = 0;
        while i < plan.len()
            invariant
                i <= plan.len(),
                found@.len() == i,
                forall|j: int| 0 <= j < i ==> self.finds_modifier(plan@[j]@, *#[trigger] found@[j]),
                forall|j: int| 0 <= j < i ==> self.has_modifier(#[trigger] plan@[j]@),
            decreases plan.len() - i,
        {
            match self.get_modifier(plan[i].as_str()) {
                Some(modifier) => {
                    proof {
                        let k = choose|k: int| #[trigger]
                            self.modifier_at(plan@[i as int]@, k) && *modifier == self.modifiers()[k];
                        assert(self.modifier_at(plan@[i as int]@, k));
                        assert(self.modifiers()[k].name() == plan@[i as int]@);
                    }
                    found.push(modifier);
                },
                None => {
                    return Err(Error::UnknownIdentifier(plan[i].clone()));
                },
            }
            i += 1;
        }
        Ok(found)
    }

    /// Resolves an element with the next draw: one of the generator if
    /// `live`, else the one at `next` of the script. Says what the element
    /// resolved to, where the script stands after it, and which draw was
    /// made, if one was. Where the script has no draw left, or one that the
    /// element cannot make, there is no result.
    fn resolve(element: &Parameter, live: bool, script: &Vec<Vec<usize>>, next: usize) -> (out: (
        Option<Result<Vec<String>, Error>>,
        usize,
        Ghost<Seq<Draw>>,
    ))
        requires
            next <= script@.len(),
        ensures
            match out.0 {
                Some(Err(e)) => element.ids_error() == Some(e@) && out.2@.len() == 0,
                Some(Ok(ids)) => element.ids_error() is None && match *element {
                    Parameter::Id(id) => out.2@.len() == 0 && names_of(ids@) == seq![id@],
                    _ => out.2@.len() == 1 && element.admits_draw(out.2@[0]) && names_of(ids@)
                        == element.drawn_ids(out.2@[0]),
                },
                None => !live && element.ids_error() is None && !(element is Id) && (next
                    >= script@.len() || !element.admits_draw(draws_of(script@)[next as int])),
            },
            live ==> out.1 == next,
            !live ==> next <= out.1 <= script@.len() && out.2@ == draws_of(script@).subrange(
                next as int,
                out.1 as int,
            ),
    {
        let ghost nothing = Seq::<Draw>::empty();
        proof {
            assert(draws_of(script@).subrange(next as int, next as int) =~= nothing);
        }
        if let Some(e) = element.ids_fault() {
            return (Some(Err(e)), next, Ghost(nothing));
        }
        if let Parameter::Id(id) = element {
            let mut ids: Vec<String> = Vec::new();
            ids.push(id.clone());
            assert(names_of(ids@) =~= seq![id@]);
            return (Some(Ok(ids)), next, Ghost(nothing));
        }
        if live {
            match element.id_seq() {
                Ok(ids) => {
                    let ghost at = choose|at: Draw| #[trigger]
                        element.admits_draw(at) && names_of(ids@) == element.drawn_ids(at);
                    let ghost drawn = seq![at];
                    (Some(Ok(ids)), next, Ghost(drawn))
                },
                Err(e) => (Some(Err(e)), next, Ghost(nothing)),
            }
        } else {
            if next >= script.len() {
                return (None, next, Ghost(nothing));
            }
            let ghost at = positions(script@[next as int]@);
            proof {
                assert(draws_of(script@).subrange(next as int, next + 1) =~= seq![at]);
            }
            let ghost drawn = seq![at];
            match element.ids_at(&script[next]) {
                Some(ids) => (Some(Ok(ids)), next + 1, Ghost(drawn)),
                None => (None, next, Ghost(nothing)),
            }
        }
    }

    /// Unfolds `id` below the sequences on `path`, and says where the
    /// script stands after it and which draws were made.
    #[verifier::loop_isolation(false)]
    fn unfold_under(&self, id: &String, path: &Vec<String>, live: bool, script: &Vec<Vec<usize>>, next: usize) -> (out: (
        Option<Result<Vec<String>, Error>>,
        usize,
        Ghost<Seq<Draw>>,
    ))
        requires
            next <= script@.len(),
        ensures
            match out.0 {
                Some(r) => forall|rest: Seq<Draw>| #[trigger]
                    self.walk_id(id@, active_on(path@), out.2@ + rest) == (Walk::Done {
                        result: outcome_view(r),
                        rest,
                    }),
                None => !live && self.walk_id(
                    id@,
                    active_on(path@),
                    draws_of(script@).skip(next as int),
                ) == Walk::Stuck,
            },
            live ==> out.1 == next,
            !live ==> next <= out.1 <= script@.len() && out.2@ == draws_of(script@).subrange(
                next as int,
                out.1 as int,
            ),
        decreases self.idle(active_on(path@)).len(), 0nat,
    {
        let ghost active = active_on(path@);
        let ghost draws = draws_of(script@);
        let ghost nothing = Seq::<Draw>::empty();
        proof {
            assert forall|rest: Seq<Draw>| #[trigger] (nothing + rest) == rest by {
                assert(nothing + rest =~= rest);
            }
            assert(draws.subrange(next as int, next as int) =~= nothing);
        }
        let sequence = match self.find(id.as_str()) {
            Found::Nothing => {
                return (Some(Err(Error::UnknownIdentifier(id.clone()))), next, Ghost(nothing));
            },
            Found::Modifier(_) => {
                let mut unwrapped: Vec<String> = Vec::new();
                unwrapped.push(id.clone());
                assert(names_of(unwrapped@) =~= seq![id@]);
                return (Some(Ok(unwrapped)), next, Ghost(nothing));
            },
            Found::Sequence(sequence) => sequence,
        };
        if on_path(path, id) {
            return (Some(Err(Error::CyclicSequence(id.clone()))), next, Ghost(nothing));
        }
        let elements = &sequence.elements;
        assert(self.elements_of(id@) == elements@);
        let inner = path_with(path, id);
        let ghost within = active.insert(id@);
        proof {
            lemma_entering_shrinks_idle(*self, active, id@);
        }
        let mut unwrapped: Vec<String> = Vec::new();
        let mut at: usize = next;
        let ghost mut used = nothing;
        let mut k: usize = 0;
        assert(names_of(unwrapped@) =~= Seq::empty());
        while k < elements.len()
            invariant
                k <= elements.len(),
                active_on(inner@) == within,
                self.idle(within).len() < self.idle(active_on(path@)).len(),
                live ==> at == next,
                !live ==> next <= at <= script@.len() && used == draws.subrange(next as int, at as int),
                forall|rest: Seq<Draw>| #[trigger]
                    self.walk_elements(elements@, 0, within, Seq::empty(), used + rest)
                        == self.walk_elements(elements@, k as int, within, names_of(unwrapped@), rest),
            decreases elements.len() - k,
        {
            let ghost done_before = names_of(unwrapped@);
            let (step, after, Ghost(below)) = self.unfold_element(
                &elements[k],
                &inner,
                unwrapped,
                live,
                script,
                at,
            );
            let ghost used_next = used + below;
            proof {
                assert forall|rest: Seq<Draw>| #[trigger]
                    self.walk_elements(elements@, 0, within, Seq::empty(), used_next + rest)
                        == self.walk_elements(elements@, k as int, within, done_before, below + rest) by {
                    assert(used_next + rest =~= used + (below + rest));
                }
                if !live {
                    assert(used_next =~= draws.subrange(next as int, after as int));
                }
            }
            match step {
                Some(Ok(longer)) => {
                    unwrapped = longer;
                    proof {
                        assert forall|rest: Seq<Draw>| #[trigger]
                            self.walk_elements(elements@, 0, within, Seq::empty(), used_next + rest)
                                == self.walk_elements(
                                elements@,
                                k as int + 1,
                                within,
                                names_of(unwrapped@),
                                rest,
                            ) by {
                            assert(self.walk_element(elements@[k as int], within, done_before, below + rest)
                                == (Walk::Done { result: Ok(names_of(unwrapped@)), rest }));
                        }
                        used = used_next;
                    }
                    at = after;
                },
                Some(Err(e)) => {
                    proof {
                        assert forall|rest: Seq<Draw>| #[trigger]
                            self.walk_id(id@, active, used_next + rest) == (Walk::Done {
                                result: Err(e@),
                                rest,
                            }) by {
                            let failed = Walk::Done { result: Err(e@), rest };
                            assert(self.walk_element(elements@[k as int], within, done_before, below + rest)
                                == failed);
                            assert(self.walk_elements(elements@, k as int, within, done_before, below + rest)
                                == failed);
                            assert(self.walk_elements(
                                elements@,
                                0,
                                within,
                                Seq::empty(),
                                used_next + rest,
                            ) == failed);
                        }
                    }
                    return (Some(Err(e)), after, Ghost(used_next));
                },
                None => {
                    proof {
                        let tail = draws.skip(at as int);
                        assert(used + tail =~= draws.skip(next as int));
                        assert(self.walk_element(elements@[k as int], within, done_before, tail)
                            == Walk::Stuck);
                        assert(self.walk_elements(elements@, k as int, within, done_before, tail)
                            == Walk::Stuck);
                        assert(self.walk_elements(elements@, 0, within, Seq::empty(), used + tail)
                            == Walk::Stuck);
                    }
                    return (None, after, Ghost(used_next));
                },
            }
            k += 1;
        }
        proof {
            assert forall|rest: Seq<Draw>| #[trigger]
                self.walk_id(id@, active, used + rest) == (Walk::Done {
                    result: Ok(names_of(unwrapped@)),
                    rest,
                }) by {
                let finished = Walk::Done { result: Ok(names_of(unwrapped@)), rest };
                assert(self.walk_elements(elements@, k as int, within, names_of(unwrapped@), rest)
                    == finished);
                assert(self.walk_elements(elements@, 0, within, Seq::empty(), used + rest) == finished);
            }
        }
        (Some(Ok(unwrapped)), at, Ghost(used))
    }

    /// Resolves one element below the sequences on `path` and unfolds what
    /// it gave onto the end of `done`, and says where the script stands
    /// after it and which draws were made.
    #[verifier::loop_isolation(false)]
    fn unfold_element(
        &self,
        element: &Parameter,
        path: &Vec<String>,
        done: Vec<String>,
        live: bool,
        script: &Vec<Vec<usize>>,
        next: usize,
    ) -> (out: (Option<Result<Vec<String>, Error>>, usize, Ghost<Seq<Draw>>))
        requires
            next <= script@.len(),
        ensures
            match out.0 {
                Some(r) => forall|rest: Seq<Draw>| #[trigger]
                    self.walk_element(*element, active_on(path@), names_of(done@), out.2@ + rest)
                        == (Walk::Done { result: outcome_view(r), rest }),
                None => !live && self.walk_element(
                    *element,
                    active_on(path@),
                    names_of(done@),
                    draws_of(script@).skip(next as int),
                ) == Walk::Stuck,
            },
            live ==> out.1 == next,
            !live ==> next <= out.1 <= script@.len() && out.2@ == draws_of(script@).subrange(
                next as int,
                out.1 as int,
            ),
        decreases self.idle(active_on(path@)).len(), 1nat,
    {
        let ghost active = active_on(path@);
        let ghost draws = draws_of(script@);
        let ghost done_before = names_of(done@);
        let ghost nothing = Seq::<Draw>::empty();
        proof {
            assert forall|rest: Seq<Draw>| #[trigger] (nothing + rest) == rest by {
                assert(nothing + rest =~= rest);
            }
        }
        let (resolved, start, Ghost(drawn)) = Self::resolve(element, live, script, next);
        let ids = match resolved {
            Some(Ok(ids)) => ids,
            Some(Err(e)) => {
                return (Some(Err(e)), start, Ghost(drawn));
            },
            None => {
                proof {
                    let tail = draws.skip(next as int);
                    if next < script@.len() {
                        assert(tail[0] == draws[next as int]);
                    }
                }
                return (None, start, Ghost(drawn));
            },
        };
        let ghost pick = names_of(ids@);
        proof {
            assert forall|rest: Seq<Draw>| #[trigger]
                self.walk_element(*element, active, done_before, drawn + rest) == self.walk_ids(
                    pick,
                    0,
                    active,
                    done_before,
                    rest,
                ) by {
                if drawn.len() == 1 {
                    assert((drawn + rest)[0] == drawn[0]);
                    assert((drawn + rest).drop_first() =~= rest);
                } else {
                    assert(drawn + rest =~= rest);
                }
            }
        }
        let mut unwrapped = done;
        let mut at: usize = start;
        let ghost mut below = nothing;
        let mut j: usize = 0;
        while j < ids.len()
            invariant
                j <= ids.len(),
                pick == names_of(ids@),
                active == active_on(path@),
                live ==> at == next,
                !live ==> start <= at <= script@.len() && below == draws.subrange(start as int, at as int),
                forall|rest: Seq<Draw>| #[trigger]
                    self.walk_ids(pick, 0, active, done_before, below + rest) == self.walk_ids(
                        pick,
                        j as int,
                        active,
                        names_of(unwrapped@),
                        rest,
                    ),
            decreases ids.len() - j,
        {
            let (part, after, Ghost(deeper)) = self.unfold_under(&ids[j], path, live, script, at);
            let ghost done_here = names_of(unwrapped@);
            let ghost below_next = below + deeper;
            proof {
                assert forall|rest: Seq<Draw>| #[trigger]
                    self.walk_ids(pick, 0, active, done_before, below_next + rest) == self.walk_ids(
                        pick,
                        j as int,
                        active,
                        done_here,
                        deeper + rest,
                    ) by {
                    assert(below_next + rest =~= below + (deeper + rest));
                }
                if !live {
                    assert(below_next =~= draws.subrange(start as int, after as int));
                    assert(drawn + below_next =~= draws.subrange(next as int, after as int));
                }
            }
            match part {
                Some(Ok(mut part)) => {
                    let ghost added = names_of(part@);
                    unwrapped.append(&mut part);
                    proof {
                        assert(names_of(unwrapped@) =~= done_here + added);
                        assert forall|rest: Seq<Draw>| #[trigger]
                            self.walk_ids(pick, 0, active, done_before, below_next + rest)
                                == self.walk_ids(
                                pick,
                                j as int + 1,
                                active,
                                names_of(unwrapped@),
                                rest,
                            ) by {
                            assert(self.walk_id(pick[j as int], active, deeper + rest) == (Walk::Done {
                                result: Ok(added),
                                rest,
                            }));
                        }
                        below = below_next;
                    }
                    at = after;
                },
                Some(Err(e)) => {
                    let ghost total = drawn + below_next;
                    proof {
                        assert forall|rest: Seq<Draw>| #[trigger]
                            self.walk_element(*element, active, done_before, total + rest)
                                == (Walk::Done { result: Err(e@), rest }) by {
                            let failed = Walk::Done { result: Err(e@), rest };
                            assert(total + rest =~= drawn + (below_next + rest));
                            assert(self.walk_id(pick[j as int], active, deeper + rest) == failed);
                            assert(self.walk_ids(pick, j as int, active, done_here, deeper + rest)
                                == failed);
                            assert(self.walk_ids(pick, 0, active, done_before, below_next + rest)
                                == failed);
                        }
                    }
                    return (Some(Err(e)), after, Ghost(total));
                },
                None => {
                    proof {
                        let tail = draws.skip(at as int);
                        assert(drawn + (below + tail) =~= draws.skip(next as int));
                        assert(self.walk_id(pick[j as int], active, tail) == Walk::Stuck);
                        assert(self.walk_ids(pick, j as int, active, done_here, tail) == Walk::Stuck);
                        assert(self.walk_ids(pick, 0, active, done_before, below + tail) == Walk::Stuck);
                    }
                    return (None, after, Ghost(drawn + below_next));
                },
            }
            j += 1;
        }
        let ghost total = drawn + below;
        proof {
            assert forall|rest: Seq<Draw>| #[trigger]
                self.walk_element(*element, active, done_before, total + rest) == (Walk::Done {
                    result: Ok(names_of(unwrapped@)),
                    rest,
                }) by {
                let finished = Walk::Done { result: Ok(names_of(unwrapped@)), rest };
                assert(total + rest =~= drawn + (below + rest));
                assert(self.walk_ids(pick, j as int, active, names_of(unwrapped@), rest) == finished);
                assert(self.walk_ids(pick, 0, active, done_before, below + rest) == finished);
            }
            if !live {
                assert(total =~= draws.subrange(next as int, at as int));
            }
        }
        (Some(Ok(unwrapped)), at, Ghost(total))
    }
}

} // verus!

//! What holds of unfolding, whatever the resolutions give.

use vstd::prelude::*;
use crate::config::Config;
use crate::config::enumerations::Parameter;
use crate::error::ErrorModel;
use crate::processor::IdType;
use crate::processor::parameter::Draw;
use crate::processor::sequence::all_operations;
use crate::processor::sequence::lemma_entering_shrinks_idle;
use crate::processor::sequence::Walk;

verus! {

/// Whether the walk came to a list of identifiers.
pub open spec fn unfolded(walk: Walk) -> bool {
    walk matches Walk::Done { result: Ok(_), .. }
}

/// An identifier that names an operation unfolds to itself alone, whatever
/// is being unfolded around it, and reads nothing of the script.
pub proof fn law_operation_unfolds_to_itself(
    config: Config,
    id: Seq<char>,
    active: Set<Seq<char>>,
    script: Seq<Draw>,
)
    requires
        config.has_modifier(id),
    ensures
        config.walk_id(id, active, script) == (Walk::Done { result: Ok(seq![id]), rest: script }),
{
}

/// A sequence that is reached while it is being unfolded is a cycle, and
/// the walk ends there.
pub proof fn law_reentry_is_cyclic(
    config: Config,
    id: Seq<char>,
    active: Set<Seq<char>>,
    script: Seq<Draw>,
)
    requires
        config.kind_of(id) == Some(IdType::Sequence),
        active.contains(id),
    ensures
        config.walk_id(id, active, script) == (Walk::Done {
            result: Err(ErrorModel::CyclicSequence(id)),
            rest: script,
        }),
{
}

/// Whatever an identifier unfolds to names declared operations only.
pub proof fn law_unfolded_ids_name_operations(
    config: Config,
    id: Seq<char>,
    active: Set<Seq<char>>,
    script: Seq<Draw>,
)
    ensures
        config.walk_id(id, active, script) matches Walk::Done { result: Ok(ids), .. }
            ==> all_operations(config, ids),
    decreases config.idle(active).len(), 0nat, 0nat,
{
    if config.kind_of(id) == Some(IdType::Sequence) && !active.contains(id) {
        lemma_entering_shrinks_idle(config, active, id);
        lemma_elements_name_operations(
            config,
            config.elements_of(id),
            0,
            active.insert(id),
            Seq::empty(),
            script,
        );
    }
}

/// Whatever an element unfolds to, after identifiers of operations, names
/// declared operations only.
pub proof fn law_unfolded_element_names_operations(
    config: Config,
    element: Parameter,
    active: Set<Seq<char>>,
    done: Seq<Seq<char>>,
    script: Seq<Draw>,
)
    requires
        all_operations(config, done),
    ensures
        config.walk_element(element, active, done, script) matches Walk::Done { result: Ok(ids), .. }
            ==> all_operations(config, ids),
    decreases config.idle(active).len(), 2nat, 0nat,
{
    if element.ids_error() is None {
        match element {
            Parameter::Id(id) => {
                lemma_ids_name_operations(config, seq![id@], 0, active, done, script);
            },
            _ => {
                if script.len() > 0 && element.admits_draw(script[0]) {
                    lemma_ids_name_operations(
                        config,
                        element.drawn_ids(script[0]),
                        0,
                        active,
                        done,
                        script.drop_first(),
                    );
                }
            },
        }
    }
}

proof fn lemma_elements_name_operations(
    config: Config,
    elements: Seq<Parameter>,
    k: int,
    active: Set<Seq<char>>,
    done: Seq<Seq<char>>,
    script: Seq<Draw>,
)
    requires
        all_operations(config, done),
    ensures
        config.walk_elements(elements, k, active, done, script) matches Walk::Done {
            result: Ok(ids),
            ..
        } ==> all_operations(config, ids),
    decreases config.idle(active).len(), 3nat, elements.len() - k,
{
    if k < elements.len() {
        law_unfolded_element_names_operations(config, elements[k], active, done, script);
        match config.walk_element(elements[k], active, done, script) {
            Walk::Done { result: Ok(more), rest } => {
                lemma_elements_name_operations(config, elements, k + 1, active, more, rest);
            },
            _ => {},
        }
    }
}

proof fn lemma_ids_name_operations(
    config: Config,
    ids: Seq<Seq<char>>,
    j: int,
    active: Set<Seq<char>>,
    done: Seq<Seq<char>>,
    script: Seq<Draw>,
)
    requires
        all_operations(config, done),
    ensures
        config.walk_ids(ids, j, active, done, script) matches Walk::Done { result: Ok(out), .. }
            ==> all_operations(config, out),
    decreases config.idle(active).len(), 1nat, ids.len() - j,
{
    if j < ids.len() {
        law_unfolded_ids_name_operations(config, ids[j], active, script);
        match config.walk_id(ids[j], active, script) {
            Walk::Done { result: Ok(part), rest } => {
                lemma_ids_name_operations(config, ids, j + 1, active, done + part, rest);
            },
            _ => {},
        }
    }
}

/// Whether the element gives `id` whatever is drawn: each of the picks it
/// may resolve to holds `id`. A literal identifier gives itself.
pub open spec fn always_gives(element: Parameter, id: Seq<char>) -> bool {
    forall|pick: Seq<Seq<char>>| #[trigger] element.admits_ids(pick) ==> pick.contains(id)
}

/// Whether `from` names a sequence one of whose elements always gives `to`.
pub open spec fn refers(config: Config, from: Seq<char>, to: Seq<char>) -> bool {
    &&& config.kind_of(from) == Some(IdType::Sequence)
    &&& exists|k: int|
        0 <= k < config.elements_of(from).len() && always_gives(
            #[trigger] config.elements_of(from)[k],
            to,
        )
}

/// Whether each member of the chain refers to the next one, and the last
/// one to the first.
pub open spec fn is_cycle(config: Config, chain: Seq<Seq<char>>) -> bool {
    &&& chain.len() > 0
    &&& forall|i: int| 0 <= i < chain.len() - 1 ==> refers(config, #[trigger] chain[i], chain[i + 1])
    &&& refers(config, chain.last(), chain[0])
}

/// A literal identifier always gives itself.
pub proof fn law_literal_gives_itself(element: Parameter, id: Seq<char>)
    requires
        element matches Parameter::Id(text) && text@ == id,
    ensures
        always_gives(element, id),
{
    assert forall|pick: Seq<Seq<char>>| #[trigger] element.admits_ids(pick) implies pick.contains(id) by {
        assert(pick[0] == id);
    }
}

/// Where identifiers unfold one after the other, each of them unfolds by
/// itself, under the same sequences.
proof fn lemma_each_id_unfolds(
    config: Config,
    ids: Seq<Seq<char>>,
    j: int,
    at: int,
    active: Set<Seq<char>>,
    done: Seq<Seq<char>>,
    script: Seq<Draw>,
) -> (sub: Seq<Draw>)
    requires
        0 <= j <= at < ids.len(),
        unfolded(config.walk_ids(ids, j, active, done, script)),
    ensures
        unfolded(config.walk_id(ids[at], active, sub)),
    decreases at - j,
{
    let step = config.walk_id(ids[j], active, script);
    assert(unfolded(step));
    if j == at {
        script
    } else {
        match step {
            Walk::Done { result: Ok(part), rest } => lemma_each_id_unfolds(
                config,
                ids,
                j + 1,
                at,
                active,
                done + part,
                rest,
            ),
            _ => script,
        }
    }
}

/// Where elements unfold, an identifier that one of them always gives
/// unfolds too, under the same sequences.
proof fn lemma_given_id_unfolds(
    config: Config,
    elements: Seq<Parameter>,
    k: int,
    at: int,
    to: Seq<char>,
    active: Set<Seq<char>>,
    done: Seq<Seq<char>>,
    script: Seq<Draw>,
) -> (sub: Seq<Draw>)
    requires
        0 <= k <= at < elements.len(),
        always_gives(elements[at], to),
        unfolded(config.walk_elements(elements, k, active, done, script)),
    ensures
        unfolded(config.walk_id(to, active, sub)),
    decreases at - k,
{
    let step = config.walk_element(elements[k], active, done, script);
    assert(unfolded(step));
    if k == at {
        match elements[k] {
            Parameter::Id(id) => {
                let pick = seq![id@];
                assert(elements[k].admits_ids(pick));
                let j = choose|j: int| 0 <= j < pick.len() && pick[j] == to;
                lemma_each_id_unfolds(config, pick, 0, j, active, done, script)
            },
            _ => {
                let pick = elements[k].drawn_ids(script[0]);
                assert(elements[k].admits_draw(script[0]));
                assert(elements[k].admits_ids(pick));
                let j = choose|j: int| 0 <= j < pick.len() && pick[j] == to;
                lemma_each_id_unfolds(config, pick, 0, j, active, done, script.drop_first())
            },
        }
    } else {
        match step {
            Walk::Done { result: Ok(more), rest } => lemma_given_id_unfolds(
                config,
                elements,
                k + 1,
                at,
                to,
                active,
                more,
                rest,
            ),
            _ => script,
        }
    }
}

/// Where a sequence unfolds, each sequence it refers to unfolds below it.
proof fn lemma_reference_unfolds(
    config: Config,
    from: Seq<char>,
    to: Seq<char>,
    active: Set<Seq<char>>,
    script: Seq<Draw>,
) -> (sub: Seq<Draw>)
    requires
        refers(config, from, to),
        unfolded(config.walk_id(from, active, script)),
    ensures
        unfolded(config.walk_id(to, active.insert(from), sub)),
{
    let elements = config.elements_of(from);
    let at = choose|k: int| 0 <= k < elements.len() && always_gives(#[trigger] elements[k], to);
    lemma_given_id_unfolds(
        config,
        elements,
        0,
        at,
        to,
        active.insert(from),
        Seq::empty(),
        script,
    )
}

/// No member of a cycle unfolds below the first member.
proof fn lemma_cycle_member_fails(
    config: Config,
    chain: Seq<Seq<char>>,
    i: int,
    active: Set<Seq<char>>,
    script: Seq<Draw>,
)
    requires
        is_cycle(config, chain),
        0 <= i < chain.len(),
        active.contains(chain[0]),
    ensures
        !unfolded(config.walk_id(chain[i], active, script)),
    decreases chain.len() - i,
{
    if unfolded(config.walk_id(chain[i], active, script)) {
        if i == chain.len() - 1 {
            let sub = lemma_reference_unfolds(config, chain[i], chain[0], active, script);
            law_reentry_is_cyclic(config, chain[0], active.insert(chain[i]), sub);
        } else {
            let sub = lemma_reference_unfolds(config, chain[i], chain[i + 1], active, script);
            lemma_cycle_member_fails(config, chain, i + 1, active.insert(chain[i]), sub);
        }
    }
}

/// A sequence that refers to itself, directly or through other sequences,
/// never unfolds: for no script does the walk come to a list.
pub proof fn law_cycle_never_unfolds(
    config: Config,
    chain: Seq<Seq<char>>,
    active: Set<Seq<char>>,
    script: Seq<Draw>,
)
    requires
        is_cycle(config, chain),
    ensures
        !unfolded(config.walk_id(chain[0], active, script)),
{
    if unfolded(config.walk_id(chain[0], active, script)) {
        if chain.len() == 1 {
            let sub = lemma_reference_unfolds(config, chain[0], chain[0], active, script);
            law_reentry_is_cyclic(config, chain[0], active.insert(chain[0]), sub);
        } else {
            let sub = lemma_reference_unfolds(config, chain[0], chain[1], active, script);
            lemma_cycle_member_fails(config, chain, 1, active.insert(chain[0]), sub);
        }
    }
}

/// Whether the element resolves whatever is drawn, and to identifiers that
/// are declared.
pub open spec fn resolves_to_declared(config: Config, element: Parameter) -> bool {
    &&& element.ids_error() is None
    &&& forall|pick: Seq<Seq<char>>, j: int|
        element.admits_ids(pick) && 0 <= j < pick.len() ==> config.kind_of(#[trigger] pick[j]) is Some
}

/// Whether each element of each declared sequence resolves whatever is
/// drawn, and to identifiers that are declared.
pub open spec fn is_closed(config: Config) -> bool {
    forall|i: int, k: int|
        0 <= i < config.sequences().len() && 0 <= k < config.sequences()[i].elements@.len()
            ==> resolves_to_declared(config, #[trigger] config.sequences()[i].elements@[k])
}

/// Whether the walk came to a list, came to a cycle, or did not fit its
/// script.
pub open spec fn unfolded_or_cyclic(walk: Walk) -> bool {
    walk matches Walk::Done { result: Err(e), .. } ==> e is CyclicSequence
}

/// Among the sequences named `id` one is the first.
proof fn lemma_first_sequence(config: Config, id: Seq<char>, upto: int)
    requires
        0 <= upto < config.sequences().len(),
        config.sequences()[upto].id@ == id,
    ensures
        exists|i: int| config.sequence_at(id, i),
    decreases upto,
{
    if exists|j: int| 0 <= j < upto && (#[trigger] config.sequences()[j]).id@ == id {
        let j = choose|j: int| 0 <= j < upto && (#[trigger] config.sequences()[j]).id@ == id;
        lemma_first_sequence(config, id, j);
    } else {
        assert(config.sequence_at(id, upto));
    }
}

/// In a closed configuration a declared identifier fails to unfold by a
/// cycle only.
pub proof fn law_closed_fails_by_cycle_only(
    config: Config,
    id: Seq<char>,
    active: Set<Seq<char>>,
    script: Seq<Draw>,
)
    requires
        is_closed(config),
        config.kind_of(id) is Some,
    ensures
        unfolded_or_cyclic(config.walk_id(id, active, script)),
    decreases config.idle(active).len(), 0nat, 0nat,
{
    if config.kind_of(id) == Some(IdType::Sequence) && !active.contains(id) {
        lemma_entering_shrinks_idle(config, active, id);
        let upto = choose|i: int|
            0 <= i < config.sequences().len() && (#[trigger] config.sequences()[i]).id@ == id;
        lemma_first_sequence(config, id, upto);
        let first = choose|i: int| config.sequence_at(id, i);
        assert forall|k: int| 0 <= k < config.elements_of(id).len() implies resolves_to_declared(
            config,
            #[trigger] config.elements_of(id)[k],
        ) by {
            assert(resolves_to_declared(config, config.sequences()[first].elements@[k]));
        }
        lemma_closed_elements(config, config.elements_of(id), 0, active.insert(id), Seq::empty(), script);
    }
}

proof fn lemma_closed_elements(
    config: Config,
    elements: Seq<Parameter>,
    k: int,
    active: Set<Seq<char>>,
    done: Seq<Seq<char>>,
    script: Seq<Draw>,
)
    requires
        is_closed(config),
        0 <= k,
        forall|i: int| 0 <= i < elements.len() ==> resolves_to_declared(config, #[trigger] elements[i]),
    ensures
        unfolded_or_cyclic(config.walk_elements(elements, k, active, done, script)),
    decreases config.idle(active).len(), 3nat, elements.len() - k,
{
    if k < elements.len() {
        lemma_closed_element(config, elements[k], active, done, script);
        match config.walk_element(elements[k], active, done, script) {
            Walk::Done { result: Ok(more), rest } => {
                lemma_closed_elements(config, elements, k + 1, active, more, rest);
            },
            _ => {},
        }
    }
}

proof fn lemma_closed_element(
    config: Config,
    element: Parameter,
    active: Set<Seq<char>>,
    done: Seq<Seq<char>>,
    script: Seq<Draw>,
)
    requires
        is_closed(config),
        resolves_to_declared(config, element),
    ensures
        unfolded_or_cyclic(config.walk_element(element, active, done, script)),
    decreases config.idle(active).len(), 2nat, 0nat,
{
    match element {
        Parameter::Id(id) => {
            let pick = seq![id@];
            assert(element.admits_ids(pick));
            assert forall|i: int| 0 <= i < pick.len() implies config.kind_of(#[trigger] pick[i]) is Some by {}
            lemma_closed_ids(config, pick, 0, active, done, script);
        },
        _ => {
            if script.len() > 0 && element.admits_draw(script[0]) {
                let pick = element.drawn_ids(script[0]);
                assert(element.admits_ids(pick));
                assert forall|i: int| 0 <= i < pick.len() implies config.kind_of(#[trigger] pick[i]) is Some by {}
                lemma_closed_ids(config, pick, 0, active, done, script.drop_first());
            }
        },
    }
}

proof fn lemma_closed_ids(
    config: Config,
    ids: Seq<Seq<char>>,
    j: int,
    active: Set<Seq<char>>,
    done: Seq<Seq<char>>,
    script: Seq<Draw>,
)
    requires
        is_closed(config),
        0 <= j,
        forall|i: int| 0 <= i < ids.len() ==> config.kind_of(#[trigger] ids[i]) is Some,
    ensures
        unfolded_or_cyclic(config.walk_ids(ids, j, active, done, script)),
    decreases config.idle(active).len(), 1nat, ids.len() - j,
{
    if j < ids.len() {
        law_closed_fails_by_cycle_only(config, ids[j], active, script);
        match config.walk_id(ids[j], active, script) {
            Walk::Done { result: Ok(part), rest } => {
                lemma_closed_ids(config, ids, j + 1, active, done + part, rest);
            },
            _ => {},
        }
    }
}

/// In a closed configuration a sequence that refers to itself, directly or
/// through other sequences, fails to unfold, and by a cycle: whatever the
/// resolutions on the way give, unfolding it comes to `CyclicSequence`.
pub proof fn law_cycle_is_reported(
    config: Config,
    chain: Seq<Seq<char>>,
    result: Result<Seq<Seq<char>>, ErrorModel>,
)
    requires
        is_closed(config),
        is_cycle(config, chain),
        config.unfolds_to(chain[0], result),
    ensures
        result matches Err(e) && e is CyclicSequence,
{
    let script = choose|script: Seq<Draw>| #[trigger]
        config.walk(chain[0], script) == (Walk::Done { result, rest: Seq::empty() });
    law_cycle_never_unfolds(config, chain, Set::empty(), script);
    if chain.len() == 1 {
        assert(refers(config, chain.last(), chain[0]));
    } else {
        assert(refers(config, chain[0], chain[1]));
    }
    law_closed_fails_by_cycle_only(config, chain[0], Set::empty(), script);
}

} // verus!

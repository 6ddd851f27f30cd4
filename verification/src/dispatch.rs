//! Which calls a frame makes, on whom, and in what order.
//!
//! What a call does to an entity and what it hands back is stated where the
//! call is made, of the entity itself. Beside that the frame loop keeps a
//! record of its calls, for the proofs alone. The record is written next to
//! each call and adds the one thing that no entity can show: the order of
//! the calls among different entities and the camera.

use crate::entity::{EntityAction, EntityConfigurationView, TEntity, UpdateFrequency};
use crate::entity_container::EntityContainerView;
use crate::input::InputHandler;
use vstd::prelude::*;

verus! {

/// The calls that the frame loop makes on the entities of a world.
#[derive(Clone, Copy, Debug, PartialEq, Eq, Structural)]
pub enum Pass {
    /// The update of every poll cycle.
    Update,
    /// The update when a second has passed.
    SecondUpdate,
    /// The handing over of the input.
    Input,
}

/// Whether a pass calls an entity with the given configuration.
pub open spec fn concerns(pass: Pass, configuration: EntityConfigurationView) -> bool {
    match pass {
        Pass::Update => configuration.update_frequency == UpdateFrequency::EveryCycle,
        Pass::SecondUpdate => configuration.update_frequency == UpdateFrequency::OnSecond,
        Pass::Input => configuration.wants_input,
    }
}

/// Whether the reference hands an entity to the call that the pass makes,
/// together with the delta time and, where the call takes it, the input, and
/// the call can come back with the actions. Only the update of every cycle
/// comes back with any.
pub open spec fn pass_call<E: TEntity>(
    pass: Pass,
    entity: &mut E,
    delta_time: u64,
    input_handler: &InputHandler,
    returned: Seq<EntityAction>,
) -> bool {
    match pass {
        Pass::Update => exists|actions: Vec<EntityAction>| #[trigger]
            call_ensures(E::update, (entity, delta_time, input_handler), actions) && actions@
                == returned,
        Pass::SecondUpdate => call_ensures(E::on_second_update, (entity, delta_time), ())
            && returned.len() == 0,
        Pass::Input => call_ensures(E::on_input, (entity, delta_time, input_handler), ())
            && returned.len() == 0,
    }
}

/// Lists of actions put end to end, in their order.
pub open spec fn joined(returned: Seq<Seq<EntityAction>>) -> Seq<EntityAction>
    decreases returned.len(),
{
    if returned.len() == 0 {
        Seq::empty()
    } else {
        joined(returned.drop_last()) + returned.last()
    }
}

/// The places of the containers that a pass calls, in ascending order.
pub open spec fn scheduled<E>(containers: Seq<EntityContainerView<E>>, pass: Pass) -> Seq<int>
    decreases containers.len(),
{
    if containers.len() == 0 {
        Seq::empty()
    } else if concerns(pass, containers.last().configuration) {
        scheduled(containers.drop_last(), pass).push(containers.len() - 1)
    } else {
        scheduled(containers.drop_last(), pass)
    }
}

/// A pass calls every entity that it concerns exactly once and no other:
/// the places it calls are places of the world, they ascend strictly, and a
/// place is among them if and only if the pass concerns the entity there.
pub proof fn lemma_scheduled_each_once<E>(containers: Seq<EntityContainerView<E>>, pass: Pass)
    ensures
        scheduled(containers, pass).len() <= containers.len(),
        forall|k: int|
            0 <= k < scheduled(containers, pass).len() ==> 0 <= (#[trigger] scheduled(
                containers,
                pass,
            )[k]) < containers.len(),
        forall|a: int, b: int|
            0 <= a < b < scheduled(containers, pass).len() ==> scheduled(containers, pass)[a]
                < scheduled(containers, pass)[b],
        forall|i: int|
            0 <= i < containers.len() ==> (concerns(pass, (#[trigger] containers[i]).configuration)
                <==> scheduled(containers, pass).contains(i)),
    decreases containers.len(),
{
    let places = scheduled(containers, pass);
    if containers.len() > 0 {
        let front = containers.drop_last();
        let front_places = scheduled(front, pass);
        lemma_scheduled_each_once(front, pass);
        let last = containers.len() - 1;
        assert forall|i: int| 0 <= i < containers.len() implies (concerns(
            pass,
            (#[trigger] containers[i]).configuration,
        ) <==> places.contains(i)) by {
            if i < last {
                assert(front[i] == containers[i]);
                if front_places.contains(i) {
                    let k = choose|k: int| 0 <= k < front_places.len() && front_places[k] == i;
                    assert(places[k] == i);
                }
                if places.contains(i) {
                    let k = choose|k: int| 0 <= k < places.len() && places[k] == i;
                    assert(front_places[k] == i);
                }
            } else {
                if concerns(pass, containers.last().configuration) {
                    assert(places[places.len() - 1] == i);
                } else if places.contains(i) {
                    let k = choose|k: int| 0 <= k < places.len() && places[k] == i;
                    assert(front_places[k] < front.len());
                }
            }
        }
    }
}

/// Which places a pass calls depends on the configurations alone.
pub proof fn lemma_scheduled_by_configuration<E>(
    first: Seq<EntityContainerView<E>>,
    second: Seq<EntityContainerView<E>>,
    pass: Pass,
)
    requires
        first.len() == second.len(),
        forall|i: int|
            0 <= i < first.len() ==> (#[trigger] second[i]).configuration == first[i].configuration,
    ensures
        scheduled(first, pass) == scheduled(second, pass),
    decreases first.len(),
{
    if first.len() > 0 {
        assert(second.drop_last().len() == first.drop_last().len());
        assert forall|i: int| 0 <= i < first.drop_last().len() implies (
        #[trigger] second.drop_last()[i]).configuration == first.drop_last()[i].configuration by {
            assert(second[i].configuration == first[i].configuration);
        }
        lemma_scheduled_by_configuration(first.drop_last(), second.drop_last(), pass);
        assert(second[second.len() - 1].configuration == first[first.len() - 1].configuration);
    }
}

/// One call of the frame loop.
pub enum Dispatch {
    /// A pass calling the entity at a place of the world.
    Entity { pass: Pass, place: int },
    /// The update of the camera.
    CameraUpdate,
    /// The handing over of the input to the camera.
    CameraInput,
}

/// The calls of one pass on the given places, in their order.
pub open spec fn entity_calls(pass: Pass, places: Seq<int>) -> Seq<Dispatch> {
    Seq::new(places.len(), |k: int| Dispatch::Entity { pass, place: places[k] })
}

/// The calls of one pass over a world.
pub open spec fn pass_calls<E>(containers: Seq<EntityContainerView<E>>, pass: Pass) -> Seq<
    Dispatch,
> {
    entity_calls(pass, scheduled(containers, pass))
}

/// The calls on the camera during one poll cycle: always its update, then
/// the input if the camera wants it.
pub open spec fn camera_calls(camera_wants_input: bool) -> Seq<Dispatch> {
    if camera_wants_input {
        seq![Dispatch::CameraUpdate, Dispatch::CameraInput]
    } else {
        seq![Dispatch::CameraUpdate]
    }
}

/// The calls of the update phase of one poll cycle: the entities that are
/// updated on every cycle, then the camera, then the entities that take
/// input.
pub open spec fn cycle_calls<E>(
    containers: Seq<EntityContainerView<E>>,
    camera_wants_input: bool,
) -> Seq<Dispatch> {
    pass_calls(containers, Pass::Update) + camera_calls(camera_wants_input) + pass_calls(
        containers,
        Pass::Input,
    )
}

/// The calls made when a second has passed.
pub open spec fn second_calls<E>(containers: Seq<EntityContainerView<E>>) -> Seq<Dispatch> {
    pass_calls(containers, Pass::SecondUpdate)
}

/// How often a call occurs in a record.
pub open spec fn occurrences(calls: Seq<Dispatch>, call: Dispatch) -> nat
    decreases calls.len(),
{
    if calls.len() == 0 {
        0
    } else if calls.last() == call {
        occurrences(calls.drop_last(), call) + 1
    } else {
        occurrences(calls.drop_last(), call)
    }
}

/// Occurrences add up over records put end to end.
pub proof fn lemma_occurrences_concat(first: Seq<Dispatch>, second: Seq<Dispatch>, call: Dispatch)
    ensures
        occurrences(first + second, call) == occurrences(first, call) + occurrences(second, call),
    decreases second.len(),
{
    if second.len() == 0 {
        assert(first + second =~= first);
    } else {
        lemma_occurrences_concat(first, second.drop_last(), call);
        assert((first + second).drop_last() =~= first + second.drop_last());
        assert((first + second).last() == second.last());
    }
}

/// A pass calls an entity once if it concerns the entity and never if it
/// does not, however many entities there are; and it makes no call of another
/// pass, nor on the camera.
pub proof fn lemma_pass_calls_each_once<E>(
    containers: Seq<EntityContainerView<E>>,
    pass: Pass,
    call: Dispatch,
)
    ensures
        occurrences(pass_calls(containers, pass), call) == (if call matches Dispatch::Entity {
            pass: other,
            place,
        } && other == pass && 0 <= place < containers.len() && concerns(
            pass,
            containers[place].configuration,
        ) {
            1nat
        } else {
            0nat
        }),
    decreases containers.len(),
{
    let calls = pass_calls(containers, pass);
    if containers.len() == 0 {
        assert(calls =~= Seq::<Dispatch>::empty());
    } else {
        let front = containers.drop_last();
        let front_calls = pass_calls(front, pass);
        let last = containers.len() - 1;
        lemma_pass_calls_each_once(front, pass, call);
        if concerns(pass, containers.last().configuration) {
            assert(calls.drop_last() =~= front_calls);
            assert(calls.last() == (Dispatch::Entity { pass, place: last }));
        } else {
            assert(calls =~= front_calls);
        }
        match call {
            Dispatch::Entity { pass: other, place } => {
                if 0 <= place < last {
                    assert(front[place] == containers[place]);
                }
            },
            _ => {},
        }
    }
}

/// Updates on every cycle. During the update phase of a poll cycle an entity
/// is updated exactly once if its frequency is every cycle, and not at all
/// if it is not, whatever else is in the world; and the phase makes no call
/// of the once-a-second update.
pub proof fn lemma_updated_once_per_cycle<E>(
    containers: Seq<EntityContainerView<E>>,
    camera_wants_input: bool,
    place: int,
)
    requires
        0 <= place < containers.len(),
    ensures
        occurrences(
            cycle_calls(containers, camera_wants_input),
            Dispatch::Entity { pass: Pass::Update, place },
        ) == (if concerns(Pass::Update, containers[place].configuration) {
            1nat
        } else {
            0nat
        }),
        occurrences(
            cycle_calls(containers, camera_wants_input),
            Dispatch::Entity { pass: Pass::Input, place },
        ) == (if concerns(Pass::Input, containers[place].configuration) {
            1nat
        } else {
            0nat
        }),
        occurrences(
            cycle_calls(containers, camera_wants_input),
            Dispatch::Entity { pass: Pass::SecondUpdate, place },
        ) == 0,
        occurrences(cycle_calls(containers, camera_wants_input), Dispatch::CameraUpdate) == 1,
        occurrences(cycle_calls(containers, camera_wants_input), Dispatch::CameraInput) == (
        if camera_wants_input {
            1nat
        } else {
            0nat
        }),
{
    lemma_cycle_occurrences(
        containers,
        camera_wants_input,
        Dispatch::Entity { pass: Pass::Update, place },
    );
    lemma_cycle_occurrences(
        containers,
        camera_wants_input,
        Dispatch::Entity { pass: Pass::Input, place },
    );
    lemma_cycle_occurrences(
        containers,
        camera_wants_input,
        Dispatch::Entity { pass: Pass::SecondUpdate, place },
    );
    lemma_cycle_occurrences(containers, camera_wants_input, Dispatch::CameraUpdate);
    lemma_cycle_occurrences(containers, camera_wants_input, Dispatch::CameraInput);
}

/// The occurrences of a call in the update phase, part by part.
pub proof fn lemma_cycle_occurrences<E>(
    containers: Seq<EntityContainerView<E>>,
    camera_wants_input: bool,
    call: Dispatch,
)
    ensures
        occurrences(cycle_calls(containers, camera_wants_input), call) == occurrences(
            pass_calls(containers, Pass::Update),
            call,
        ) + occurrences(camera_calls(camera_wants_input), call) + occurrences(
            pass_calls(containers, Pass::Input),
            call,
        ),
        occurrences(camera_calls(camera_wants_input), call) == (if call == Dispatch::CameraUpdate
            || (call == Dispatch::CameraInput && camera_wants_input) {
            1nat
        } else {
            0nat
        }),
        occurrences(pass_calls(containers, Pass::Update), call) == (
        if call matches Dispatch::Entity { pass: other, place } && other == Pass::Update && 0
            <= place < containers.len() && concerns(
            Pass::Update,
            containers[place].configuration,
        ) {
            1nat
        } else {
            0nat
        }),
        occurrences(pass_calls(containers, Pass::Input), call) == (
        if call matches Dispatch::Entity { pass: other, place } && other == Pass::Input && 0
            <= place < containers.len() && concerns(Pass::Input, containers[place].configuration) {
            1nat
        } else {
            0nat
        }),
{
    let updates = pass_calls(containers, Pass::Update);
    let camera = camera_calls(camera_wants_input);
    let inputs = pass_calls(containers, Pass::Input);
    lemma_occurrences_concat(updates + camera, inputs, call);
    lemma_occurrences_concat(updates, camera, call);
    lemma_pass_calls_each_once(containers, Pass::Update, call);
    lemma_pass_calls_each_once(containers, Pass::Input, call);
    let update_alone = seq![Dispatch::CameraUpdate];
    assert(update_alone.drop_last() =~= Seq::<Dispatch>::empty());
    assert(update_alone.last() == Dispatch::CameraUpdate);
    assert(occurrences(update_alone.drop_last(), call) == 0);
    assert(occurrences(update_alone, call) == (if call == Dispatch::CameraUpdate {
        1nat
    } else {
        0nat
    }));
    if camera_wants_input {
        assert(camera.drop_last() =~= update_alone);
        assert(camera.last() == Dispatch::CameraInput);
    } else {
        assert(camera =~= update_alone);
    }
}

/// Updates once a second. When a second has passed, an entity gets its
/// once-a-second update exactly once if its frequency is once a second, and
/// not at all if it is not.
pub proof fn lemma_second_update_once_per_second<E>(
    containers: Seq<EntityContainerView<E>>,
    place: int,
)
    requires
        0 <= place < containers.len(),
    ensures
        occurrences(second_calls(containers), Dispatch::Entity { pass: Pass::SecondUpdate, place })
            == (if concerns(Pass::SecondUpdate, containers[place].configuration) {
            1nat
        } else {
            0nat
        }),
{
    lemma_pass_calls_each_once(
        containers,
        Pass::SecondUpdate,
        Dispatch::Entity { pass: Pass::SecondUpdate, place },
    );
}

} // verus!

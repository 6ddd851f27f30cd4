//! The world: the entities in the order in which they were put in, and the
//! scene they stand in.
//!
//! The order of the entities is the order in which they are updated and
//! drawn. A world never reorders them.

use crate::color::Color;
use crate::dispatch::{concerns, joined, pass_call, scheduled, Pass};
use crate::engine_error::EngineError;
use crate::entity::{
    declares, requested_removals, requested_tags, tag_set, tag_views, EntityAction,
    EntityConfigurationView, TEntity, UpdateFrequency,
};
use crate::entity_container::{
    failure_of, preparation_after, EntityContainer, EntityContainerView, Preparation,
};
use crate::input::InputHandler;
use crate::light::{PointLightSlot, WAmbientLight};
use crate::model::Model;
use crate::sequence::reversed;
use crate::tags::{admits, count_tag, has_tag, insertion, offered, without_tags};
use vstd::prelude::*;

verus! {

/// What a world does with an entity whose tag is already taken.
#[derive(Clone, Copy, Debug, PartialEq, Eq, Structural)]
pub enum EntityTagDuplicationBehaviour {
    /// Takes it in.
    Allow,
    /// Takes it in and says so.
    WarnOnDuplication,
    /// Refuses it.
    Reject,
}

/// How an entity came into a world.
#[derive(Clone, Copy, Debug, PartialEq, Eq, Structural)]
pub enum Insertion {
    /// Without remark.
    Inserted,
    /// Although its tag was taken: the caller is to warn of it.
    InsertedDuplicate,
}

/// Why a world refused an entity.
#[derive(Debug)]
pub enum WorldError {
    /// The tag is taken and the world takes no duplicates.
    DuplicateTag(String),
}

/// A world as a value.
pub struct WorldView<E> {
    pub clear_color: Color,
    pub entity_tag_duplication_behaviour: EntityTagDuplicationBehaviour,
    /// The containers, oldest first.
    pub containers: Seq<EntityContainerView<E>>,
    pub ambient_light: WAmbientLight,
    /// The point-light slots: always four.
    pub point_lights: Seq<PointLightSlot>,
}

/// What putting an entity in does. The entity is asked what it declares of
/// itself and is then offered to the world, unprepared, under that
/// configuration: it goes in behind all others if the world's policy admits
/// its tag, with a remark where the world is to warn; else the world stays as
/// it is and the tag is handed back with the refusal.
pub open spec fn entity_added<E: TEntity>(
    before: WorldView<E>,
    entity: E,
    after: WorldView<E>,
    result: Result<Insertion, WorldError>,
) -> bool {
    exists|configuration: EntityConfigurationView| #[trigger]
        declares(&entity, configuration) && container_added(
            before,
            EntityContainerView { configuration, entity, preparation: Preparation::Pending },
            after,
            result,
        )
}

/// What offering a container to a world does: see [`World::add_container`].
pub open spec fn container_added<E>(
    before: WorldView<E>,
    container: EntityContainerView<E>,
    after: WorldView<E>,
    result: Result<Insertion, WorldError>,
) -> bool {
    let policy = before.entity_tag_duplication_behaviour;
    let tag = container.configuration.tag;
    &&& after == (WorldView {
        containers: offered(policy, before.containers, container),
        ..before
    })
    &&& admits(policy, before.containers, tag) ==> result == Ok::<Insertion, WorldError>(
        insertion(policy, before.containers, tag),
    )
    &&& !admits(policy, before.containers, tag) ==> (result matches Err(
        WorldError::DuplicateTag(refused),
    ) && refused@ == tag)
}

/// Whether an entity is drawn and has not been asked for its resources.
pub open spec fn awaits_preparation<E>(container: EntityContainerView<E>) -> bool {
    container.configuration.wants_render && container.preparation == Preparation::Pending
}

/// Whether an entity is drawn and its resources are there.
pub open spec fn drawable<E>(container: EntityContainerView<E>) -> bool {
    container.configuration.wants_render && container.preparation == Preparation::Prepared
}

/// What a pass over the entities may change: nothing but the entities that
/// it calls. No container comes or goes, none moves, and each keeps its
/// configuration and its state of preparation.
pub open spec fn dispatched_to<E>(before: WorldView<E>, after: WorldView<E>, pass: Pass) -> bool {
    &&& after.clear_color == before.clear_color
    &&& after.entity_tag_duplication_behaviour == before.entity_tag_duplication_behaviour
    &&& after.ambient_light == before.ambient_light
    &&& after.point_lights == before.point_lights
    &&& after.containers.len() == before.containers.len()
    &&& forall|i: int|
        0 <= i < before.containers.len() ==> {
            &&& (#[trigger] after.containers[i]).configuration == before.containers[i].configuration
            &&& after.containers[i].preparation == before.containers[i].preparation
            &&& !concerns(pass, before.containers[i].configuration) ==> after.containers[i]
                == before.containers[i]
        }
}

/// What preparing a world for drawing may change, and what it reports. Only
/// entities that are drawn and were not asked before are touched; each of
/// them has been asked afterwards. The failures are reported in ascending
/// order of place, one for each entity that failed just now.
pub open spec fn prepared_from<E>(
    before: WorldView<E>,
    after: WorldView<E>,
    failures: Seq<(usize, EngineError)>,
) -> bool {
    &&& after.clear_color == before.clear_color
    &&& after.entity_tag_duplication_behaviour == before.entity_tag_duplication_behaviour
    &&& after.ambient_light == before.ambient_light
    &&& after.point_lights == before.point_lights
    &&& after.containers.len() == before.containers.len()
    &&& forall|i: int|
        0 <= i < before.containers.len() ==> {
            &&& (#[trigger] after.containers[i]).configuration == before.containers[i].configuration
            &&& after.containers[i].preparation != Preparation::Pending
                || !before.containers[i].configuration.wants_render
            &&& !awaits_preparation(before.containers[i]) ==> after.containers[i]
                == before.containers[i]
            &&& (awaits_preparation(before.containers[i]) && after.containers[i].preparation
                == Preparation::Failed) <==> exists|k: int|
                0 <= k < failures.len() && (#[trigger] failures[k]).0 == i
        }
    &&& forall|a: int, b: int| 0 <= a < b < failures.len() ==> failures[a].0 < failures[b].0
}

/// Whether the entity can show the model when it is asked for one: `None`
/// stands for an entity that shows nothing.
pub open spec fn shows<E: TEntity>(entity: &E, model: Option<&Model>) -> bool {
    call_ensures(E::model, (entity,), model)
}

/// Whether one of the placed models stands at the place.
pub open spec fn has_place(models: Seq<(usize, &Model)>, place: int) -> bool {
    exists|k: int| 0 <= k < models.len() && (#[trigger] models[k]).0 == place
}

/// Whether the placed models are what the drawable entities of a world
/// showed. The places ascend; every model stands at the place of a drawable
/// entity that showed it; and a drawable entity without a model in the list
/// showed nothing.
pub open spec fn collected_from<E: TEntity>(
    containers: Seq<EntityContainerView<E>>,
    models: Seq<(usize, &Model)>,
) -> bool {
    &&& forall|a: int, b: int| 0 <= a < b < models.len() ==> models[a].0 < models[b].0
    &&& forall|k: int|
        0 <= k < models.len() ==> {
            &&& (#[trigger] models[k]).0 < containers.len()
            &&& drawable(containers[models[k].0 as int])
            &&& shows(&containers[models[k].0 as int].entity, Some(models[k].1))
        }
    &&& forall|j: int|
        0 <= j < containers.len() && drawable(#[trigger] containers[j]) && !has_place(models, j)
            ==> shows(&containers[j].entity, None)
}

/// The entities and the scene they stand in.
pub struct World<E: TEntity> {
    clear_color: Color,
    entity_tag_duplication_behaviour: EntityTagDuplicationBehaviour,
    entities: Vec<EntityContainer<E>>,
    ambient_light: WAmbientLight,
    point_lights: [PointLightSlot; 4],
}

impl<E: TEntity> View for World<E> {
    type V = WorldView<E>;

    closed spec fn view(&self) -> WorldView<E> {
        WorldView {
            clear_color: self.clear_color,
            entity_tag_duplication_behaviour: self.entity_tag_duplication_behaviour,
            containers: Seq::new(self.entities@.len(), |i: int| self.entities@[i]@),
            ambient_light: self.ambient_light,
            point_lights: self.point_lights@,
        }
    }
}

impl<E: TEntity> World<E> {
    /// A world without entities.
    pub fn new(
        clear_color: Color,
        entity_tag_duplication_behaviour: EntityTagDuplicationBehaviour,
        ambient_light: WAmbientLight,
        point_lights: [PointLightSlot; 4],
    ) -> (world: Self)
        ensures
            world@ == (WorldView::<E> {
                clear_color,
                entity_tag_duplication_behaviour,
                containers: Seq::empty(),
                ambient_light,
                point_lights: point_lights@,
            }),
    {
        let world = World {
            clear_color,
            entity_tag_duplication_behaviour,
            entities: Vec::new(),
            ambient_light,
            point_lights,
        };
        assert(world@.containers =~= Seq::<EntityContainerView<E>>::empty());
        world
    }

    /// A world always has four point-light slots.
    pub proof fn lemma_four_point_lights(&self)
        ensures
            self@.point_lights.len() == 4,
    {
    }

    /// The colour that the frame is cleared to.
    pub fn clear_color(&self) -> (color: Color)
        ensures
            color == self@.clear_color,
    {
        self.clear_color
    }

    /// What the world does with an entity whose tag is taken.
    pub fn entity_tag_duplication_behaviour(&self) -> (policy: EntityTagDuplicationBehaviour)
        ensures
            policy == self@.entity_tag_duplication_behaviour,
    {
        self.entity_tag_duplication_behaviour
    }

    /// The ambient light.
    pub fn ambient_light(&self) -> (light: WAmbientLight)
        ensures
            light == self@.ambient_light,
    {
        self.ambient_light
    }

    /// The four point-light slots.
    pub fn point_lights(&self) -> (slots: &[PointLightSlot; 4])
        ensures
            slots@ == self@.point_lights,
    {
        &self.point_lights
    }

    /// The point-light slot at the given place.
    pub fn point_light(&self, slot: usize) -> (light: PointLightSlot)
        requires
            slot < 4,
        ensures
            light == self@.point_lights[slot as int],
    {
        self.point_lights[slot]
    }

    /// Number of entities.
    pub fn len(&self) -> (count: usize)
        ensures
            count == self@.containers.len(),
    {
        self.entities.len()
    }

    /// The container at the given place.
    pub fn container(&self, index: usize) -> (container: &EntityContainer<E>)
        requires
            index < self@.containers.len(),
        ensures
            container@ == self@.containers[index as int],
    {
        &self.entities[index]
    }

    /// The place of the oldest entity that has the tag, if there is one.
    pub fn find_by_tag(&self, tag: &str) -> (place: Option<usize>)
        ensures
            place is Some <==> has_tag(self@.containers, tag@),
            place matches Some(found) ==> {
                &&& found < self@.containers.len()
                &&& self@.containers[found as int].configuration.tag == tag@
                &&& forall|j: int|
                    0 <= j < found ==> (#[trigger] self@.containers[j]).configuration.tag != tag@
            },
    {
        let wanted = tag.to_owned();
        let mut i: usize = 0;
        while i < self.entities.len()
            invariant
                i <= self.entities@.len(),
                wanted@ == tag@,
                forall|j: int| 0 <= j < i ==> (#[trigger] self@.containers[j]).configuration.tag != tag@,
            decreases self.entities@.len() - i,
        {
            if self.entities[i].entity_configuration().is_tag(&wanted) {
                assert(self@.containers[i as int].configuration.tag == tag@);
                return Some(i);
            }
            i += 1;
        }
        None
    }

    /// Whether an entity has the tag.
    pub fn contains_tag(&self, tag: &str) -> (found: bool)
        ensures
            found == has_tag(self@.containers, tag@),
    {
        self.find_by_tag(tag).is_some()
    }

    /// How many entities have the tag.
    pub fn count_by_tag(&self, tag: &str) -> (count: usize)
        ensures
            count == count_tag(self@.containers, tag@),
    {
        let wanted = tag.to_owned();
        let mut count: usize = 0;
        let mut i: usize = 0;
        while i < self.entities.len()
            invariant
                i <= self.entities@.len(),
                wanted@ == tag@,
                count <= i,
                count == count_tag(self@.containers.take(i as int), tag@),
            decreases self.entities@.len() - i,
        {
            proof {
                assert(self@.containers.take(i as int + 1).drop_last() =~= self@.containers.take(
                    i as int,
                ));
            }
            if self.entities[i].entity_configuration().is_tag(&wanted) {
                count += 1;
            }
            i += 1;
        }
        proof {
            assert(self@.containers.take(self.entities@.len() as int) =~= self@.containers);
        }
        count
    }

    /// Calls one pass on every entity that it concerns, oldest first, each
    /// exactly once, and on no other. Every such entity is handed to the call
    /// of the pass as it was, with the delta time and the input given, and is
    /// afterwards what the call left. Hands back what the updates asked for,
    /// in the order of the calls, and the places that were called, which are
    /// those of [`scheduled`].
    pub fn dispatch(&mut self, pass: Pass, delta_time: u64, input_handler: &InputHandler) -> (outcome: (
        Vec<EntityAction>,
        Ghost<Seq<int>>,
    ))
        ensures
            dispatched_to(old(self)@, final(self)@, pass),
            outcome.1@ == scheduled(old(self)@.containers, pass),
            pass != Pass::Update ==> outcome.0@.len() == 0,
            exists|returned: Seq<Seq<EntityAction>>|
                {
                    &&& returned.len() == old(self)@.containers.len()
                    &&& outcome.0@ == #[trigger] joined(returned)
                    &&& forall|i: int|
                        #![trigger old(self)@.containers[i]]
                        0 <= i < returned.len() ==> if concerns(
                            pass,
                            old(self)@.containers[i].configuration,
                        ) {
                            exists|entity: &mut E|
                                {
                                    &&& *entity == old(self)@.containers[i].entity
                                    &&& *final(entity) == final(self)@.containers[i].entity
                                    &&& #[trigger] pass_call(
                                        pass,
                                        entity,
                                        delta_time,
                                        input_handler,
                                        returned[i],
                                    )
                                }
                        } else {
                            returned[i].len() == 0
                        }
                },
    {
        let mut actions: Vec<EntityAction> = Vec::new();
        let ghost mut visited: Seq<int> = Seq::empty();
        let ghost mut returned: Seq<Seq<EntityAction>> = Seq::empty();
        let count: usize = self.entities.len();
        let mut i: usize = 0;
        while i < count
            invariant
                i <= count,
                count == self.entities@.len(),
                dispatched_to(old(self)@, self@, pass),
                visited == scheduled(old(self)@.containers.take(i as int), pass),
                returned.len() == i,
                actions@ == joined(returned),
                pass != Pass::Update ==> actions@.len() == 0,
                forall|j: int|
                    i <= j < count ==> (#[trigger] self@.containers[j]) == old(self)@.containers[j],
                forall|j: int|
                    #![trigger old(self)@.containers[j]]
                    0 <= j < i ==> if concerns(pass, old(self)@.containers[j].configuration) {
                        exists|entity: &mut E|
                            {
                                &&& *entity == old(self)@.containers[j].entity
                                &&& *final(entity) == self@.containers[j].entity
                                &&& #[trigger] pass_call(
                                    pass,
                                    entity,
                                    delta_time,
                                    input_handler,
                                    returned[j],
                                )
                            }
                    } else {
                        returned[j].len() == 0
                    },
            decreases count - i,
        {
            proof {
                let upto = old(self)@.containers.take(i as int + 1);
                assert(upto.drop_last() =~= old(self)@.containers.take(i as int));
                assert(upto.last() == old(self)@.containers[i as int]);
                assert(self@.containers[i as int].configuration
                    == old(self)@.containers[i as int].configuration);
                assert(self@.containers[i as int].entity == old(self)@.containers[i as int].entity);
            }
            let ghost before = self@;
            let ghost returned_before = returned;
            let ghost mut answered: Seq<EntityAction> = Seq::empty();
            let ghost mut asked_value: Vec<EntityAction> = arbitrary();
            let frequency = self.entities[i].entity_configuration().update_frequency();
            let wants_input: bool = self.entities[i].entity_configuration().wants_input();
            match pass {
                Pass::Update => {
                    if let UpdateFrequency::EveryCycle = frequency {
                        let container = &mut self.entities[i];
                        let entity = container.entity_mut();
                        let mut asked = entity.update(delta_time, input_handler);
                        proof {
                            answered = asked@;
                            asked_value = asked;
                        }
                        actions.append(&mut asked);
                        proof {
                            visited = visited.push(i as int);
                        }
                    }
                },
                Pass::SecondUpdate => {
                    if let UpdateFrequency::OnSecond = frequency {
                        let container = &mut self.entities[i];
                        let entity = container.entity_mut();
                        entity.on_second_update(delta_time);
                        proof {
                            visited = visited.push(i as int);
                        }
                    }
                },
                Pass::Input => {
                    if wants_input {
                        let container = &mut self.entities[i];
                        let entity = container.entity_mut();
                        entity.on_input(delta_time, input_handler);
                        proof {
                            visited = visited.push(i as int);
                        }
                    }
                },
            }
            proof {
                returned = returned.push(answered);
                assert(returned.drop_last() =~= returned_before);
                assert(returned.last() == answered);
                assert(actions@ =~= joined(returned));
                assert forall|j: int| 0 <= j < before.containers.len() implies {
                    &&& (#[trigger] self@.containers[j]).configuration
                        == before.containers[j].configuration
                    &&& self@.containers[j].preparation == before.containers[j].preparation
                    &&& j != i ==> self@.containers[j] == before.containers[j]
                } by {}
                assert forall|j: int|
                    #![trigger old(self)@.containers[j]]
                    0 <= j < i + 1 implies if concerns(
                        pass,
                        old(self)@.containers[j].configuration,
                    ) {
                        exists|entity: &mut E|
                            {
                                &&& *entity == old(self)@.containers[j].entity
                                &&& *final(entity) == self@.containers[j].entity
                                &&& #[trigger] pass_call(
                                    pass,
                                    entity,
                                    delta_time,
                                    input_handler,
                                    returned[j],
                                )
                            }
                    } else {
                        returned[j].len() == 0
                    } by {
                    if j < i {
                        assert(returned[j] == returned_before[j]);
                        assert(self@.containers[j] == before.containers[j]);
                        if concerns(pass, old(self)@.containers[j].configuration) {
                            let entity = choose|entity: &mut E|
                                {
                                    &&& *entity == old(self)@.containers[j].entity
                                    &&& *final(entity) == before.containers[j].entity
                                    &&& #[trigger] pass_call(
                                        pass,
                                        entity,
                                        delta_time,
                                        input_handler,
                                        returned_before[j],
                                    )
                                };
                            assert(pass_call(
                                pass,
                                entity,
                                delta_time,
                                input_handler,
                                returned[j],
                            ));
                        }
                    } else if concerns(pass, old(self)@.containers[j].configuration) {
                        match pass {
                            Pass::Update => {
                                let entity = choose|entity: &mut E|
                                    {
                                        &&& *entity == before.containers[j].entity
                                        &&& *final(entity) == self@.containers[j].entity
                                        &&& #[trigger] call_ensures(
                                            E::update,
                                            (entity, delta_time, input_handler),
                                            asked_value,
                                        )
                                    };
                                assert(pass_call(
                                    pass,
                                    entity,
                                    delta_time,
                                    input_handler,
                                    returned[j],
                                ));
                            },
                            Pass::SecondUpdate => {
                                let entity = choose|entity: &mut E|
                                    {
                                        &&& *entity == before.containers[j].entity
                                        &&& *final(entity) == self@.containers[j].entity
                                        &&& #[trigger] call_ensures(
                                            E::on_second_update,
                                            (entity, delta_time),
                                            (),
                                        )
                                    };
                                assert(pass_call(
                                    pass,
                                    entity,
                                    delta_time,
                                    input_handler,
                                    returned[j],
                                ));
                            },
                            Pass::Input => {
                                let entity = choose|entity: &mut E|
                                    {
                                        &&& *entity == before.containers[j].entity
                                        &&& *final(entity) == self@.containers[j].entity
                                        &&& #[trigger] call_ensures(
                                            E::on_input,
                                            (entity, delta_time, input_handler),
                                            (),
                                        )
                                    };
                                assert(pass_call(
                                    pass,
                                    entity,
                                    delta_time,
                                    input_handler,
                                    returned[j],
                                ));
                            },
                        }
                    }
                }
            }
            i += 1;
        }
        proof {
            assert(old(self)@.containers.take(count as int) =~= old(self)@.containers);
        }
        (actions, Ghost(visited))
    }

    /// Puts a container in behind all others, as the world's policy on taken
    /// tags allows. A world that takes no duplicates refuses a container whose
    /// tag is taken and stays as it is; every other container goes in, with a
    /// remark where the world is to warn of a taken tag.
    pub fn add_container(&mut self, container: EntityContainer<E>) -> (result: Result<
        Insertion,
        WorldError,
    >)
        ensures
            container_added(old(self)@, container@, final(self)@, result),
    {
        let taken: bool = match self.entity_tag_duplication_behaviour {
            EntityTagDuplicationBehaviour::Allow => false,
            _ => self.contains_tag(container.entity_configuration().tag()),
        };
        if taken {
            if let EntityTagDuplicationBehaviour::Reject = self.entity_tag_duplication_behaviour {
                assert(self@.containers =~= old(self)@.containers);
                return Err(
                    WorldError::DuplicateTag(container.entity_configuration().tag().to_owned()),
                );
            }
        }
        self.entities.push(container);
        proof {
            assert(self@.containers =~= old(self)@.containers.push(container@));
        }
        if taken {
            Ok(Insertion::InsertedDuplicate)
        } else {
            Ok(Insertion::Inserted)
        }
    }

    /// Asks an entity what it declares of itself and offers it to the world
    /// under that configuration, unprepared, as [`World::add_container`] does
    /// with a container.
    pub fn add_entity(&mut self, entity: E) -> (result: Result<Insertion, WorldError>)
        ensures
            entity_added(old(self)@, entity, final(self)@, result),
    {
        let container = EntityContainer::from_boxed_entity(entity);
        let ghost configuration = container@.configuration;
        let result = self.add_container(container);
        proof {
            assert(declares(&entity, configuration));
        }
        result
    }

    /// Whether the container's tag is one of the list.
    fn listed(tags: &Vec<String>, container: &EntityContainer<E>) -> (found: bool)
        ensures
            found == tag_set(tags@).contains(container@.configuration.tag),
    {
        let mut i: usize = 0;
        while i < tags.len()
            invariant
                i <= tags@.len(),
                forall|j: int| 0 <= j < i ==> (#[trigger] tags@[j])@ != container@.configuration.tag,
            decreases tags@.len() - i,
        {
            if container.entity_configuration().is_tag(&tags[i]) {
                assert(tag_views(tags@)[i as int] == container@.configuration.tag);
                return true;
            }
            i += 1;
        }
        false
    }

    /// Takes out every entity that has one of the tags and hands back how
    /// many that were. The others keep their order.
    pub fn remove_by_tags(&mut self, tags: &Vec<String>) -> (removed: usize)
        ensures
            final(self)@ == (WorldView {
                containers: without_tags(old(self)@.containers, tag_set(tags@)),
                ..old(self)@
            }),
            removed == old(self)@.containers.len() - final(self)@.containers.len(),
    {
        let ghost all = old(self)@.containers;
        let ghost unwanted = tag_set(tags@);
        let mut pending: Vec<EntityContainer<E>> = Vec::new();
        std::mem::swap(&mut self.entities, &mut pending);
        let mut pending = reversed(pending);
        let count: usize = pending.len();
        let mut removed: usize = 0;
        assert(self@.containers =~= without_tags(all.take(0), unwanted));
        while pending.len() > 0
            invariant
                self@.clear_color == old(self)@.clear_color,
                self@.entity_tag_duplication_behaviour == old(self)@.entity_tag_duplication_behaviour,
                self@.ambient_light == old(self)@.ambient_light,
                self@.point_lights == old(self)@.point_lights,
                unwanted == tag_set(tags@),
                count == all.len(),
                pending@.len() <= count,
                forall|j: int|
                    0 <= j < pending@.len() ==> (#[trigger] pending@[j])@ == all[count - 1 - j],
                self@.containers == without_tags(all.take(count - pending@.len()), unwanted),
                removed + self@.containers.len() + pending@.len() == count,
            decreases pending@.len(),
        {
            let ghost kept = self@.containers;
            let ghost place = count - pending@.len();
            proof {
                let upto = all.take(place + 1);
                assert(upto.drop_last() =~= all.take(place));
                assert(upto.last() == all[place]);
                assert(pending@[pending@.len() - 1]@ == all[place]);
            }
            match pending.pop() {
                Some(container) => {
                    if Self::listed(tags, &container) {
                        removed += 1;
                    } else {
                        self.entities.push(container);
                        proof {
                            assert(self@.containers =~= kept.push(container@));
                        }
                    }
                },
                None => {},
            }
        }
        proof {
            assert(all.take(count as int) =~= all);
        }
        removed
    }

    /// Every tag that the actions ask to remove, in one list, in the order
    /// of the asking.
    pub fn collect_removals(actions: &Vec<EntityAction>) -> (tags: Vec<String>)
        ensures
            tag_views(tags@) == requested_tags(actions@),
            tag_set(tags@) == requested_removals(actions@),
    {
        let mut tags: Vec<String> = Vec::new();
        let mut i: usize = 0;
        assert(tag_views(tags@) =~= requested_tags(actions@.take(0)));
        while i < actions.len()
            invariant
                i <= actions@.len(),
                tag_views(tags@) == requested_tags(actions@.take(i as int)),
            decreases actions@.len() - i,
        {
            let ghost before = tag_views(tags@);
            match &actions[i] {
                EntityAction::Remove(named) => {
                    let mut j: usize = 0;
                    assert(tag_views(tags@) =~= before + tag_views(named@.take(0)));
                    while j < named.len()
                        invariant
                            j <= named@.len(),
                            tag_views(tags@) == before + tag_views(named@.take(j as int)),
                        decreases named@.len() - j,
                    {
                        let ghost so_far = tag_views(tags@);
                        tags.push(named[j].clone());
                        proof {
                            assert(tag_views(tags@) =~= so_far.push(named@[j as int]@));
                            assert(tag_views(named@.take(j as int + 1)) =~= tag_views(
                                named@.take(j as int),
                            ).push(named@[j as int]@));
                        }
                        j += 1;
                    }
                    proof {
                        let upto = actions@.take(i as int + 1);
                        assert(upto.drop_last() =~= actions@.take(i as int));
                        assert(upto.last() == actions@[i as int]);
                        assert(named@.take(named@.len() as int) =~= named@);
                    }
                },
            }
            i += 1;
        }
        proof {
            assert(actions@.take(actions@.len() as int) =~= actions@);
        }
        tags
    }

    /// Carries out what entities asked for: takes out every entity that has a
    /// tag that one of the actions names, and hands back how many that were.
    pub fn apply_actions(&mut self, actions: &Vec<EntityAction>) -> (removed: usize)
        ensures
            final(self)@ == (WorldView {
                containers: without_tags(old(self)@.containers, requested_removals(actions@)),
                ..old(self)@
            }),
            removed == old(self)@.containers.len() - final(self)@.containers.len(),
    {
        let tags = Self::collect_removals(actions);
        self.remove_by_tags(&tags)
    }

    /// Asks every entity that is drawn and has not been asked before to
    /// create its resources on the graphics device, oldest first. No other
    /// entity is touched, and none is asked a second time. Hands back the
    /// failures, each with the place of its entity; those entities stay in
    /// the world and are not drawn.
    pub fn prepare_entities(&mut self, logical_device: &E::Device) -> (failures: Vec<
        (usize, EngineError),
    >)
        ensures
            prepared_from(old(self)@, final(self)@, failures@),
            forall|i: int|
                0 <= i < old(self)@.containers.len() && awaits_preparation(
                    #[trigger] old(self)@.containers[i],
                ) ==> exists|entity: &mut E, outcome: Result<(), EngineError>|
                    {
                        &&& *entity == old(self)@.containers[i].entity
                        &&& *final(entity) == final(self)@.containers[i].entity
                        &&& #[trigger] call_ensures(
                            E::prepare_render,
                            (entity, logical_device),
                            outcome,
                        )
                        &&& final(self)@.containers[i].preparation == preparation_after(outcome)
                        &&& outcome matches Err(error) ==> failures@.contains((i as usize, error))
                    },
    {
        let mut failures: Vec<(usize, EngineError)> = Vec::new();
        let count: usize = self.entities.len();
        let mut i: usize = 0;
        while i < count
            invariant
                i <= count,
                count == self.entities@.len(),
                forall|j: int|
                    0 <= j < i && awaits_preparation(#[trigger] old(self)@.containers[j])
                        ==> exists|entity: &mut E, outcome: Result<(), EngineError>|
                        {
                            &&& *entity == old(self)@.containers[j].entity
                            &&& *final(entity) == self@.containers[j].entity
                            &&& #[trigger] call_ensures(
                                E::prepare_render,
                                (entity, logical_device),
                                outcome,
                            )
                            &&& self@.containers[j].preparation == preparation_after(outcome)
                            &&& outcome matches Err(error) ==> failures@.contains(
                                (j as usize, error),
                            )
                        },
                self@.clear_color == old(self)@.clear_color,
                self@.entity_tag_duplication_behaviour == old(self)@.entity_tag_duplication_behaviour,
                self@.ambient_light == old(self)@.ambient_light,
                self@.point_lights == old(self)@.point_lights,
                self@.containers.len() == old(self)@.containers.len(),
                forall|j: int|
                    i <= j < count ==> (#[trigger] self@.containers[j]) == old(self)@.containers[j],
                forall|j: int|
                    0 <= j < i ==> {
                        &&& (#[trigger] self@.containers[j]).configuration
                            == old(self)@.containers[j].configuration
                        &&& self@.containers[j].preparation != Preparation::Pending
                            || !old(self)@.containers[j].configuration.wants_render
                        &&& !awaits_preparation(old(self)@.containers[j]) ==> self@.containers[j]
                            == old(self)@.containers[j]
                        &&& (awaits_preparation(old(self)@.containers[j])
                            && self@.containers[j].preparation == Preparation::Failed)
                            <==> exists|k: int|
                            0 <= k < failures@.len() && (#[trigger] failures@[k]).0 == j
                    },
                forall|k: int| 0 <= k < failures@.len() ==> (#[trigger] failures@[k]).0 < i,
                forall|a: int, b: int|
                    0 <= a < b < failures@.len() ==> failures@[a].0 < failures@[b].0,
            decreases count - i,
        {
            let ghost before = self@;
            let ghost failures_before = failures@;
            let wanted: bool = self.entities[i].entity_configuration().wants_render();
            let mut failed: bool = false;
            if wanted {
                match self.entities[i].prepare_entity(logical_device) {
                    Some(error) => {
                        failures.push((i, error));
                        failed = true;
                    },
                    None => {},
                }
            }
            proof {
                assert forall|j: int|
                    0 <= j < i + 1 && awaits_preparation(
                        #[trigger] old(self)@.containers[j],
                    ) implies exists|entity: &mut E, outcome: Result<(), EngineError>|
                    {
                        &&& *entity == old(self)@.containers[j].entity
                        &&& *final(entity) == self@.containers[j].entity
                        &&& #[trigger] call_ensures(
                            E::prepare_render,
                            (entity, logical_device),
                            outcome,
                        )
                        &&& self@.containers[j].preparation == preparation_after(outcome)
                        &&& outcome matches Err(error) ==> failures@.contains((j as usize, error))
                    } by {
                    if j < i {
                        assert(self@.containers[j] == before.containers[j]);
                        let (entity, outcome) = choose|
                            entity: &mut E,
                            outcome: Result<(), EngineError>,
                        |
                            {
                                &&& *entity == old(self)@.containers[j].entity
                                &&& *final(entity) == before.containers[j].entity
                                &&& #[trigger] call_ensures(
                                    E::prepare_render,
                                    (entity, logical_device),
                                    outcome,
                                )
                                &&& before.containers[j].preparation == preparation_after(outcome)
                                &&& outcome matches Err(error) ==> failures_before.contains(
                                    (j as usize, error),
                                )
                            };
                        match outcome {
                            Err(error) => {
                                let k = choose|k: int|
                                    0 <= k < failures_before.len() && failures_before[k] == (
                                        j as usize,
                                        error,
                                    );
                                assert(failures@[k] == (j as usize, error));
                            },
                            Ok(_) => {},
                        }
                        assert(call_ensures(E::prepare_render, (entity, logical_device), outcome));
                    } else {
                        assert(before.containers[j] == old(self)@.containers[j]);
                        let (entity, outcome) = choose|
                            entity: &mut E,
                            outcome: Result<(), EngineError>,
                        |
                            {
                                &&& *entity == before.containers[j].entity
                                &&& *final(entity) == self@.containers[j].entity
                                &&& #[trigger] call_ensures(
                                    E::prepare_render,
                                    (entity, logical_device),
                                    outcome,
                                )
                                &&& self@.containers[j].preparation == preparation_after(outcome)
                                &&& (if failed {
                                    Some(failures@[failures@.len() - 1].1)
                                } else {
                                    None
                                }) == failure_of(outcome)
                            };
                        if failed {
                            assert(failures@[failures@.len() - 1] == (
                                j as usize,
                                failures@[failures@.len() - 1].1,
                            ));
                        }
                        assert(call_ensures(E::prepare_render, (entity, logical_device), outcome));
                    }
                }
            }
            proof {
                assert forall|j: int| 0 <= j < before.containers.len() && j != i implies (
                #[trigger] self@.containers[j]) == before.containers[j] by {}
                assert(self@.containers[i as int].configuration
                    == before.containers[i as int].configuration);
                assert forall|j: int| 0 <= j < i + 1 implies ((awaits_preparation(
                    old(self)@.containers[j],
                ) && (#[trigger] self@.containers[j]).preparation == Preparation::Failed)
                    <==> exists|k: int| 0 <= k < failures@.len() && (#[trigger] failures@[k]).0 == j) by {
                    if j < i {
                        assert(self@.containers[j] == before.containers[j]);
                        if exists|k: int|
                            0 <= k < failures_before.len() && (#[trigger] failures_before[k]).0 == j {
                            let k = choose|k: int|
                                0 <= k < failures_before.len() && (#[trigger] failures_before[k]).0
                                    == j;
                            assert(failures@[k].0 == j);
                        }
                        if exists|k: int| 0 <= k < failures@.len() && (#[trigger] failures@[k]).0 == j {
                            let k = choose|k: int|
                                0 <= k < failures@.len() && (#[trigger] failures@[k]).0 == j;
                            assert(failures_before[k].0 == j);
                        }
                    } else {
                        if failed {
                            assert(failures@[failures@.len() - 1].0 == i);
                        } else if exists|k: int|
                            0 <= k < failures@.len() && (#[trigger] failures@[k]).0 == j {
                            let k = choose|k: int|
                                0 <= k < failures@.len() && (#[trigger] failures@[k]).0 == j;
                            assert(failures_before[k].0 < i);
                        }
                    }
                }
            }
            i += 1;
        }
        failures
    }

    /// The models of the entities that can be drawn, oldest first, each with
    /// the place of its entity. Every entity that is drawn and whose
    /// resources are there is asked for its model, and no other: the result
    /// holds, in the order of the world, what such entities showed, and an
    /// entity of that kind that is missing from it showed nothing.
    pub fn collect_models(&self) -> (models: Vec<(usize, &Model)>)
        ensures
            collected_from(self@.containers, models@),
    {
        let mut models: Vec<(usize, &Model)> = Vec::new();
        let mut i: usize = 0;
        while i < self.entities.len()
            invariant
                i <= self.entities@.len(),
                forall|k: int|
                    0 <= k < models@.len() ==> {
                        &&& (#[trigger] models@[k]).0 < i
                        &&& drawable(self@.containers[models@[k].0 as int])
                        &&& shows(
                            &self@.containers[models@[k].0 as int].entity,
                            Some(models@[k].1),
                        )
                    },
                forall|a: int, b: int| 0 <= a < b < models@.len() ==> models@[a].0 < models@[b].0,
                forall|j: int|
                    0 <= j < i && drawable(#[trigger] self@.containers[j]) && !has_place(
                        models@,
                        j,
                    ) ==> shows(&self@.containers[j].entity, None),
            decreases self.entities@.len() - i,
        {
            let ghost before = models@;
            let container = &self.entities[i];
            let ghost mut kept = false;
            if container.entity_configuration().wants_render() && container.is_prepared() {
                match container.entity().model() {
                    Some(model) => {
                        assert(drawable(self@.containers[i as int]));
                        models.push((i, model));
                        proof {
                            kept = true;
                        }
                    },
                    None => {},
                }
            }
            proof {
                if kept {
                    assert(models@[models@.len() - 1].0 == i);
                    assert(has_place(models@, i as int));
                }
                assert forall|j: int|
                    0 <= j < i + 1 && drawable(#[trigger] self@.containers[j]) && !has_place(
                        models@,
                        j,
                    ) implies shows(&self@.containers[j].entity, None) by {
                    if j < i {
                        if has_place(before, j) {
                            let k = choose|k: int|
                                0 <= k < before.len() && (#[trigger] before[k]).0 == j;
                            assert(models@[k].0 == j);
                        }
                    }
                }
            }
            i += 1;
        }
        models
    }
}

} // verus!

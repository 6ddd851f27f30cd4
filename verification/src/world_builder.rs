//! Putting a world together.

use crate::color::Color;
use crate::entity::{declares, TEntity};
use crate::entity_container::{
    container_views, EntityContainer, EntityContainerView, Preparation,
};
use crate::light::{PointLightSlot, WAmbientLight, WColor, WPointLight, WPosition};
use crate::sequence::reversed;
use crate::tags::{admits, insertion, offered_all};
use crate::world::{
    EntityTagDuplicationBehaviour, Insertion, World, WorldError, WorldView,
};
use vstd::prelude::*;

verus! {

/// What a builder has been told so far.
pub struct WorldBuilderView<E> {
    pub clear_color: Option<Color>,
    pub entity_tag_duplication_behaviour: Option<EntityTagDuplicationBehaviour>,
    /// The entities to put in, in the order in which they were named.
    pub containers: Seq<EntityContainerView<E>>,
    pub ambient_light: Option<WAmbientLight>,
    /// The point lights by slot: always four.
    pub point_light: Seq<Option<WPointLight>>,
}

/// The colour that a world is cleared to: the one that was named, else black.
pub open spec fn clear_color_or_default(named: Option<Color>) -> Color {
    match named {
        Some(color) => color,
        None => Color::spec_black(),
    }
}

/// The policy on taken tags: the one that was named, else to warn.
pub open spec fn policy_or_default(
    named: Option<EntityTagDuplicationBehaviour>,
) -> EntityTagDuplicationBehaviour {
    match named {
        Some(policy) => policy,
        None => EntityTagDuplicationBehaviour::WarnOnDuplication,
    }
}

/// The ambient light: the one that was named, else a dim white.
pub open spec fn ambient_light_or_default(named: Option<WAmbientLight>) -> WAmbientLight {
    match named {
        Some(light) => light,
        None => WAmbientLight::spec_dim_white(),
    }
}

/// The world that comes of what a builder was told. What was not named is
/// filled in; a point-light slot that was given no light holds a dark light
/// that is switched off; and the entities are offered to the empty world one
/// after the other, under the world's policy on taken tags.
pub open spec fn built<E>(builder: WorldBuilderView<E>) -> WorldView<E> {
    WorldView {
        clear_color: clear_color_or_default(builder.clear_color),
        entity_tag_duplication_behaviour: policy_or_default(
            builder.entity_tag_duplication_behaviour,
        ),
        containers: offered_all(
            policy_or_default(builder.entity_tag_duplication_behaviour),
            Seq::empty(),
            builder.containers,
        ),
        ambient_light: ambient_light_or_default(builder.ambient_light),
        point_lights: Seq::new(4, |slot: int| PointLightSlot::spec_of(builder.point_light[slot])),
    }
}

/// Whether the outcome is how the container at the place came in when the
/// containers were offered to an empty world one after the other: admitted
/// by the policy, it came in without remark or with the remark that its tag
/// was taken; else it was refused, and the refusal names its tag.
pub open spec fn came_in_at<E>(
    policy: EntityTagDuplicationBehaviour,
    named: Seq<EntityContainerView<E>>,
    place: int,
    outcome: Result<Insertion, WorldError>,
) -> bool {
    let before = offered_all(policy, Seq::empty(), named.take(place));
    let tag = named[place].configuration.tag;
    if admits(policy, before, tag) {
        outcome == Ok::<Insertion, WorldError>(insertion(policy, before, tag))
    } else {
        outcome matches Err(WorldError::DuplicateTag(refused)) && refused@ == tag
    }
}

/// Whether the outcomes are how the containers came in, one for each, in
/// their order.
pub open spec fn came_in<E>(
    policy: EntityTagDuplicationBehaviour,
    named: Seq<EntityContainerView<E>>,
    outcomes: Seq<Result<Insertion, WorldError>>,
) -> bool {
    &&& outcomes.len() == named.len()
    &&& forall|place: int|
        0 <= place < outcomes.len() ==> came_in_at(policy, named, place, #[trigger] outcomes[place])
}

/// Collects what a world is to be made of.
pub struct WorldBuilder<E: TEntity> {
    clear_color: Option<Color>,
    entity_tag_duplication_behaviour: Option<EntityTagDuplicationBehaviour>,
    entities: Vec<EntityContainer<E>>,
    ambient_light: Option<WAmbientLight>,
    point_light: [Option<WPointLight>; 4],
}

impl<E: TEntity> View for WorldBuilder<E> {
    type V = WorldBuilderView<E>;

    closed spec fn view(&self) -> WorldBuilderView<E> {
        WorldBuilderView {
            clear_color: self.clear_color,
            entity_tag_duplication_behaviour: self.entity_tag_duplication_behaviour,
            containers: Seq::new(self.entities@.len(), |i: int| self.entities@[i]@),
            ambient_light: self.ambient_light,
            point_light: self.point_light@,
        }
    }
}

impl<E: TEntity> WorldBuilder<E> {
    /// A builder that has been told nothing.
    pub fn new() -> (builder: Self)
        ensures
            builder@ == (WorldBuilderView::<E> {
                clear_color: None,
                entity_tag_duplication_behaviour: None,
                containers: Seq::empty(),
                ambient_light: None,
                point_light: seq![None, None, None, None],
            }),
    {
        let builder = WorldBuilder {
            clear_color: None,
            entity_tag_duplication_behaviour: None,
            entities: Vec::new(),
            ambient_light: None,
            point_light: [None, None, None, None],
        };
        assert(builder@.containers =~= Seq::<EntityContainerView<E>>::empty());
        assert(builder@.point_light =~= seq![None, None, None, None]);
        builder
    }

    /// A builder always has four point-light slots.
    pub proof fn lemma_four_point_lights(&self)
        ensures
            self@.point_light.len() == 4,
    {
    }

    /// Makes the world, as [`built`] says, and hands back with it how each
    /// entity that was named came in, in the order of the naming: without
    /// remark, with the remark that its tag was taken, or not at all.
    pub fn build(self) -> (made: (World<E>, Vec<Result<Insertion, WorldError>>))
        ensures
            made.0@ == built(self@),
            came_in(
                policy_or_default(self@.entity_tag_duplication_behaviour),
                self@.containers,
                made.1@,
            ),
    {
        let ambient_light = match self.ambient_light {
            Some(light) => light,
            None => WAmbientLight::dim_white(),
        };
        let point_lights: [PointLightSlot; 4] = [
            PointLightSlot::of(self.point_light[0]),
            PointLightSlot::of(self.point_light[1]),
            PointLightSlot::of(self.point_light[2]),
            PointLightSlot::of(self.point_light[3]),
        ];
        let clear_color = match self.clear_color {
            Some(color) => color,
            None => Color::black(),
        };
        let policy = match self.entity_tag_duplication_behaviour {
            Some(policy) => policy,
            None => EntityTagDuplicationBehaviour::WarnOnDuplication,
        };
        let mut world = World::new(clear_color, policy, ambient_light, point_lights);
        let mut outcomes: Vec<Result<Insertion, WorldError>> = Vec::new();
        let ghost named = self@.containers;
        let ghost scene = world@;
        let mut pending = reversed(self.entities);
        let count: usize = pending.len();
        assert(scene.point_lights =~= built(self@).point_lights);
        assert(named.take(0) =~= Seq::<EntityContainerView<E>>::empty());
        while pending.len() > 0
            invariant
                count == named.len(),
                pending@.len() <= count,
                scene.entity_tag_duplication_behaviour == policy,
                forall|j: int|
                    0 <= j < pending@.len() ==> (#[trigger] pending@[j])@ == named[count - 1 - j],
                world@ == (WorldView {
                    containers: offered_all(
                        policy,
                        Seq::empty(),
                        named.take(count - pending@.len()),
                    ),
                    ..scene
                }),
                outcomes@.len() == count - pending@.len(),
                forall|j: int|
                    0 <= j < outcomes@.len() ==> came_in_at(
                        policy,
                        named,
                        j,
                        #[trigger] outcomes@[j],
                    ),
            decreases pending@.len(),
        {
            let ghost place = count - pending@.len();
            proof {
                let upto = named.take(place + 1);
                assert(upto.drop_last() =~= named.take(place));
                assert(upto.last() == named[place]);
                assert(pending@[pending@.len() - 1]@ == named[place]);
            }
            match pending.pop() {
                Some(container) => {
                    let outcome = world.add_container(container);
                    outcomes.push(outcome);
                },
                None => {},
            }
        }
        proof {
            assert(named.take(count as int) =~= named);
        }
        (world, outcomes)
    }

    /// Names the colour that the world is cleared to.
    pub fn with_clear_color(self, color: Color) -> (builder: Self)
        ensures
            builder@ == (WorldBuilderView { clear_color: Some(color), ..self@ }),
    {
        let mut builder = self;
        builder.clear_color = Some(color);
        builder
    }

    /// Names what the world does with an entity whose tag is taken.
    pub fn with_entity_tag_duplication_behaviour(
        self,
        entity_tag_duplication_behaviour: EntityTagDuplicationBehaviour,
    ) -> (builder: Self)
        ensures
            builder@ == (WorldBuilderView {
                entity_tag_duplication_behaviour: Some(entity_tag_duplication_behaviour),
                ..self@
            }),
    {
        let mut builder = self;
        builder.entity_tag_duplication_behaviour = Some(entity_tag_duplication_behaviour);
        builder
    }

    /// Names more entities to put in, behind those named before, each in the
    /// container it comes in.
    pub fn with_containers(self, containers: Vec<EntityContainer<E>>) -> (builder: Self)
        ensures
            builder@ == (WorldBuilderView {
                containers: self@.containers + container_views(containers@),
                ..self@
            }),
    {
        let ghost named = containers@;
        let mut builder = self;
        let mut containers = containers;
        builder.entities.append(&mut containers);
        assert(builder@.containers =~= self@.containers + container_views(named));
        builder
    }

    /// Names more entities to put in, behind those named before. Each is asked
    /// now what it declares of itself and is noted under that configuration,
    /// unprepared, in the order given. Nothing else changes.
    pub fn with_entities(self, entities: Vec<E>) -> (builder: Self)
        ensures
            builder@.clear_color == self@.clear_color,
            builder@.entity_tag_duplication_behaviour == self@.entity_tag_duplication_behaviour,
            builder@.ambient_light == self@.ambient_light,
            builder@.point_light == self@.point_light,
            builder@.containers.len() == self@.containers.len() + entities@.len(),
            builder@.containers.take(self@.containers.len() as int) == self@.containers,
            forall|i: int|
                0 <= i < entities@.len() ==> {
                    let container = #[trigger] builder@.containers[self@.containers.len() + i];
                    &&& declares(&entities@[i], container.configuration)
                    &&& container.entity == entities@[i]
                    &&& container.preparation == Preparation::Pending
                },
    {
        let ghost before = self@;
        let ghost named = entities@;
        let mut builder = self;
        let mut pending = reversed(entities);
        let count: usize = pending.len();
        assert(builder@.containers.take(before.containers.len() as int) =~= before.containers);
        while pending.len() > 0
            invariant
                count == named.len(),
                pending@.len() <= count,
                forall|j: int| 0 <= j < pending@.len() ==> pending@[j] == named[count - 1 - j],
                builder@.clear_color == before.clear_color,
                builder@.entity_tag_duplication_behaviour
                    == before.entity_tag_duplication_behaviour,
                builder@.ambient_light == before.ambient_light,
                builder@.point_light == before.point_light,
                builder@.containers.len() == before.containers.len() + count - pending@.len(),
                builder@.containers.take(before.containers.len() as int) == before.containers,
                forall|i: int|
                    0 <= i < count - pending@.len() ==> {
                        let container = #[trigger] builder@.containers[before.containers.len() + i];
                        &&& declares(&named[i], container.configuration)
                        &&& container.entity == named[i]
                        &&& container.preparation == Preparation::Pending
                    },
            decreases pending@.len(),
        {
            let ghost so_far = builder@.containers;
            match pending.pop() {
                Some(entity) => {
                    let container = EntityContainer::from_boxed_entity(entity);
                    builder.entities.push(container);
                    proof {
                        assert(builder@.containers =~= so_far.push(container@));
                        assert(builder@.containers.take(before.containers.len() as int)
                            =~= so_far.take(before.containers.len() as int));
                    }
                },
                None => {},
            }
        }
        builder
    }

    /// Names the ambient light by its colour and strength.
    pub fn with_ambient_light(self, color: (u32, u32, u32), strength: u32) -> (builder: Self)
        ensures
            builder@ == (WorldBuilderView {
                ambient_light: Some(
                    WAmbientLight {
                        color: WColor { r: color.0, g: color.1, b: color.2 },
                        strength,
                    },
                ),
                ..self@
            }),
    {
        let mut builder = self;
        builder.ambient_light = Some(WAmbientLight::from((color, strength)));
        builder
    }

    /// Gives the slot a point light of the given colour, position and
    /// strength.
    pub fn with_point_light(
        self,
        slot: usize,
        color: (u32, u32, u32),
        position: (u32, u32, u32),
        strength: u32,
    ) -> (builder: Self)
        requires
            slot < 4,
        ensures
            builder@ == (WorldBuilderView {
                point_light: self@.point_light.update(
                    slot as int,
                    Some(
                        WPointLight {
                            color: WColor { r: color.0, g: color.1, b: color.2 },
                            position: WPosition { x: position.0, y: position.1, z: position.2 },
                            strength,
                        },
                    ),
                ),
                ..self@
            }),
    {
        let mut builder = self;
        builder.point_light[slot] = Some(WPointLight::from((color, position, strength)));
        builder
    }
}

impl<E: TEntity> Default for WorldBuilder<E> {
    fn default() -> (builder: Self)
        ensures
            builder@ == (WorldBuilderView::<E> {
                clear_color: None,
                entity_tag_duplication_behaviour: None,
                containers: Seq::empty(),
                ambient_light: None,
                point_light: seq![None, None, None, None],
            }),
    {
        Self::new()
    }
}

} // verus!

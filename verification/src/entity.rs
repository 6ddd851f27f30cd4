//! What an entity is to the frame loop.
//!
//! An entity may be updated, may react to input and may be drawn. Which of
//! these it wants it declares in its configuration; what it does with each
//! call is its own affair.

use crate::engine_error::EngineError;
use crate::input::InputHandler;
use crate::model::Model;
use vstd::prelude::*;

verus! {

/// How often an entity is updated.
#[derive(Clone, Copy, Debug, PartialEq, Eq, Structural)]
pub enum UpdateFrequency {
    /// On every poll cycle.
    EveryCycle,
    /// Once whenever a second has passed.
    OnSecond,
    /// Not by the frame loop.
    Slow,
}

/// What an entity declares of itself when it enters a world.
#[derive(Debug)]
pub struct EntityConfiguration {
    tag: String,
    update_frequency: UpdateFrequency,
    wants_render: bool,
    wants_input: bool,
}

/// An entity's configuration as a value.
pub struct EntityConfigurationView {
    /// The name by which the entity is found and removed.
    pub tag: Seq<char>,
    pub update_frequency: UpdateFrequency,
    /// Whether the entity is drawn.
    pub wants_render: bool,
    /// Whether the entity is handed the input.
    pub wants_input: bool,
}

impl View for EntityConfiguration {
    type V = EntityConfigurationView;

    closed spec fn view(&self) -> EntityConfigurationView {
        EntityConfigurationView {
            tag: self.tag@,
            update_frequency: self.update_frequency,
            wants_render: self.wants_render,
            wants_input: self.wants_input,
        }
    }
}

impl EntityConfiguration {
    /// The configuration of an entity that takes no input.
    pub fn new(tag: String, update_frequency: UpdateFrequency, wants_render: bool) -> (configuration:
        Self)
        ensures
            configuration@ == (EntityConfigurationView {
                tag: tag@,
                update_frequency,
                wants_render: wants_render,
                wants_input: false,
            }),
    {
        EntityConfiguration { tag, update_frequency, wants_render, wants_input: false }
    }

    /// The same configuration, but for whether the entity is handed the input.
    pub fn with_input(self, wants_input: bool) -> (configuration: Self)
        ensures
            configuration@ == (EntityConfigurationView { wants_input: wants_input, ..self@ }),
    {
        EntityConfiguration {
            tag: self.tag,
            update_frequency: self.update_frequency,
            wants_render: self.wants_render,
            wants_input,
        }
    }

    /// The name by which the entity is found and removed.
    pub fn tag(&self) -> (tag: &str)
        ensures
            tag@ == self@.tag,
    {
        self.tag.as_str()
    }

    /// Whether the tag is exactly the given one.
    pub fn is_tag(&self, tag: &String) -> (same: bool)
        ensures
            same == (self@.tag == tag@),
    {
        self.tag == *tag
    }

    /// How often the entity is updated.
    pub fn update_frequency(&self) -> (frequency: UpdateFrequency)
        ensures
            frequency == self@.update_frequency,
    {
        self.update_frequency
    }

    /// Whether the entity is drawn.
    pub fn wants_render(&self) -> (wanted: bool)
        ensures
            wanted == self@.wants_render,
    {
        self.wants_render
    }

    /// Whether the entity is handed the input.
    pub fn wants_input(&self) -> (wanted: bool)
        ensures
            wanted == self@.wants_input,
    {
        self.wants_input
    }
}

impl Clone for EntityConfiguration {
    fn clone(&self) -> (copy: Self)
        ensures
            copy@ == self@,
    {
        EntityConfiguration {
            tag: self.tag.clone(),
            update_frequency: self.update_frequency,
            wants_render: self.wants_render,
            wants_input: self.wants_input,
        }
    }
}

/// A change to the world that an entity asks for from its update. The frame
/// loop carries it out once every entity has been updated.
#[derive(Debug)]
pub enum EntityAction {
    /// Remove every entity that has one of these tags.
    Remove(Vec<String>),
}

/// The tags of a list, as values.
pub open spec fn tag_views(tags: Seq<String>) -> Seq<Seq<char>> {
    Seq::new(tags.len(), |i: int| tags[i]@)
}

/// The tags of a list, as a set.
pub open spec fn tag_set(tags: Seq<String>) -> Set<Seq<char>> {
    tag_views(tags).to_set()
}

/// Every tag that a list of actions asks to remove, in the order of the
/// asking.
pub open spec fn requested_tags(actions: Seq<EntityAction>) -> Seq<Seq<char>>
    decreases actions.len(),
{
    if actions.len() == 0 {
        Seq::empty()
    } else {
        requested_tags(actions.drop_last()) + (match actions.last() {
            EntityAction::Remove(tags) => tag_views(tags@),
        })
    }
}

/// Every tag that a list of actions asks to remove, as a set.
pub open spec fn requested_removals(actions: Seq<EntityAction>) -> Set<Seq<char>> {
    requested_tags(actions).to_set()
}

/// A unit of simulated or drawn state. The frame loop calls the methods
/// according to the entity's configuration and promises nothing of what they
/// do.
pub trait TEntity {
    /// The graphics device on which the entity creates its resources.
    type Device;

    /// What the entity declares of itself. Read once, when the entity enters
    /// a world.
    fn entity_configuration(&self) -> EntityConfiguration;

    /// Advances the entity by one poll cycle of `delta_time` nanoseconds and
    /// returns the changes to the world that it asks for.
    fn update(&mut self, delta_time: u64, input_handler: &InputHandler) -> Vec<EntityAction>;

    /// Called when a second has passed, with the time accumulated since the
    /// last such call, in nanoseconds.
    fn on_second_update(&mut self, delta_time: u64) {
    }

    /// Hands the entity the input of this cycle.
    fn on_input(&mut self, delta_time: u64, input_handler: &InputHandler) {
    }

    /// Creates what the entity needs on the graphics device to be drawn.
    fn prepare_render(&mut self, device: &Self::Device) -> Result<(), EngineError> {
        Ok(())
    }

    /// What the entity draws, if anything.
    fn model(&self) -> Option<&Model> {
        None
    }
}

/// Whether the entity can declare the configuration when it is asked what it
/// declares of itself.
pub open spec fn declares<E: TEntity + ?Sized>(
    entity: &E,
    configuration: EntityConfigurationView,
) -> bool {
    exists|declared: EntityConfiguration| #[trigger]
        call_ensures(E::entity_configuration, (entity,), declared) && declared@ == configuration
}

/// An entity of any kind that creates its resources on the graphics device
/// `D`.
pub type BoxedEntity<D> = Box<dyn TEntity<Device = D>>;

/// An entity behind an owning handle is an entity: every call goes on to
/// the entity inside, with the arguments as they came, and what the entity
/// inside answers and becomes is what the handle answers and holds
/// afterwards. With this a world can hold entities of many kinds at once,
/// each boxed.
impl<T: TEntity + ?Sized> TEntity for Box<T> {
    type Device = T::Device;

    fn entity_configuration(&self) -> (configuration: EntityConfiguration)
        ensures
            call_ensures(T::entity_configuration, (&**self,), configuration),
    {
        (**self).entity_configuration()
    }

    fn update(&mut self, delta_time: u64, input_handler: &InputHandler) -> (actions: Vec<
        EntityAction,
    >)
        ensures
            exists|entity: &mut T|
                &*entity == &**old(self) && &*final(entity) == &**final(self)
                    && #[trigger] call_ensures(
                    T::update,
                    (entity, delta_time, input_handler),
                    actions,
                ),
    {
        let entity: &mut T = &mut **self;
        let actions = entity.update(delta_time, input_handler);
        actions
    }

    fn on_second_update(&mut self, delta_time: u64)
        ensures
            exists|entity: &mut T|
                &*entity == &**old(self) && &*final(entity) == &**final(self)
                    && #[trigger] call_ensures(T::on_second_update, (entity, delta_time), ()),
    {
        let entity: &mut T = &mut **self;
        entity.on_second_update(delta_time);
    }

    fn on_input(&mut self, delta_time: u64, input_handler: &InputHandler)
        ensures
            exists|entity: &mut T|
                &*entity == &**old(self) && &*final(entity) == &**final(self)
                    && #[trigger] call_ensures(
                    T::on_input,
                    (entity, delta_time, input_handler),
                    (),
                ),
    {
        let entity: &mut T = &mut **self;
        entity.on_input(delta_time, input_handler);
    }

    fn prepare_render(&mut self, device: &T::Device) -> (outcome: Result<(), EngineError>)
        ensures
            exists|entity: &mut T|
                &*entity == &**old(self) && &*final(entity) == &**final(self)
                    && #[trigger] call_ensures(T::prepare_render, (entity, device), outcome),
    {
        let entity: &mut T = &mut **self;
        let outcome = entity.prepare_render(device);
        outcome
    }

    fn model(&self) -> (model: Option<&Model>)
        ensures
            call_ensures(T::model, (&**self,), model),
    {
        (**self).model()
    }
}

} // verus!

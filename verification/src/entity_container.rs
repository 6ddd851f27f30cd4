//! An entity as a world keeps it.

use crate::engine_error::EngineError;
use crate::entity::{declares, EntityConfiguration, EntityConfigurationView, TEntity};
use vstd::prelude::*;

verus! {

/// How far an entity has come towards being drawn.
#[derive(Clone, Copy, Debug, PartialEq, Eq, Structural)]
pub enum Preparation {
    /// Its resources on the graphics device have not been asked for.
    Pending,
    /// Its resources are there and may be used in a render pass.
    Prepared,
    /// Creating its resources failed. It is not tried again.
    Failed,
}

/// A container as a value.
pub struct EntityContainerView<E> {
    /// The configuration, as the entity declared it when it was put in.
    pub configuration: EntityConfigurationView,
    pub entity: E,
    pub preparation: Preparation,
}

/// Holds one entity together with the configuration that the entity declared
/// when it was put in, and remembers whether the entity can be drawn.
pub struct EntityContainer<E: TEntity> {
    entity_configuration: EntityConfiguration,
    entity: E,
    preparation: Preparation,
}

impl<E: TEntity> View for EntityContainer<E> {
    type V = EntityContainerView<E>;

    closed spec fn view(&self) -> EntityContainerView<E> {
        EntityContainerView {
            configuration: self.entity_configuration@,
            entity: self.entity,
            preparation: self.preparation,
        }
    }
}

/// A list of containers, as values.
pub open spec fn container_views<E: TEntity>(containers: Seq<EntityContainer<E>>) -> Seq<
    EntityContainerView<E>,
> {
    Seq::new(containers.len(), |i: int| containers[i]@)
}

/// The state that the outcome of an attempt leaves behind.
pub open spec fn preparation_after(outcome: Result<(), EngineError>) -> Preparation {
    match outcome {
        Ok(_) => Preparation::Prepared,
        Err(_) => Preparation::Failed,
    }
}

/// The failure of an attempt, if it failed.
pub open spec fn failure_of(outcome: Result<(), EngineError>) -> Option<EngineError> {
    match outcome {
        Ok(_) => None,
        Err(error) => Some(error),
    }
}

impl<E: TEntity> EntityContainer<E> {
    /// Wraps an entity under the configuration that the entity declares when
    /// it is asked here. The entity is not prepared yet.
    pub fn from_boxed_entity(entity: E) -> (container: Self)
        ensures
            declares(&entity, container@.configuration),
            container@.entity == entity,
            container@.preparation == Preparation::Pending,
    {
        let entity_configuration = entity.entity_configuration();
        EntityContainer { entity_configuration, entity, preparation: Preparation::Pending }
    }

    /// Wraps an entity under the given configuration. The entity is not
    /// prepared yet.
    pub fn with_configuration(entity_configuration: EntityConfiguration, entity: E) -> (container:
        Self)
        ensures
            container@ == (EntityContainerView {
                configuration: entity_configuration@,
                entity,
                preparation: Preparation::Pending,
            }),
    {
        EntityContainer { entity_configuration, entity, preparation: Preparation::Pending }
    }

    /// Has the entity create its resources on the graphics device, unless
    /// that was tried before. A pending entity is asked once, with the device
    /// given: after a success it is prepared, after a failure it is marked as
    /// failed and the failure is handed back. A container that was tried
    /// before is left as it is.
    pub fn prepare_entity(&mut self, logical_device: &E::Device) -> (failure: Option<EngineError>)
        ensures
            final(self)@.configuration == old(self)@.configuration,
            old(self)@.preparation != Preparation::Pending ==> final(self)@ == old(self)@
                && failure is None,
            old(self)@.preparation == Preparation::Pending ==> exists|
                entity: &mut E,
                outcome: Result<(), EngineError>,
            |
                {
                    &&& *entity == old(self)@.entity
                    &&& *final(entity) == final(self)@.entity
                    &&& #[trigger] call_ensures(
                        E::prepare_render,
                        (entity, logical_device),
                        outcome,
                    )
                    &&& final(self)@.preparation == preparation_after(outcome)
                    &&& failure == failure_of(outcome)
                },
    {
        match self.preparation {
            Preparation::Pending => {
                let entity = &mut self.entity;
                let outcome = entity.prepare_render(logical_device);
                self.record_preparation(outcome)
            },
            _ => None,
        }
    }

    /// Notes how an attempt to prepare the entity went and hands back the
    /// failure, if it was one.
    pub fn record_preparation(&mut self, outcome: Result<(), EngineError>) -> (failure: Option<
        EngineError,
    >)
        ensures
            final(self)@ == (EntityContainerView {
                preparation: preparation_after(outcome),
                ..old(self)@
            }),
            failure == failure_of(outcome),
    {
        match outcome {
            Ok(_) => {
                self.preparation = Preparation::Prepared;
                None
            },
            Err(error) => {
                self.preparation = Preparation::Failed;
                Some(error)
            },
        }
    }

    /// Forgets that the entity was prepared or failed to be, so that it is
    /// asked again.
    pub fn reset_preparation(&mut self)
        ensures
            final(self)@ == (EntityContainerView {
                preparation: Preparation::Pending,
                ..old(self)@
            }),
    {
        self.preparation = Preparation::Pending;
    }

    /// The configuration that the entity declared when it was put in.
    pub fn entity_configuration(&self) -> (configuration: &EntityConfiguration)
        ensures
            configuration@ == self@.configuration,
    {
        &self.entity_configuration
    }

    /// The entity.
    pub fn entity(&self) -> (entity: &E)
        ensures
            *entity == self@.entity,
    {
        &self.entity
    }

    /// The entity, to change it. Nothing else of the container changes.
    pub fn entity_mut(&mut self) -> (entity: &mut E)
        ensures
            *entity == old(self)@.entity,
            final(self)@ == (EntityContainerView { entity: *final(entity), ..old(self)@ }),
    {
        &mut self.entity
    }

    /// Takes the entity out of its container.
    pub fn and_move_entity(self) -> (entity: E)
        ensures
            entity == self@.entity,
    {
        self.entity
    }

    /// Whether the entity's resources on the graphics device are there.
    pub fn is_prepared(&self) -> (prepared: bool)
        ensures
            prepared == (self@.preparation == Preparation::Prepared),
    {
        match self.preparation {
            Preparation::Prepared => true,
            _ => false,
        }
    }

    /// How far the entity has come towards being drawn.
    pub fn preparation(&self) -> (preparation: Preparation)
        ensures
            preparation == self@.preparation,
    {
        self.preparation
    }

    /// Whether the entity was put in under exactly this tag.
    pub fn is_tag(&self, tag: &str) -> (same: bool)
        ensures
            same == (self@.configuration.tag == tag@),
    {
        let wanted = tag.to_owned();
        self.entity_configuration.is_tag(&wanted)
    }
}

} // verus!

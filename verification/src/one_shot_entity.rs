//! An entity that removes itself.

use crate::entity::{EntityAction, EntityConfiguration, TEntity, UpdateFrequency};
use crate::input::InputHandler;
use std::marker::PhantomData;
use vstd::prelude::*;
use vstd::std_specs::convert::IntoSpec;

verus! {

/// An entity that is never drawn and asks to be removed the first time it is
/// updated. It fits a world of entities on any graphics device `D`, of which
/// it makes no use.
pub struct OneShotEntity<D> {
    tag: String,
    device: PhantomData<D>,
}

impl<D> OneShotEntity<D> {
    /// The entity's tag.
    pub closed spec fn tag(&self) -> Seq<char> {
        self.tag@
    }

    /// A one-shot entity under whatever tag the argument converts to.
    pub fn new<S>(tag: S) -> (entity: Self) where S: Into<String>
        ensures
            S::obeys_into_spec() ==> entity.tag() == tag.into_spec()@,
    {
        Self::with_tag(tag.into())
    }

    /// A one-shot entity under the given tag.
    pub fn with_tag(tag: String) -> (entity: Self)
        ensures
            entity.tag() == tag@,
    {
        OneShotEntity { tag, device: PhantomData }
    }
}

impl<D> TEntity for OneShotEntity<D> {
    type Device = D;

    fn entity_configuration(&self) -> (configuration: EntityConfiguration)
        ensures
            configuration@.tag == self.tag(),
            configuration@.update_frequency == UpdateFrequency::Slow,
            !configuration@.wants_render,
            !configuration@.wants_input,
    {
        EntityConfiguration::new(self.tag.clone(), UpdateFrequency::Slow, false)
    }

    fn update(&mut self, delta_time: u64, input_handler: &InputHandler) -> (actions: Vec<
        EntityAction,
    >)
        ensures
            final(self).tag() == old(self).tag(),
            actions@.len() == 1,
            actions@[0] matches EntityAction::Remove(tags) && tags@.len() == 1 && tags@[0]@
                == old(self).tag(),
    {
        let mut tags: Vec<String> = Vec::new();
        tags.push(self.tag.clone());
        let mut actions: Vec<EntityAction> = Vec::new();
        actions.push(EntityAction::Remove(tags));
        actions
    }
}

} // verus!

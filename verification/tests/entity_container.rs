use frame_engine::engine_error::EngineError;
use frame_engine::entity::{EntityAction, EntityConfiguration, TEntity, UpdateFrequency};
use frame_engine::entity_container::{EntityContainer, Preparation};
use frame_engine::input::InputHandler;
use frame_engine::one_shot_entity::OneShotEntity;

/// Counts how often it is asked to prepare, and fails when told to.
struct Lamp {
    tag: String,
    attempts: u32,
    fails: bool,
    updates: u32,
}

impl Lamp {
    fn new(tag: &str, fails: bool) -> Self {
        Lamp { tag: tag.to_string(), attempts: 0, fails, updates: 0 }
    }
}

impl TEntity for Lamp {
    type Device = u8;

    fn entity_configuration(&self) -> EntityConfiguration {
        EntityConfiguration::new(self.tag.clone(), UpdateFrequency::EveryCycle, true).with_input(true)
    }

    fn update(&mut self, _delta_time: u64, _input_handler: &InputHandler) -> Vec<EntityAction> {
        self.updates += 1;
        Vec::new()
    }

    fn prepare_render(&mut self, device: &u8) -> Result<(), EngineError> {
        assert_eq!(*device, 7);
        self.attempts += 1;
        if self.fails {
            Err(EngineError::ResourceMissing)
        } else {
            Ok(())
        }
    }
}

#[test]
fn configuration_new_takes_no_input() {
    let configuration = EntityConfiguration::new("a".to_string(), UpdateFrequency::OnSecond, true);
    assert_eq!(configuration.tag(), "a");
    assert_eq!(configuration.update_frequency(), UpdateFrequency::OnSecond);
    assert!(configuration.wants_render());
    assert!(!configuration.wants_input());
}

#[test]
fn configuration_with_input_changes_only_that() {
    let configuration =
        EntityConfiguration::new("a".to_string(), UpdateFrequency::Slow, false).with_input(true);
    assert_eq!(configuration.tag(), "a");
    assert_eq!(configuration.update_frequency(), UpdateFrequency::Slow);
    assert!(!configuration.wants_render());
    assert!(configuration.wants_input());
}

#[test]
fn configuration_clone_is_equal() {
    let configuration =
        EntityConfiguration::new("lamp".to_string(), UpdateFrequency::EveryCycle, true);
    let copy = configuration.clone();
    assert_eq!(copy.tag(), "lamp");
    assert_eq!(copy.update_frequency(), UpdateFrequency::EveryCycle);
    assert!(copy.wants_render());
    assert!(!copy.wants_input());
}

#[test]
fn configuration_is_tag_is_exact() {
    let configuration = EntityConfiguration::new("lamp".to_string(), UpdateFrequency::Slow, false);
    assert!(configuration.is_tag(&"lamp".to_string()));
    assert!(!configuration.is_tag(&"Lamp".to_string()));
    assert!(!configuration.is_tag(&"lam".to_string()));
    assert!(!configuration.is_tag(&"lamp ".to_string()));
}

#[test]
fn container_snapshots_the_configuration() {
    let container = EntityContainer::from_boxed_entity(Lamp::new("lamp", false));
    assert_eq!(container.entity_configuration().tag(), "lamp");
    assert_eq!(container.entity_configuration().update_frequency(), UpdateFrequency::EveryCycle);
    assert!(container.entity_configuration().wants_render());
    assert!(container.entity_configuration().wants_input());
    assert!(!container.is_prepared());
    assert_eq!(container.preparation(), Preparation::Pending);
}

#[test]
fn container_keeps_its_snapshot_when_the_entity_changes() {
    let mut container = EntityContainer::from_boxed_entity(Lamp::new("lamp", false));
    container.entity_mut().tag = "other".to_string();
    assert_eq!(container.entity().tag, "other");
    assert_eq!(container.entity_configuration().tag(), "lamp");
    assert!(container.is_tag("lamp"));
    assert!(!container.is_tag("other"));
}

#[test]
fn container_with_configuration_uses_the_given_one() {
    let configuration = EntityConfiguration::new("given".to_string(), UpdateFrequency::Slow, false);
    let container = EntityContainer::with_configuration(configuration, Lamp::new("lamp", false));
    assert!(container.is_tag("given"));
    assert!(!container.is_tag("lamp"));
    assert_eq!(container.entity_configuration().update_frequency(), UpdateFrequency::Slow);
    assert!(!container.is_prepared());
}

#[test]
fn is_tag_is_an_exact_match() {
    let container = EntityContainer::from_boxed_entity(Lamp::new("lamp", false));
    assert!(container.is_tag("lamp"));
    assert!(!container.is_tag("LAMP"));
    assert!(!container.is_tag("lamp2"));
    assert!(!container.is_tag(""));
}

#[test]
fn successful_preparation_is_remembered() {
    let mut container = EntityContainer::from_boxed_entity(Lamp::new("lamp", false));
    assert!(container.prepare_entity(&7).is_none());
    assert!(container.is_prepared());
    assert_eq!(container.preparation(), Preparation::Prepared);
    assert_eq!(container.entity().attempts, 1);
}

#[test]
fn failed_preparation_is_not_tried_again() {
    let mut container = EntityContainer::from_boxed_entity(Lamp::new("lamp", true));
    let failure = container.prepare_entity(&7);
    assert!(matches!(failure, Some(EngineError::ResourceMissing)));
    assert!(!container.is_prepared());
    assert_eq!(container.preparation(), Preparation::Failed);
    assert!(container.prepare_entity(&7).is_none());
    assert!(container.prepare_entity(&7).is_none());
    assert_eq!(container.entity().attempts, 1);
    assert!(!container.is_prepared());
}

#[test]
fn prepared_entity_is_not_asked_again() {
    let mut container = EntityContainer::from_boxed_entity(Lamp::new("lamp", false));
    assert!(container.prepare_entity(&7).is_none());
    assert!(container.prepare_entity(&7).is_none());
    assert_eq!(container.entity().attempts, 1);
    assert!(container.is_prepared());
}

#[test]
fn reset_lets_the_entity_be_asked_again() {
    let mut container = EntityContainer::from_boxed_entity(Lamp::new("lamp", true));
    assert!(container.prepare_entity(&7).is_some());
    container.reset_preparation();
    assert_eq!(container.preparation(), Preparation::Pending);
    container.entity_mut().fails = false;
    assert!(container.prepare_entity(&7).is_none());
    assert!(container.is_prepared());
    assert_eq!(container.entity().attempts, 2);
}

#[test]
fn record_preparation_notes_the_outcome() {
    let mut container = EntityContainer::from_boxed_entity(Lamp::new("lamp", false));
    assert!(container.record_preparation(Ok(())).is_none());
    assert!(container.is_prepared());
    let failure = container.record_preparation(Err(EngineError::NoMatch));
    assert!(matches!(failure, Some(EngineError::NoMatch)));
    assert_eq!(container.preparation(), Preparation::Failed);
    assert_eq!(container.entity().attempts, 0);
}

#[test]
fn and_move_entity_gives_the_entity_back() {
    let mut container = EntityContainer::from_boxed_entity(Lamp::new("lamp", false));
    let input = InputHandler::new();
    let _ = container.entity_mut().update(5, &input);
    let lamp = container.and_move_entity();
    assert_eq!(lamp.tag, "lamp");
    assert_eq!(lamp.updates, 1);
}

#[test]
fn one_shot_entity_declares_itself() {
    let entity: OneShotEntity<()> = OneShotEntity::new("probe");
    let configuration = entity.entity_configuration();
    assert_eq!(configuration.tag(), "probe");
    assert_eq!(configuration.update_frequency(), UpdateFrequency::Slow);
    assert!(!configuration.wants_render());
    assert!(!configuration.wants_input());
}

#[test]
fn one_shot_entity_takes_any_string() {
    let from_string: OneShotEntity<()> = OneShotEntity::new(String::from("a"));
    let with_tag: OneShotEntity<()> = OneShotEntity::with_tag(String::from("b"));
    assert_eq!(from_string.entity_configuration().tag(), "a");
    assert_eq!(with_tag.entity_configuration().tag(), "b");
}

#[test]
fn one_shot_entity_asks_for_its_own_removal() {
    let mut entity: OneShotEntity<()> = OneShotEntity::new("probe");
    let input = InputHandler::new();
    let actions = entity.update(16, &input);
    assert_eq!(actions.len(), 1);
    match &actions[0] {
        EntityAction::Remove(tags) => assert_eq!(tags, &vec!["probe".to_string()]),
    }
    assert_eq!(entity.entity_configuration().tag(), "probe");
}

#[test]
fn one_shot_entity_has_the_defaults_of_an_entity() {
    let mut entity: OneShotEntity<u8> = OneShotEntity::new("probe");
    let input = InputHandler::new();
    entity.on_second_update(1_000_000_000);
    entity.on_input(16, &input);
    assert!(entity.prepare_render(&3).is_ok());
    assert!(entity.model().is_none());
}

#[test]
fn engine_error_carries_outside_failures() {
    let surface = EngineError::SurfaceError(wgpu::SurfaceError::Lost);
    assert_eq!(format!("{:?}", surface), "SurfaceError(Lost)");
    let io = EngineError::IOError(std::io::Error::new(std::io::ErrorKind::NotFound, "gone"));
    assert!(format!("{:?}", io).starts_with("IOError("));
    let image = EngineError::ImageError(image::ImageError::IoError(std::io::Error::new(
        std::io::ErrorKind::Other,
        "bad",
    )));
    assert!(format!("{:?}", image).starts_with("ImageError("));
    assert_eq!(format!("{:?}", EngineError::NoAdapters), "NoAdapters");
    assert_eq!(format!("{:?}", EngineError::ResourceMissing), "ResourceMissing");
}

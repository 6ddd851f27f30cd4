use frame_engine::color::Color;
use frame_engine::dispatch::Pass;
use frame_engine::engine_error::EngineError;
use frame_engine::entity::{
    BoxedEntity, EntityAction, EntityConfiguration, TEntity, UpdateFrequency,
};
use frame_engine::one_shot_entity::OneShotEntity;
use frame_engine::sequence::reversed;
use frame_engine::entity_container::{EntityContainer, Preparation};
use frame_engine::input::{ElementState, InputHandler, KeyboardInput};
use frame_engine::light::{PointLightSlot, WAmbientLight, WPointLight};
use frame_engine::model::{Material, Mesh, Model};
use frame_engine::world::{EntityTagDuplicationBehaviour, Insertion, World, WorldError};
use std::cell::RefCell;
use std::rc::Rc;

type Journal = Rc<RefCell<Vec<String>>>;

/// Writes every call it gets into a journal.
struct Actor {
    tag: String,
    frequency: UpdateFrequency,
    render: bool,
    input: bool,
    journal: Journal,
    asks_to_remove: Vec<String>,
    fails_to_prepare: bool,
    model: Option<Model>,
}

impl Actor {
    fn new(tag: &str, frequency: UpdateFrequency, journal: &Journal) -> Self {
        Actor {
            tag: tag.to_string(),
            frequency,
            render: false,
            input: false,
            journal: journal.clone(),
            asks_to_remove: Vec::new(),
            fails_to_prepare: false,
            model: None,
        }
    }

    fn with_input(mut self) -> Self {
        self.input = true;
        self
    }

    fn drawn(mut self, model: Option<Model>) -> Self {
        self.render = true;
        self.model = model;
        self
    }

    fn failing(mut self) -> Self {
        self.fails_to_prepare = true;
        self
    }

    fn removing(mut self, tags: &[&str]) -> Self {
        self.asks_to_remove = tags.iter().map(|t| t.to_string()).collect();
        self
    }
}

impl TEntity for Actor {
    type Device = ();

    fn entity_configuration(&self) -> EntityConfiguration {
        EntityConfiguration::new(self.tag.clone(), self.frequency, self.render)
            .with_input(self.input)
    }

    fn update(&mut self, delta_time: u64, _input_handler: &InputHandler) -> Vec<EntityAction> {
        self.journal.borrow_mut().push(format!("update {} {}", self.tag, delta_time));
        if self.asks_to_remove.is_empty() {
            Vec::new()
        } else {
            vec![EntityAction::Remove(self.asks_to_remove.clone())]
        }
    }

    fn on_second_update(&mut self, delta_time: u64) {
        self.journal.borrow_mut().push(format!("second {} {}", self.tag, delta_time));
    }

    fn on_input(&mut self, delta_time: u64, input_handler: &InputHandler) {
        let held = input_handler.is_key_pressed(30);
        self.journal.borrow_mut().push(format!("input {} {} {}", self.tag, delta_time, held));
    }

    fn prepare_render(&mut self, _device: &()) -> Result<(), EngineError> {
        self.journal.borrow_mut().push(format!("prepare {}", self.tag));
        if self.fails_to_prepare {
            Err(EngineError::ResourceMissing)
        } else {
            Ok(())
        }
    }

    fn model(&self) -> Option<&Model> {
        self.model.as_ref()
    }
}

fn journal() -> Journal {
    Rc::new(RefCell::new(Vec::new()))
}

fn dark_slots() -> [PointLightSlot; 4] {
    [PointLightSlot::of(None); 4]
}

fn world(policy: EntityTagDuplicationBehaviour) -> World<Actor> {
    World::new(Color::black(), policy, WAmbientLight::dim_white(), dark_slots())
}

fn tags_of(world: &World<Actor>) -> Vec<String> {
    (0..world.len()).map(|i| world.container(i).entity_configuration().tag().to_string()).collect()
}

fn model_of(meshes: usize) -> Model {
    let meshes: Vec<Mesh> = (0..meshes)
        .map(|i| Mesh {
            vertex_buffer: 10 + i as u64,
            index_buffer: 20 + i as u64,
            num_elements: 3,
            material: 0,
        })
        .collect();
    Model::new(meshes, vec![Material { bind_group: 1 }]).unwrap()
}

#[test]
fn new_world_is_empty_and_keeps_its_scene() {
    let color = Color { r: 1, g: 2, b: 3, a: 4 };
    let ambient = WAmbientLight::from(((5, 6, 7), 8));
    let mut slots = dark_slots();
    slots[2] = PointLightSlot::of(Some(WPointLight::from(((1, 2, 3), (4, 5, 6), 7))));
    let world: World<Actor> =
        World::new(color, EntityTagDuplicationBehaviour::Reject, ambient, slots);
    assert_eq!(world.len(), 0);
    assert_eq!(world.clear_color(), color);
    assert_eq!(world.entity_tag_duplication_behaviour(), EntityTagDuplicationBehaviour::Reject);
    assert_eq!(world.ambient_light(), ambient);
    assert_eq!(world.point_lights().len(), 4);
    assert_eq!(world.point_light(2), slots[2]);
    assert!(world.point_light(2).enabled);
    assert!(!world.point_light(0).enabled);
}

#[test]
fn reject_keeps_one_of_two_equal_tags() {
    let log = journal();
    let mut world = world(EntityTagDuplicationBehaviour::Reject);
    let first = world.add_entity(Actor::new("X", UpdateFrequency::Slow, &log));
    let second = world.add_entity(Actor::new("X", UpdateFrequency::EveryCycle, &log));
    assert!(matches!(first, Ok(Insertion::Inserted)));
    match second {
        Err(WorldError::DuplicateTag(tag)) => assert_eq!(tag, "X"),
        other => panic!("expected a refusal, got {:?}", other),
    }
    assert_eq!(world.count_by_tag("X"), 1);
    assert_eq!(world.len(), 1);
    assert_eq!(
        world.container(0).entity_configuration().update_frequency(),
        UpdateFrequency::Slow
    );
}

#[test]
fn allow_keeps_both_of_two_equal_tags() {
    let log = journal();
    let mut world = world(EntityTagDuplicationBehaviour::Allow);
    let first = world.add_entity(Actor::new("X", UpdateFrequency::Slow, &log));
    let second = world.add_entity(Actor::new("X", UpdateFrequency::Slow, &log));
    assert!(matches!(first, Ok(Insertion::Inserted)));
    assert!(matches!(second, Ok(Insertion::Inserted)));
    assert_eq!(world.count_by_tag("X"), 2);
}

#[test]
fn warn_keeps_both_of_two_equal_tags_and_says_so() {
    let log = journal();
    let mut world = world(EntityTagDuplicationBehaviour::WarnOnDuplication);
    let first = world.add_entity(Actor::new("X", UpdateFrequency::Slow, &log));
    let second = world.add_entity(Actor::new("X", UpdateFrequency::Slow, &log));
    assert!(matches!(first, Ok(Insertion::Inserted)));
    assert!(matches!(second, Ok(Insertion::InsertedDuplicate)));
    assert_eq!(world.count_by_tag("X"), 2);
}

#[test]
fn reject_takes_different_tags() {
    let log = journal();
    let mut world = world(EntityTagDuplicationBehaviour::Reject);
    assert!(world.add_entity(Actor::new("X", UpdateFrequency::Slow, &log)).is_ok());
    assert!(world.add_entity(Actor::new("x", UpdateFrequency::Slow, &log)).is_ok());
    assert!(world.add_entity(Actor::new("X ", UpdateFrequency::Slow, &log)).is_ok());
    assert_eq!(world.len(), 3);
}

#[test]
fn add_container_follows_the_policy() {
    let log = journal();
    let mut world = world(EntityTagDuplicationBehaviour::Reject);
    let one = EntityContainer::from_boxed_entity(Actor::new("a", UpdateFrequency::Slow, &log));
    let two = EntityContainer::from_boxed_entity(Actor::new("a", UpdateFrequency::Slow, &log));
    assert!(matches!(world.add_container(one), Ok(Insertion::Inserted)));
    assert!(matches!(world.add_container(two), Err(WorldError::DuplicateTag(_))));
    assert_eq!(world.len(), 1);
}

#[test]
fn entities_keep_the_order_of_insertion() {
    let log = journal();
    let mut world = world(EntityTagDuplicationBehaviour::Allow);
    for tag in ["c", "a", "b", "a"] {
        let _ = world.add_entity(Actor::new(tag, UpdateFrequency::Slow, &log));
    }
    assert_eq!(tags_of(&world), vec!["c", "a", "b", "a"]);
}

#[test]
fn queries_by_tag() {
    let log = journal();
    let mut world = world(EntityTagDuplicationBehaviour::Allow);
    for tag in ["c", "a", "b", "a"] {
        let _ = world.add_entity(Actor::new(tag, UpdateFrequency::Slow, &log));
    }
    assert!(world.contains_tag("a"));
    assert!(world.contains_tag("c"));
    assert!(!world.contains_tag("d"));
    assert!(!world.contains_tag("A"));
    assert_eq!(world.count_by_tag("a"), 2);
    assert_eq!(world.count_by_tag("b"), 1);
    assert_eq!(world.count_by_tag("d"), 0);
    assert_eq!(world.find_by_tag("a"), Some(1));
    assert_eq!(world.find_by_tag("c"), Some(0));
    assert_eq!(world.find_by_tag("d"), None);
}

#[test]
fn remove_by_tags_takes_out_every_match_and_keeps_the_order() {
    let log = journal();
    let mut world = world(EntityTagDuplicationBehaviour::Allow);
    for tag in ["c", "a", "b", "a", "d"] {
        let _ = world.add_entity(Actor::new(tag, UpdateFrequency::Slow, &log));
    }
    let removed = world.remove_by_tags(&vec!["a".to_string(), "d".to_string(), "z".to_string()]);
    assert_eq!(removed, 3);
    assert_eq!(tags_of(&world), vec!["c", "b"]);
    assert!(!world.contains_tag("a"));
    assert!(!world.contains_tag("d"));
}

#[test]
fn remove_by_no_tags_removes_nothing() {
    let log = journal();
    let mut world = world(EntityTagDuplicationBehaviour::Allow);
    for tag in ["c", "a"] {
        let _ = world.add_entity(Actor::new(tag, UpdateFrequency::Slow, &log));
    }
    assert_eq!(world.remove_by_tags(&vec![]), 0);
    assert_eq!(tags_of(&world), vec!["c", "a"]);
}

#[test]
fn remove_from_an_empty_world() {
    let mut world = world(EntityTagDuplicationBehaviour::Allow);
    assert_eq!(world.remove_by_tags(&vec!["a".to_string()]), 0);
    assert_eq!(world.len(), 0);
}

#[test]
fn removal_keeps_the_scene() {
    let log = journal();
    let color = Color { r: 9, g: 8, b: 7, a: 6 };
    let mut world: World<Actor> = World::new(
        color,
        EntityTagDuplicationBehaviour::Reject,
        WAmbientLight::dim_white(),
        dark_slots(),
    );
    let _ = world.add_entity(Actor::new("a", UpdateFrequency::Slow, &log));
    let _ = world.remove_by_tags(&vec!["a".to_string()]);
    assert_eq!(world.clear_color(), color);
    assert_eq!(world.entity_tag_duplication_behaviour(), EntityTagDuplicationBehaviour::Reject);
    assert_eq!(world.ambient_light(), WAmbientLight::dim_white());
}

#[test]
fn collect_removals_gathers_every_named_tag() {
    let actions = vec![
        EntityAction::Remove(vec!["a".to_string(), "b".to_string()]),
        EntityAction::Remove(vec![]),
        EntityAction::Remove(vec!["c".to_string()]),
    ];
    let tags = World::<Actor>::collect_removals(&actions);
    assert_eq!(tags, vec!["a", "b", "c"]);
    assert!(World::<Actor>::collect_removals(&vec![]).is_empty());
}

#[test]
fn apply_actions_removes_what_they_name() {
    let log = journal();
    let mut world = world(EntityTagDuplicationBehaviour::Allow);
    for tag in ["a", "b", "c", "b"] {
        let _ = world.add_entity(Actor::new(tag, UpdateFrequency::Slow, &log));
    }
    let actions = vec![
        EntityAction::Remove(vec!["b".to_string()]),
        EntityAction::Remove(vec!["c".to_string(), "x".to_string()]),
    ];
    assert_eq!(world.apply_actions(&actions), 3);
    assert_eq!(tags_of(&world), vec!["a"]);
}

#[test]
fn update_pass_calls_every_cycle_entities_once_in_order() {
    let log = journal();
    let mut world = world(EntityTagDuplicationBehaviour::Allow);
    let _ = world.add_entity(Actor::new("a", UpdateFrequency::EveryCycle, &log));
    let _ = world.add_entity(Actor::new("b", UpdateFrequency::OnSecond, &log));
    let _ = world.add_entity(Actor::new("c", UpdateFrequency::Slow, &log).with_input());
    let _ = world.add_entity(Actor::new("d", UpdateFrequency::EveryCycle, &log));
    let input = InputHandler::new();
    let (actions, _) = world.dispatch(Pass::Update, 16, &input);
    assert!(actions.is_empty());
    assert_eq!(*log.borrow(), vec!["update a 16", "update d 16"]);
    assert_eq!(world.len(), 4);
}

#[test]
fn second_pass_calls_on_second_entities_only() {
    let log = journal();
    let mut world = world(EntityTagDuplicationBehaviour::Allow);
    let _ = world.add_entity(Actor::new("a", UpdateFrequency::EveryCycle, &log));
    let _ = world.add_entity(Actor::new("b", UpdateFrequency::OnSecond, &log));
    let _ = world.add_entity(Actor::new("c", UpdateFrequency::Slow, &log));
    let _ = world.add_entity(Actor::new("d", UpdateFrequency::OnSecond, &log));
    let input = InputHandler::new();
    let (actions, _) = world.dispatch(Pass::SecondUpdate, 1_000_000_123, &input);
    assert!(actions.is_empty());
    assert_eq!(*log.borrow(), vec!["second b 1000000123", "second d 1000000123"]);
}

#[test]
fn input_pass_calls_entities_that_want_input() {
    let log = journal();
    let mut world = world(EntityTagDuplicationBehaviour::Allow);
    let _ = world.add_entity(Actor::new("a", UpdateFrequency::EveryCycle, &log));
    let _ = world.add_entity(Actor::new("b", UpdateFrequency::Slow, &log).with_input());
    let _ = world.add_entity(Actor::new("c", UpdateFrequency::OnSecond, &log).with_input());
    let mut input = InputHandler::new();
    input.get_keyboard_input_handler().handle_keyboard_input(KeyboardInput {
        scancode: 0,
        state: ElementState::Pressed,
        virtual_keycode: Some(30),
    });
    let (actions, _) = world.dispatch(Pass::Input, 7, &input);
    assert!(actions.is_empty());
    assert_eq!(*log.borrow(), vec!["input b 7 true", "input c 7 true"]);
}

#[test]
fn update_pass_hands_back_what_was_asked_without_removing() {
    let log = journal();
    let mut world = world(EntityTagDuplicationBehaviour::Allow);
    let _ = world.add_entity(
        Actor::new("a", UpdateFrequency::EveryCycle, &log).removing(&["b", "a"]),
    );
    let _ = world.add_entity(Actor::new("b", UpdateFrequency::EveryCycle, &log).removing(&["c"]));
    let input = InputHandler::new();
    let (actions, _) = world.dispatch(Pass::Update, 1, &input);
    assert_eq!(actions.len(), 2);
    match (&actions[0], &actions[1]) {
        (EntityAction::Remove(first), EntityAction::Remove(second)) => {
            assert_eq!(first, &vec!["b".to_string(), "a".to_string()]);
            assert_eq!(second, &vec!["c".to_string()]);
        }
    }
    assert_eq!(*log.borrow(), vec!["update a 1", "update b 1"]);
    assert_eq!(tags_of(&world), vec!["a", "b"]);
}

#[test]
fn passes_over_an_empty_world_do_nothing() {
    let mut world = world(EntityTagDuplicationBehaviour::Allow);
    let input = InputHandler::new();
    assert!(world.dispatch(Pass::Update, 1, &input).0.is_empty());
    assert!(world.dispatch(Pass::SecondUpdate, 1, &input).0.is_empty());
    assert!(world.dispatch(Pass::Input, 1, &input).0.is_empty());
}

#[test]
fn prepare_entities_asks_drawn_entities_once() {
    let log = journal();
    let mut world = world(EntityTagDuplicationBehaviour::Allow);
    let _ = world.add_entity(Actor::new("a", UpdateFrequency::Slow, &log).drawn(None));
    let _ = world.add_entity(Actor::new("b", UpdateFrequency::Slow, &log));
    let _ = world.add_entity(Actor::new("c", UpdateFrequency::Slow, &log).drawn(None).failing());
    let _ = world.add_entity(Actor::new("d", UpdateFrequency::Slow, &log).drawn(None));
    let failures = world.prepare_entities(&());
    assert_eq!(failures.len(), 1);
    assert_eq!(failures[0].0, 2);
    assert!(matches!(failures[0].1, EngineError::ResourceMissing));
    assert_eq!(*log.borrow(), vec!["prepare a", "prepare c", "prepare d"]);
    assert_eq!(world.container(0).preparation(), Preparation::Prepared);
    assert_eq!(world.container(1).preparation(), Preparation::Pending);
    assert_eq!(world.container(2).preparation(), Preparation::Failed);
    assert_eq!(world.container(3).preparation(), Preparation::Prepared);
    let again = world.prepare_entities(&());
    assert!(again.is_empty());
    assert_eq!(log.borrow().len(), 3);
    assert_eq!(world.len(), 4);
}

#[test]
fn collect_models_takes_prepared_drawn_entities_with_a_model() {
    let log = journal();
    let mut world = world(EntityTagDuplicationBehaviour::Allow);
    let _ = world.add_entity(Actor::new("a", UpdateFrequency::Slow, &log).drawn(Some(model_of(1))));
    let _ = world.add_entity(Actor::new("b", UpdateFrequency::Slow, &log).drawn(None));
    let _ = world.add_entity(
        Actor::new("c", UpdateFrequency::Slow, &log).drawn(Some(model_of(2))).failing(),
    );
    let _ = world.add_entity(Actor::new("d", UpdateFrequency::Slow, &log).drawn(Some(model_of(3))));
    assert!(world.collect_models().is_empty());
    let _ = world.prepare_entities(&());
    let models = world.collect_models();
    let places: Vec<usize> = models.iter().map(|m| m.0).collect();
    assert_eq!(places, vec![0, 3]);
    assert_eq!(models[0].1.mesh_count(), 1);
    assert_eq!(models[1].1.mesh_count(), 3);
}

#[test]
fn entity_that_does_not_want_to_be_drawn_is_not_collected() {
    let log = journal();
    let mut world = world(EntityTagDuplicationBehaviour::Allow);
    let mut hidden = Actor::new("a", UpdateFrequency::Slow, &log);
    hidden.model = Some(model_of(1));
    let _ = world.add_entity(hidden);
    let _ = world.prepare_entities(&());
    assert!(log.borrow().is_empty());
    assert!(world.collect_models().is_empty());
}

#[test]
fn a_world_of_boxed_entities_holds_many_kinds() {
    let log = journal();
    let mut world: World<BoxedEntity<()>> = World::new(
        Color::black(),
        EntityTagDuplicationBehaviour::Reject,
        WAmbientLight::dim_white(),
        dark_slots(),
    );
    assert!(world
        .add_entity(Box::new(Actor::new("actor", UpdateFrequency::EveryCycle, &log)))
        .is_ok());
    assert!(world.add_entity(Box::new(OneShotEntity::<()>::new("once"))).is_ok());
    assert!(world.add_entity(Box::new(OneShotEntity::<()>::new("actor"))).is_err());
    assert_eq!(world.len(), 2);
    assert!(world.container(0).is_tag("actor"));
    assert!(world.container(1).is_tag("once"));
    assert_eq!(
        world.container(1).entity_configuration().update_frequency(),
        UpdateFrequency::Slow
    );
    let input = InputHandler::new();
    let (actions, _) = world.dispatch(Pass::Update, 9, &input);
    assert!(actions.is_empty());
    assert_eq!(*log.borrow(), vec!["update actor 9"]);
    assert!(world.prepare_entities(&()).is_empty());
    assert!(world.collect_models().is_empty());
}

#[test]
fn reversed_turns_a_list_end_for_end() {
    assert_eq!(reversed(vec![1, 2, 3]), vec![3, 2, 1]);
    assert_eq!(reversed(vec!["a".to_string()]), vec!["a".to_string()]);
    assert!(reversed(Vec::<u8>::new()).is_empty());
}

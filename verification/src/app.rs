//! The frame loop.
//!
//! The platform layer turns what the window system and the graphics device
//! say into plain events and hands them over one by one. For each event the
//! application says what is to be done; it keeps the time, the input, the
//! world and the window's configuration, and never touches the window or the
//! device itself.

use crate::app_config::AppConfig;
use crate::dispatch::{
    camera_calls, concerns, cycle_calls, entity_calls, joined, lemma_cycle_occurrences,
    lemma_occurrences_concat, lemma_pass_calls_each_once, lemma_scheduled_by_configuration,
    occurrences, pass_call, second_calls, Dispatch, Pass,
};
use crate::engine_error::EngineError;
use crate::entity::{requested_tags, tag_set, tag_views, EntityAction, TEntity};
use crate::entity_container::{EntityContainer, EntityContainerView};
use crate::input::{InputHandler, KeyboardInput, KEY_ESCAPE, KEY_F4, KEY_LEFT_ALT, merge_key_event};
use crate::model::Model;
use crate::render::{assemble_render_pass, models_of, render_pass_commands, RenderCommand};
use crate::tags::{
    count_tag, has_tag, lemma_count_tag_by_configuration, lemma_without_tags, without_tags,
};
use crate::timer::{Timer, TimerView};
use crate::world::{
    collected_from, dispatched_to, entity_added, prepared_from, Insertion, World, WorldError,
    WorldView,
};
use crate::world_builder::{built, WorldBuilder, WorldBuilderView};
use vstd::prelude::*;

verus! {

/// What the window system tells of a window.
#[derive(Clone, Copy, Debug)]
pub enum WindowEvent {
    /// The user asked to close the window.
    CloseRequested,
    /// The window has a new size, in physical pixels.
    Resized((u32, u32)),
    /// The scale factor changed, and with it the size, in physical pixels.
    ScaleFactorChanged((u32, u32)),
    /// A key went down or came up.
    KeyboardInput(KeyboardInput),
    /// Anything else.
    Other,
}

/// What the platform layer hands to the application.
#[derive(Clone, Copy, Debug)]
pub enum Event {
    /// Something happened to the window with the given identity.
    WindowEvent { window_id: u64, event: WindowEvent },
    /// The window with the given identity is to be drawn again.
    RedrawRequested(u64),
    /// All redraws of this round are done.
    RedrawEventsCleared,
    /// All other events of this round are done.
    MainEventsCleared,
    /// Anything else.
    Other,
}

/// What is to be done about an event.
#[derive(Clone, Copy, Debug)]
pub enum Route {
    /// Nothing.
    Ignore,
    /// Nothing, but for a warning: the event belongs to a window that is not
    /// the application's.
    ForeignWindow,
    /// Leave the loop with the given exit code.
    Exit(i32),
    /// The window has a new size: see [`App::handle_resize`].
    Resize((u32, u32)),
    /// A key event: see [`App::handle_keyboard_input`].
    Keyboard(KeyboardInput),
    /// Draw a frame: see [`App::handle_redraw`].
    Redraw(u64),
    /// Ask the window system for another redraw.
    RequestRedraw,
    /// Run the update phases: see [`App::handle_main_events_cleared`].
    Update,
}

/// What is to be done about an event, for an application whose window has
/// the given identity. Window events of another window are dropped. Once all
/// redraws of a round are done the next one is asked for, always.
pub open spec fn spec_route(window: Option<u64>, event: Event) -> Route {
    match event {
        Event::WindowEvent { window_id, event } => if window != Some(window_id) {
            Route::ForeignWindow
        } else {
            match event {
                WindowEvent::CloseRequested => Route::Exit(0),
                WindowEvent::Resized(size) => Route::Resize(size),
                WindowEvent::ScaleFactorChanged(size) => Route::Resize(size),
                WindowEvent::KeyboardInput(input) => Route::Keyboard(input),
                WindowEvent::Other => Route::Ignore,
            }
        },
        Event::RedrawRequested(window_id) => Route::Redraw(window_id),
        Event::RedrawEventsCleared => Route::RequestRedraw,
        Event::MainEventsCleared => Route::Update,
        Event::Other => Route::Ignore,
    }
}

/// How a resize ended.
#[derive(Clone, Copy, Debug, PartialEq, Eq, Structural)]
pub enum ResizeOutcome {
    /// The new size has no width or no height. Nothing was changed.
    InvalidSize,
    /// The graphics device did not come to rest. Nothing was changed.
    DeviceBusy,
    /// The new size is noted. The configuration is to be written back and the
    /// surface to be configured anew.
    Resized,
}

/// Whether a window can have the size: both width and height are positive.
pub open spec fn valid_size(size: (u32, u32)) -> bool {
    size.0 > 0 && size.1 > 0
}

/// How a resize to the given size ends, given whether the graphics device
/// came to rest.
pub open spec fn resize_outcome(size: (u32, u32), device_idle: bool) -> ResizeOutcome {
    if !valid_size(size) {
        ResizeOutcome::InvalidSize
    } else if !device_idle {
        ResizeOutcome::DeviceBusy
    } else {
        ResizeOutcome::Resized
    }
}

/// Whether the held keys ask to leave the loop: Escape, or left Alt together
/// with F4.
pub open spec fn exit_keys_held(pressed: Set<u32>) -> bool {
    (pressed.contains(KEY_LEFT_ALT) && pressed.contains(KEY_F4)) || pressed.contains(KEY_ESCAPE)
}

/// What the update phase of a poll cycle may change in a world before the
/// removals: nothing but the entities that are updated on every cycle or take
/// input.
pub open spec fn touched_by_cycle<E>(before: WorldView<E>, after: WorldView<E>) -> bool {
    &&& after.clear_color == before.clear_color
    &&& after.entity_tag_duplication_behaviour == before.entity_tag_duplication_behaviour
    &&& after.ambient_light == before.ambient_light
    &&& after.point_lights == before.point_lights
    &&& after.containers.len() == before.containers.len()
    &&& forall|i: int|
        0 <= i < before.containers.len() ==> {
            &&& (#[trigger] after.containers[i]).configuration == before.containers[i].configuration
            &&& after.containers[i].preparation == before.containers[i].preparation
            &&& (!concerns(Pass::Update, before.containers[i].configuration) && !concerns(
                Pass::Input,
                before.containers[i].configuration,
            )) ==> after.containers[i] == before.containers[i]
        }
}

/// The update phase of a poll cycle, from the world before it to the world
/// after it. All calls are made on the world as it was; only then every entity
/// with one of the removed tags is taken out.
pub open spec fn cycle_of<E>(
    before: WorldView<E>,
    after: WorldView<E>,
    removed: Set<Seq<char>>,
) -> bool {
    exists|called: WorldView<E>| #[trigger]
        touched_by_cycle(before, called) && after == (WorldView {
            containers: without_tags(called.containers, removed),
            ..called
        })
}

/// The steps of the update phase of a poll cycle, from world to world: the
/// updates lead from the world before to `updated`, the handing over of the
/// input from there to `called`, and the removals from there to the world
/// after. `returned` holds what the update of each place came back with,
/// nothing where there was none, and `camera_returned` what the camera's
/// update came back with; `camera_updated` is the camera after its update,
/// which it stays unless it is handed the input. The tags removed are those
/// that all these actions name, in the order of the asking.
pub open spec fn cycle_steps<E, C>(
    before: WorldView<E>,
    updated: WorldView<E>,
    called: WorldView<E>,
    after: WorldView<E>,
    returned: Seq<Seq<EntityAction>>,
    camera_before: EntityContainerView<C>,
    camera_updated: C,
    camera_after: EntityContainerView<C>,
    camera_returned: Seq<EntityAction>,
    removed: Seq<String>,
) -> bool {
    &&& camera_after.configuration == camera_before.configuration
    &&& camera_after.preparation == camera_before.preparation
    &&& !camera_before.configuration.wants_input ==> camera_after.entity == camera_updated
    &&& dispatched_to(before, updated, Pass::Update)
    &&& dispatched_to(updated, called, Pass::Input)
    &&& after == (WorldView {
        containers: without_tags(called.containers, tag_set(removed)),
        ..called
    })
    &&& returned.len() == before.containers.len()
    &&& forall|i: int|
        0 <= i < returned.len() && !concerns(Pass::Update, before.containers[i].configuration)
            ==> (#[trigger] returned[i]).len() == 0
    &&& tag_views(removed) == requested_tags(joined(returned) + camera_returned)
}

/// What the frame loop knows, as a value.
pub struct AppView<E> {
    pub app_config: AppConfig,
    /// The keys that are held.
    pub pressed: Set<u32>,
    /// The identity of the application's window, once it has one.
    pub window: Option<u64>,
    pub timer: TimerView,
    pub world: WorldView<E>,
    /// Every call made on an entity or on the camera so far, oldest first.
    pub dispatched: Seq<Dispatch>,
}

/// What the update phases of one poll cycle tell the platform layer.
pub struct FrameOutcome {
    /// On a second boundary: the time accumulated and the cycles counted.
    pub report: Option<(u64, u64)>,
    /// Whether the loop is to be left.
    pub exit: bool,
    /// The tags whose entities were asked to be removed, and were.
    pub removed: Vec<String>,
}

/// A frame to draw.
pub struct Redraw {
    /// The render pass, command by command.
    pub commands: Vec<RenderCommand>,
    /// The entities that could not be prepared for drawing just now, by
    /// place, each with its failure.
    pub failures: Vec<(usize, EngineError)>,
}

/// The update phases of one poll cycle, from the application before them
/// (its timer already advanced) to the application after them. The entities
/// and the camera are called as [`cycle_calls`] says, on the world as it was;
/// then the removals are carried out; then, if the timer reported a second
/// boundary, the entities that are updated once a second are, and the exit
/// keys are looked at.
pub open spec fn phases_of<E>(
    before: AppView<E>,
    after: AppView<E>,
    camera_wants_input: bool,
    report: Option<(u64, u64)>,
    exit: bool,
    removed: Set<Seq<char>>,
) -> bool {
    &&& after.app_config == before.app_config
    &&& after.pressed == before.pressed
    &&& after.window == before.window
    &&& after.timer == before.timer
    &&& exit == (report is Some && exit_keys_held(before.pressed))
    &&& exists|cycled: WorldView<E>| #[trigger]
        cycle_of(before.world, cycled, removed) && (if report is Some {
            dispatched_to(cycled, after.world, Pass::SecondUpdate)
        } else {
            after.world == cycled
        }) && after.dispatched == before.dispatched + frame_calls(
            before.world.containers,
            camera_wants_input,
            cycled.containers,
            report is Some,
        )
}

/// One poll cycle that took `elapsed` nanoseconds, from the application
/// before it to the application after it: the timer accounts for the cycle
/// and reports, and the update phases follow as [`phases_of`] says.
pub open spec fn frame_of<E>(
    before: AppView<E>,
    elapsed: u64,
    after: AppView<E>,
    camera_wants_input: bool,
    outcome: FrameOutcome,
) -> bool {
    &&& outcome.report == before.timer.report(elapsed as nat)
    &&& phases_of(
        AppView { timer: before.timer.advance(elapsed as nat), ..before },
        after,
        camera_wants_input,
        outcome.report,
        outcome.exit,
        tag_set(outcome.removed@),
    )
}

/// The calls of one poll cycle: those of the update phase and, on a second
/// boundary, those of the once-a-second update, made on the world that the
/// removals left.
pub open spec fn frame_calls<E>(
    containers: Seq<EntityContainerView<E>>,
    camera_wants_input: bool,
    left: Seq<EntityContainerView<E>>,
    second_boundary: bool,
) -> Seq<Dispatch> {
    if second_boundary {
        cycle_calls(containers, camera_wants_input) + second_calls(left)
    } else {
        cycle_calls(containers, camera_wants_input)
    }
}

/// Removal waits for the calls. After the update phase of a poll cycle no
/// entity is left under a tag that was asked to be removed; of every other
/// tag as many entities are left as there were; and no entity came in.
pub proof fn lemma_removed_after_cycle<E>(
    before: WorldView<E>,
    after: WorldView<E>,
    removed: Set<Seq<char>>,
)
    requires
        cycle_of(before, after, removed),
    ensures
        after.containers.len() <= before.containers.len(),
        forall|tag: Seq<char>|
            removed.contains(tag) ==> !has_tag(after.containers, tag) && count_tag(
                after.containers,
                tag,
            ) == 0,
        forall|tag: Seq<char>|
            !removed.contains(tag) ==> count_tag(after.containers, tag) == count_tag(
                before.containers,
                tag,
            ),
{
    let called = choose|called: WorldView<E>| #[trigger]
        touched_by_cycle(before, called) && after == (WorldView {
            containers: without_tags(called.containers, removed),
            ..called
        });
    lemma_without_tags(called.containers, removed);
    assert forall|tag: Seq<char>| !removed.contains(tag) implies count_tag(after.containers, tag)
        == count_tag(before.containers, tag) by {
        lemma_count_tag_by_configuration(before.containers, called.containers, tag);
    }
}

/// Every call of a poll cycle is made exactly when it is due. An entity is
/// updated once if its frequency is every cycle and never otherwise. It
/// gets its once-a-second update once if the cycle crossed a second boundary,
/// the removals left it in the world and its frequency is once a second, and
/// never otherwise: not on a cycle in between.
pub proof fn lemma_frame_calls_each_once<E>(
    containers: Seq<EntityContainerView<E>>,
    camera_wants_input: bool,
    left: Seq<EntityContainerView<E>>,
    second_boundary: bool,
    place: int,
)
    ensures
        occurrences(
            frame_calls(containers, camera_wants_input, left, second_boundary),
            Dispatch::Entity { pass: Pass::Update, place },
        ) == (if 0 <= place < containers.len() && concerns(
            Pass::Update,
            containers[place].configuration,
        ) {
            1nat
        } else {
            0nat
        }),
        occurrences(
            frame_calls(containers, camera_wants_input, left, second_boundary),
            Dispatch::Entity { pass: Pass::SecondUpdate, place },
        ) == (if second_boundary && 0 <= place < left.len() && concerns(
            Pass::SecondUpdate,
            left[place].configuration,
        ) {
            1nat
        } else {
            0nat
        }),
{
    let update = Dispatch::Entity { pass: Pass::Update, place };
    let second_update = Dispatch::Entity { pass: Pass::SecondUpdate, place };
    lemma_cycle_occurrences(containers, camera_wants_input, update);
    lemma_cycle_occurrences(containers, camera_wants_input, second_update);
    if second_boundary {
        let cycle = cycle_calls(containers, camera_wants_input);
        lemma_occurrences_concat(cycle, second_calls(left), update);
        lemma_occurrences_concat(cycle, second_calls(left), second_update);
        lemma_pass_calls_each_once(left, Pass::SecondUpdate, update);
        lemma_pass_calls_each_once(left, Pass::SecondUpdate, second_update);
    }
}

/// Owns the time, the input, the world and the window's configuration, and
/// says for every event of the platform layer what is to be done.
pub struct App<E: TEntity> {
    app_config: AppConfig,
    app_input_handler: InputHandler,
    app_window: Option<u64>,
    timer: Timer,
    world: World<E>,
    dispatched: Ghost<Seq<Dispatch>>,
}

impl<E: TEntity> View for App<E> {
    type V = AppView<E>;

    closed spec fn view(&self) -> AppView<E> {
        AppView {
            app_config: self.app_config,
            pressed: self.app_input_handler.pressed(),
            window: self.app_window,
            timer: self.timer@,
            world: self.world@,
            dispatched: self.dispatched@,
        }
    }
}

impl<E: TEntity> App<E> {
    /// An application with the given configuration: no window yet, no key
    /// held, a timer that starts measuring at a reading of the clock taken
    /// here, and the world that a builder makes when it is told nothing.
    pub fn from_app_config(app_config: AppConfig) -> (app: Self)
        ensures
            app@ == (AppView::<E> {
                app_config,
                pressed: Set::empty(),
                window: None,
                timer: TimerView { cycle_count: 0, cycle_delta: 0, accumulated: 0 },
                world: built(
                    WorldBuilderView::<E> {
                        clear_color: None,
                        entity_tag_duplication_behaviour: None,
                        containers: Seq::empty(),
                        ambient_light: None,
                        point_light: seq![None, None, None, None],
                    },
                ),
                dispatched: Seq::empty(),
            }),
            call_ensures(std::time::Instant::now, (), app.clock().cycle_start()),
    {
        let (world, _) = WorldBuilder::new().build();
        App {
            app_config,
            app_input_handler: InputHandler::new(),
            app_window: None,
            timer: Timer::new(),
            world,
            dispatched: Ghost(Seq::empty()),
        }
    }

    /// The same application with another world.
    pub fn with_world(self, world: World<E>) -> (app: Self)
        ensures
            app@ == (AppView { world: world@, ..self@ }),
    {
        let mut app = self;
        app.world = world;
        app
    }

    /// Notes the identity of the application's window.
    pub fn set_window(&mut self, window_id: u64)
        ensures
            final(self)@ == (AppView { window: Some(window_id), ..old(self)@ }),
    {
        self.app_window = Some(window_id);
    }

    /// The configuration.
    pub fn get_app_config(&self) -> (config: &AppConfig)
        ensures
            *config == self@.app_config,
    {
        &self.app_config
    }

    /// The world.
    pub fn world(&self) -> (world: &World<E>)
        ensures
            world@ == self@.world,
    {
        &self.world
    }

    /// The timer.
    pub closed spec fn clock(&self) -> Timer {
        self.timer
    }

    /// The input, as entities are handed it.
    pub closed spec fn input(&self) -> InputHandler {
        self.app_input_handler
    }

    /// The keys that the input holds are the keys of the view.
    pub proof fn lemma_input_pressed(&self)
        ensures
            self.input().pressed() == self@.pressed,
    {
    }

    /// The input.
    pub fn input_handler(&self) -> (input: &InputHandler)
        ensures
            *input == self.input(),
            input.pressed() == self@.pressed,
    {
        &self.app_input_handler
    }

    /// The timer.
    pub fn timer(&self) -> (timer: &Timer)
        ensures
            *timer == self.clock(),
            timer@ == self@.timer,
    {
        &self.timer
    }

    /// Puts an entity into the world, as [`World::add_entity`] does.
    pub fn spawn(&mut self, entity: E) -> (result: Result<Insertion, WorldError>)
        ensures
            final(self)@ == (AppView { world: final(self)@.world, ..old(self)@ }),
            entity_added(old(self)@.world, entity, final(self)@.world, result),
    {
        self.world.add_entity(entity)
    }

    /// Whether the window with the given identity is the application's.
    pub fn owns_window(&self, window_id: u64) -> (own: bool)
        ensures
            own == (self@.window == Some(window_id)),
    {
        match self.app_window {
            Some(id) => id == window_id,
            None => false,
        }
    }

    /// Says what is to be done about an event.
    pub fn route(&self, event: &Event) -> (route: Route)
        ensures
            route == spec_route(self@.window, *event),
    {
        match event {
            Event::WindowEvent { window_id, event } => {
                if !self.owns_window(*window_id) {
                    Route::ForeignWindow
                } else {
                    match event {
                        WindowEvent::CloseRequested => Route::Exit(0),
                        WindowEvent::Resized(size) => Route::Resize(*size),
                        WindowEvent::ScaleFactorChanged(size) => Route::Resize(*size),
                        WindowEvent::KeyboardInput(input) => Route::Keyboard(*input),
                        WindowEvent::Other => Route::Ignore,
                    }
                }
            },
            Event::RedrawRequested(window_id) => Route::Redraw(*window_id),
            Event::RedrawEventsCleared => Route::RequestRedraw,
            Event::MainEventsCleared => Route::Update,
            Event::Other => Route::Ignore,
        }
    }

    /// Merges a key event into the input. Merging the same event again
    /// changes nothing.
    pub fn handle_keyboard_input(&mut self, input: KeyboardInput)
        ensures
            final(self)@ == (AppView {
                pressed: merge_key_event(old(self)@.pressed, input),
                ..old(self)@
            }),
    {
        let keyboard = self.app_input_handler.get_keyboard_input_handler();
        keyboard.handle_keyboard_input(input);
    }

    /// Whether a window can have the size. Only then is the graphics device
    /// to be waited for.
    pub fn is_valid_size(new_size: (u32, u32)) -> (valid: bool)
        ensures
            valid == valid_size(new_size),
    {
        new_size.0 > 0 && new_size.1 > 0
    }

    /// Takes note of the window's new size. `device_idle` says whether the
    /// graphics device has come to rest. A size without width or height is
    /// ignored, and so is any size while the device is busy: the
    /// configuration stays as it is and the surface is not to be configured.
    /// Otherwise the size is noted for the window and for the monitor, if
    /// there is one.
    pub fn handle_resize(&mut self, new_size: (u32, u32), device_idle: bool) -> (outcome:
        ResizeOutcome)
        ensures
            outcome == resize_outcome(new_size, device_idle),
            outcome != ResizeOutcome::Resized ==> final(self)@ == old(self)@,
            outcome == ResizeOutcome::Resized ==> final(self)@ == (AppView {
                app_config: old(self)@.app_config.spec_resized(new_size),
                ..old(self)@
            }),
    {
        if !Self::is_valid_size(new_size) {
            return ResizeOutcome::InvalidSize;
        }
        if !device_idle {
            return ResizeOutcome::DeviceBusy;
        }
        self.app_config = self.app_config.resized(new_size);
        ResizeOutcome::Resized
    }

    /// Whether the held keys ask to leave the loop.
    pub fn exit_requested(&self) -> (exit: bool)
        ensures
            exit == exit_keys_held(self@.pressed),
    {
        (self.app_input_handler.is_key_pressed(KEY_LEFT_ALT)
            && self.app_input_handler.is_key_pressed(KEY_F4))
            || self.app_input_handler.is_key_pressed(KEY_ESCAPE)
    }

    /// The update phase of one poll cycle of `delta_time` nanoseconds. Every
    /// entity whose frequency is every cycle is updated, oldest first; then
    /// the camera is updated and, if it wants the input, handed it; then
    /// every entity that wants the input is handed it. Each of these calls is
    /// made once, on the world as it was when the phase began. Only then are
    /// the removals carried out that the updates asked for. Hands back the
    /// tags that were asked to be removed.
    pub fn call_on_dynamic_update<C: TEntity>(
        &mut self,
        delta_time: u64,
        camera: &mut EntityContainer<C>,
    ) -> (removed: Vec<String>)
        ensures
            final(self)@ == (AppView {
                world: final(self)@.world,
                dispatched: final(self)@.dispatched,
                ..old(self)@
            }),
            final(self).input() == old(self).input(),
            cycle_of(old(self)@.world, final(self)@.world, tag_set(removed@)),
            exists|
                updated: WorldView<E>,
                called: WorldView<E>,
                returned: Seq<Seq<EntityAction>>,
                camera_updated: C,
                camera_returned: Vec<EntityAction>,
            |
                {
                    &&& #[trigger] cycle_steps(
                        old(self)@.world,
                        updated,
                        called,
                        final(self)@.world,
                        returned,
                        old(camera)@,
                        camera_updated,
                        final(camera)@,
                        camera_returned@,
                        removed@,
                    )
                    &&& forall|i: int|
                        #![trigger old(self)@.world.containers[i]]
                        0 <= i < old(self)@.world.containers.len() && concerns(
                            Pass::Update,
                            old(self)@.world.containers[i].configuration,
                        ) ==> exists|entity: &mut E|
                            {
                                &&& *entity == old(self)@.world.containers[i].entity
                                &&& *final(entity) == updated.containers[i].entity
                                &&& #[trigger] pass_call(
                                    Pass::Update,
                                    entity,
                                    delta_time,
                                    &old(self).input(),
                                    returned[i],
                                )
                            }
                    &&& exists|entity: &mut C|
                        {
                            &&& *entity == old(camera)@.entity
                            &&& *final(entity) == camera_updated
                            &&& #[trigger] call_ensures(
                                C::update,
                                (entity, delta_time, &old(self).input()),
                                camera_returned,
                            )
                        }
                    &&& old(camera)@.configuration.wants_input ==> exists|entity: &mut C|
                        {
                            &&& *entity == camera_updated
                            &&& *final(entity) == final(camera)@.entity
                            &&& #[trigger] call_ensures(
                                C::on_input,
                                (entity, delta_time, &old(self).input()),
                                (),
                            )
                        }
                    &&& forall|i: int|
                        #![trigger updated.containers[i]]
                        0 <= i < updated.containers.len() && concerns(
                            Pass::Input,
                            updated.containers[i].configuration,
                        ) ==> exists|entity: &mut E|
                            {
                                &&& *entity == updated.containers[i].entity
                                &&& *final(entity) == called.containers[i].entity
                                &&& #[trigger] call_ensures(
                                    E::on_input,
                                    (entity, delta_time, &old(self).input()),
                                    (),
                                )
                            }
                },
            final(self)@.dispatched == old(self)@.dispatched + cycle_calls(
                old(self)@.world.containers,
                old(camera)@.configuration.wants_input,
            ),
            final(camera)@.configuration == old(camera)@.configuration,
            final(camera)@.preparation == old(camera)@.preparation,
    {
        let ghost before = self@.world;
        let ghost wants_input = camera@.configuration.wants_input;
        let (mut actions, updated) = self.world.dispatch(
            Pass::Update,
            delta_time,
            &self.app_input_handler,
        );
        let ghost after_updates = self.world@;
        let ghost asked_of_entities = actions@;
        let camera_entity = camera.entity_mut();
        let mut asked = camera_entity.update(delta_time, &self.app_input_handler);
        let ghost camera_asked = asked;
        let ghost camera_updated = camera@.entity;
        actions.append(&mut asked);
        if camera.entity_configuration().wants_input() {
            let camera_entity = camera.entity_mut();
            camera_entity.on_input(delta_time, &self.app_input_handler);
        }
        let (handed_back, handed) = self.world.dispatch(
            Pass::Input,
            delta_time,
            &self.app_input_handler,
        );
        let ghost called = self.world@;
        let removed = World::<E>::collect_removals(&actions);
        let _ = self.world.remove_by_tags(&removed);
        proof {
            assert forall|i: int| 0 <= i < before.containers.len() implies {
                &&& (#[trigger] called.containers[i]).configuration
                    == before.containers[i].configuration
                &&& called.containers[i].preparation == before.containers[i].preparation
                &&& (!concerns(Pass::Update, before.containers[i].configuration) && !concerns(
                    Pass::Input,
                    before.containers[i].configuration,
                )) ==> called.containers[i] == before.containers[i]
            } by {
                assert(after_updates.containers[i].configuration
                    == before.containers[i].configuration);
            }
            assert(touched_by_cycle(before, called));
            lemma_scheduled_by_configuration(
                before.containers,
                after_updates.containers,
                Pass::Input,
            );
            self.dispatched = Ghost(
                self.dispatched@ + entity_calls(Pass::Update, updated@) + camera_calls(wants_input)
                    + entity_calls(Pass::Input, handed@),
            );
            let input = old(self).input();
            let returned = choose|returned: Seq<Seq<EntityAction>>|
                {
                    &&& returned.len() == before.containers.len()
                    &&& asked_of_entities == #[trigger] joined(returned)
                    &&& forall|i: int|
                        #![trigger before.containers[i]]
                        0 <= i < returned.len() ==> if concerns(
                            Pass::Update,
                            before.containers[i].configuration,
                        ) {
                            exists|entity: &mut E|
                                {
                                    &&& *entity == before.containers[i].entity
                                    &&& *final(entity) == after_updates.containers[i].entity
                                    &&& #[trigger] pass_call(
                                        Pass::Update,
                                        entity,
                                        delta_time,
                                        &input,
                                        returned[i],
                                    )
                                }
                        } else {
                            returned[i].len() == 0
                        }
                };
            let handed_over = choose|handed_over: Seq<Seq<EntityAction>>|
                {
                    &&& handed_over.len() == after_updates.containers.len()
                    &&& handed_back@ == #[trigger] joined(handed_over)
                    &&& forall|i: int|
                        #![trigger after_updates.containers[i]]
                        0 <= i < handed_over.len() ==> if concerns(
                            Pass::Input,
                            after_updates.containers[i].configuration,
                        ) {
                            exists|entity: &mut E|
                                {
                                    &&& *entity == after_updates.containers[i].entity
                                    &&& *final(entity) == called.containers[i].entity
                                    &&& #[trigger] pass_call(
                                        Pass::Input,
                                        entity,
                                        delta_time,
                                        &input,
                                        handed_over[i],
                                    )
                                }
                        } else {
                            handed_over[i].len() == 0
                        }
                };
            assert forall|i: int|
                0 <= i < returned.len() && !concerns(
                    Pass::Update,
                    before.containers[i].configuration,
                ) implies (#[trigger] returned[i]).len() == 0 by {
                assert(before.containers[i] == before.containers[i]);
            }
            assert(cycle_steps(
                before,
                after_updates,
                called,
                self@.world,
                returned,
                old(camera)@,
                camera_updated,
                camera@,
                camera_asked@,
                removed@,
            ));
            assert forall|i: int|
                #![trigger before.containers[i]]
                0 <= i < before.containers.len() && concerns(
                    Pass::Update,
                    before.containers[i].configuration,
                ) implies exists|entity: &mut E|
                {
                    &&& *entity == before.containers[i].entity
                    &&& *final(entity) == after_updates.containers[i].entity
                    &&& #[trigger] pass_call(Pass::Update, entity, delta_time, &input, returned[i])
                } by {}
            assert forall|i: int|
                #![trigger after_updates.containers[i]]
                0 <= i < after_updates.containers.len() && concerns(
                    Pass::Input,
                    after_updates.containers[i].configuration,
                ) implies exists|entity: &mut E|
                {
                    &&& *entity == after_updates.containers[i].entity
                    &&& *final(entity) == called.containers[i].entity
                    &&& #[trigger] call_ensures(E::on_input, (entity, delta_time, &input), ())
                } by {
                let entity = choose|entity: &mut E|
                    {
                        &&& *entity == after_updates.containers[i].entity
                        &&& *final(entity) == called.containers[i].entity
                        &&& #[trigger] pass_call(
                            Pass::Input,
                            entity,
                            delta_time,
                            &input,
                            handed_over[i],
                        )
                    };
                assert(call_ensures(E::on_input, (entity, delta_time, &input), ()));
            }
        }
        removed
    }

    /// The once-a-second update. Every entity whose frequency is once a
    /// second is called, oldest first, each once, with the time accumulated
    /// over the second, in nanoseconds. No other entity is touched.
    pub fn call_on_second_update(&mut self, delta_time: u64)
        ensures
            final(self)@ == (AppView {
                world: final(self)@.world,
                dispatched: final(self)@.dispatched,
                ..old(self)@
            }),
            final(self).input() == old(self).input(),
            dispatched_to(old(self)@.world, final(self)@.world, Pass::SecondUpdate),
            forall|i: int|
                #![trigger old(self)@.world.containers[i]]
                0 <= i < old(self)@.world.containers.len() && concerns(
                    Pass::SecondUpdate,
                    old(self)@.world.containers[i].configuration,
                ) ==> exists|entity: &mut E|
                    {
                        &&& *entity == old(self)@.world.containers[i].entity
                        &&& *final(entity) == final(self)@.world.containers[i].entity
                        &&& #[trigger] call_ensures(
                            E::on_second_update,
                            (entity, delta_time),
                            (),
                        )
                    },
            final(self)@.dispatched == old(self)@.dispatched + second_calls(
                old(self)@.world.containers,
            ),
    {
        let (_, called) = self.world.dispatch(
            Pass::SecondUpdate,
            delta_time,
            &self.app_input_handler,
        );
        proof {
            self.dispatched = Ghost(self.dispatched@ + entity_calls(Pass::SecondUpdate, called@));
            let returned = choose|returned: Seq<Seq<EntityAction>>|
                {
                    &&& returned.len() == old(self)@.world.containers.len()
                    &&& forall|i: int|
                        #![trigger old(self)@.world.containers[i]]
                        0 <= i < returned.len() ==> if concerns(
                            Pass::SecondUpdate,
                            old(self)@.world.containers[i].configuration,
                        ) {
                            exists|entity: &mut E|
                                {
                                    &&& *entity == old(self)@.world.containers[i].entity
                                    &&& *final(entity) == self@.world.containers[i].entity
                                    &&& #[trigger] pass_call(
                                        Pass::SecondUpdate,
                                        entity,
                                        delta_time,
                                        &self.app_input_handler,
                                        returned[i],
                                    )
                                }
                        } else {
                            returned[i].len() == 0
                        }
                };
            assert forall|i: int|
                #![trigger old(self)@.world.containers[i]]
                0 <= i < old(self)@.world.containers.len() && concerns(
                    Pass::SecondUpdate,
                    old(self)@.world.containers[i].configuration,
                ) implies exists|entity: &mut E|
                {
                    &&& *entity == old(self)@.world.containers[i].entity
                    &&& *final(entity) == self@.world.containers[i].entity
                    &&& #[trigger] call_ensures(E::on_second_update, (entity, delta_time), ())
                } by {
                let entity = choose|entity: &mut E|
                    {
                        &&& *entity == old(self)@.world.containers[i].entity
                        &&& *final(entity) == self@.world.containers[i].entity
                        &&& #[trigger] pass_call(
                            Pass::SecondUpdate,
                            entity,
                            delta_time,
                            &self.app_input_handler,
                            returned[i],
                        )
                    };
                assert(call_ensures(E::on_second_update, (entity, delta_time), ()));
            }
        }
    }

    /// The update phases of a poll cycle that took `elapsed` nanoseconds. The
    /// timer accounts for the cycle as [`Timer::advance`] says. Then the
    /// update phase runs as [`App::call_on_dynamic_update`] does, with
    /// `elapsed` as the delta time; and then, if the timer reported a second
    /// boundary, the once-a-second update runs as
    /// [`App::call_on_second_update`] does, with the time accumulated, and the
    /// exit keys are looked at. See also [`phases_of`].
    pub fn advance_frame<C: TEntity>(
        &mut self,
        elapsed: u64,
        camera: &mut EntityContainer<C>,
    ) -> (outcome: FrameOutcome)
        ensures
            frame_of(
                old(self)@,
                elapsed,
                final(self)@,
                old(camera)@.configuration.wants_input,
                outcome,
            ),
            final(self).input() == old(self).input(),
            exists|cycle: &mut Self, cycle_camera: &mut EntityContainer<C>|
                {
                    &&& cycle@ == (AppView {
                        timer: old(self)@.timer.advance(elapsed as nat),
                        ..old(self)@
                    })
                    &&& cycle.input() == old(self).input()
                    &&& *cycle_camera == *old(camera)
                    &&& *final(cycle_camera) == *final(camera)
                    &&& #[trigger] call_ensures(
                        Self::call_on_dynamic_update::<C>,
                        (cycle, elapsed, cycle_camera),
                        outcome.removed,
                    )
                    &&& outcome.report is None ==> final(cycle)@ == final(self)@
                    &&& outcome.report matches Some(reported) ==> exists|second: &mut Self|
                        {
                            &&& second@ == final(cycle)@
                            &&& second.input() == old(self).input()
                            &&& final(second)@ == final(self)@
                            &&& #[trigger] call_ensures(
                                Self::call_on_second_update,
                                (second, reported.0),
                                (),
                            )
                        }
                },
            final(camera)@.configuration == old(camera)@.configuration,
            final(camera)@.preparation == old(camera)@.preparation,
    {
        let ghost wants_input = camera@.configuration.wants_input;
        let report = self.timer.advance(elapsed);
        let delta_time: u64 = self.timer.cycle_delta_time();
        let ghost ticked = self@;
        let removed = self.call_on_dynamic_update(delta_time, camera);
        let ghost cycled = self@.world;
        let ghost after_cycle = self@;
        assert(delta_time == elapsed);
        assert(exists|cycle: &mut Self, cycle_camera: &mut EntityContainer<C>|
            {
                &&& cycle@ == ticked
                &&& cycle.input() == old(self).input()
                &&& *cycle_camera == *old(camera)
                &&& *final(cycle_camera) == *camera
                &&& final(cycle)@ == after_cycle
                &&& #[trigger] call_ensures(
                    Self::call_on_dynamic_update::<C>,
                    (cycle, elapsed, cycle_camera),
                    removed,
                )
            });
        let mut exit: bool = false;
        match report {
            Some((accumulated, _)) => {
                self.call_on_second_update(accumulated);
                assert(exists|second: &mut Self|
                    {
                        &&& second@ == after_cycle
                        &&& second.input() == old(self).input()
                        &&& final(second)@ == self@
                        &&& #[trigger] call_ensures(
                            Self::call_on_second_update,
                            (second, accumulated),
                            (),
                        )
                    });
                exit = self.exit_requested();
            },
            None => {},
        }
        proof {
            assert(cycle_of(ticked.world, cycled, tag_set(removed@)));
            let calls = frame_calls(
                ticked.world.containers,
                wants_input,
                cycled.containers,
                report is Some,
            );
            assert(self@.dispatched =~= ticked.dispatched + calls);
        }
        FrameOutcome { report, exit, removed }
    }

    /// The update phases of the poll cycle that ends now. Reads the clock
    /// and goes on as [`App::advance_frame`] does with what the clock says.
    pub fn handle_main_events_cleared<C: TEntity>(
        &mut self,
        camera: &mut EntityContainer<C>,
    ) -> (outcome: FrameOutcome)
        ensures
            exists|elapsed: u64| #[trigger]
                frame_of(
                    old(self)@,
                    elapsed,
                    final(self)@,
                    old(camera)@.configuration.wants_input,
                    outcome,
                ),
            final(self).input() == old(self).input(),
            exists|elapsed: u64, frame: &mut Self, frame_camera: &mut EntityContainer<C>|
                {
                    &&& exists|clock: &mut Timer|
                        {
                            &&& *clock == old(self).clock()
                            &&& *final(clock) == frame.clock()
                            &&& #[trigger] call_ensures(Timer::measure, (clock,), elapsed)
                        }
                    &&& frame@ == old(self)@
                    &&& frame.input() == old(self).input()
                    &&& final(frame)@ == final(self)@
                    &&& *frame_camera == *old(camera)
                    &&& *final(frame_camera) == *final(camera)
                    &&& #[trigger] call_ensures(
                        Self::advance_frame::<C>,
                        (frame, elapsed, frame_camera),
                        outcome,
                    )
                },
            final(camera)@.configuration == old(camera)@.configuration,
            final(camera)@.preparation == old(camera)@.preparation,
    {
        let elapsed: u64 = self.timer.measure();
        let ghost measured = self.timer;
        assert(exists|clock: &mut Timer|
            {
                &&& *clock == old(self).clock()
                &&& *final(clock) == measured
                &&& #[trigger] call_ensures(Timer::measure, (clock,), elapsed)
            });
        let outcome = self.advance_frame(elapsed, camera);
        proof {
            assert(frame_of(
                old(self)@,
                elapsed,
                self@,
                old(camera)@.configuration.wants_input,
                outcome,
            ));
        }
        outcome
    }

    /// Lays out a frame for the window with the given identity. A redraw for
    /// another window is dropped: nothing changes and no frame comes back.
    /// Otherwise every entity that is drawn and has not been asked before is
    /// asked to create its resources on the graphics device, once, as
    /// [`World::prepare_entities`] does; then the models that the drawable
    /// entities show are gathered, oldest first, and the frame's one render
    /// pass is laid out for exactly these, cleared to the world's colour.
    pub fn handle_redraw(
        &mut self,
        window_id: u64,
        logical_device: &E::Device,
        instance_count: u32,
    ) -> (redraw: Option<Redraw>)
        ensures
            old(self)@.window != Some(window_id) ==> redraw is None && final(self)@ == old(self)@,
            old(self)@.window == Some(window_id) ==> (redraw matches Some(frame) && {
                &&& final(self)@ == (AppView { world: final(self)@.world, ..old(self)@ })
                &&& final(self).input() == old(self).input()
                &&& prepared_from(old(self)@.world, final(self)@.world, frame.failures@)
                &&& exists|world: &mut World<E>|
                    {
                        &&& world@ == old(self)@.world
                        &&& final(world)@ == final(self)@.world
                        &&& #[trigger] call_ensures(
                            World::<E>::prepare_entities,
                            (world, logical_device),
                            frame.failures,
                        )
                    }
                &&& exists|placed: Seq<(usize, &Model)>| #[trigger]
                    collected_from(final(self)@.world.containers, placed) && frame.commands@
                        == render_pass_commands(
                        final(self)@.world.clear_color,
                        models_of(placed),
                        instance_count,
                    )
            }),
    {
        if !self.owns_window(window_id) {
            return None;
        }
        let failures = self.world.prepare_entities(logical_device);
        let ghost prepared = self@.world;
        assert(exists|world: &mut World<E>|
            {
                &&& world@ == old(self)@.world
                &&& final(world)@ == prepared
                &&& #[trigger] call_ensures(
                    World::<E>::prepare_entities,
                    (world, logical_device),
                    failures,
                )
            });
        let models = self.world.collect_models();
        let commands = assemble_render_pass(self.world.clear_color(), &models, instance_count);
        let frame = Redraw { commands, failures };
        proof {
            assert(prepared == self@.world);
            assert(frame.failures == failures);
            assert(collected_from(self@.world.containers, models@) && frame.commands@
                == render_pass_commands(
                self@.world.clear_color,
                models_of(models@),
                instance_count,
            ));
        }
        Some(frame)
    }
}

} // verus!

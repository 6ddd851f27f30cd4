//! The keys that are held down right now.
//!
//! The platform layer feeds key events in; entities and the frame loop only
//! read. A key is named by the code the platform layer gives it.

use std::collections::HashSet;
use vstd::prelude::*;
use vstd::std_specs::hash::*;

verus! {

broadcast use group_hash_axioms;

/// Code of the Escape key.
pub const KEY_ESCAPE: u32 = 36;

/// Code of the F4 key.
pub const KEY_F4: u32 = 40;

/// Code of the left Alt key.
pub const KEY_LEFT_ALT: u32 = 115;

/// Whether a key went down or came up.
#[derive(Clone, Copy, Debug, PartialEq, Eq, Structural)]
pub enum ElementState {
    Pressed,
    Released,
}

/// One keyboard event as the platform layer delivers it.
#[derive(Clone, Copy, Debug)]
pub struct KeyboardInput {
    /// The physical key.
    pub scancode: u32,
    /// Whether the key went down or came up.
    pub state: ElementState,
    /// The key's meaning, where the platform knows one.
    pub virtual_keycode: Option<u32>,
}

/// The set of held keys once one event is merged into it. An event without a
/// key code changes nothing.
pub open spec fn merge_key_event(pressed: Set<u32>, input: KeyboardInput) -> Set<u32> {
    match input.virtual_keycode {
        None => pressed,
        Some(key) => match input.state {
            ElementState::Pressed => pressed.insert(key),
            ElementState::Released => pressed.remove(key),
        },
    }
}

/// Tracks which keys are held.
pub struct KeyboardInputHandler {
    pressed: HashSet<u32>,
}

impl KeyboardInputHandler {
    /// The keys that are held.
    pub closed spec fn pressed(&self) -> Set<u32> {
        self.pressed@
    }

    /// A handler with no key held.
    pub fn new() -> (handler: Self)
        ensures
            handler.pressed() == Set::<u32>::empty(),
    {
        KeyboardInputHandler { pressed: HashSet::new() }
    }

    /// Merges one keyboard event into the set of held keys.
    pub fn handle_keyboard_input(&mut self, input: KeyboardInput)
        ensures
            final(self).pressed() == merge_key_event(old(self).pressed(), input),
    {
        match input.virtual_keycode {
            None => {},
            Some(key) => match input.state {
                ElementState::Pressed => {
                    self.pressed.insert(key);
                },
                ElementState::Released => {
                    self.pressed.remove(&key);
                },
            },
        }
    }

    /// Whether the key is held.
    pub fn is_key_pressed(&self, key: u32) -> (held: bool)
        ensures
            held == self.pressed().contains(key),
    {
        self.pressed.contains(&key)
    }

    /// Whether every one of the keys is held. True of no keys.
    pub fn are_all_keys_pressed(&self, keys: &Vec<u32>) -> (held: bool)
        ensures
            held == (forall|i: int|
                0 <= i < keys@.len() ==> self.pressed().contains(#[trigger] keys@[i])),
    {
        let mut i: usize = 0;
        while i < keys.len()
            invariant
                i <= keys@.len(),
                forall|j: int| 0 <= j < i ==> self.pressed().contains(#[trigger] keys@[j]),
            decreases keys@.len() - i,
        {
            if !self.pressed.contains(&keys[i]) {
                return false;
            }
            i += 1;
        }
        true
    }
}

/// Everything the frame loop knows of the user's input during one frame.
pub struct InputHandler {
    keyboard_input_handler: KeyboardInputHandler,
}

impl InputHandler {
    /// The keys that are held.
    pub closed spec fn pressed(&self) -> Set<u32> {
        self.keyboard_input_handler.pressed()
    }

    /// Input with no key held.
    pub fn new() -> (handler: Self)
        ensures
            handler.pressed() == Set::<u32>::empty(),
    {
        InputHandler { keyboard_input_handler: KeyboardInputHandler::new() }
    }

    /// The keyboard part, to feed events into.
    pub fn get_keyboard_input_handler(&mut self) -> (keyboard: &mut KeyboardInputHandler)
        ensures
            keyboard.pressed() == old(self).pressed(),
            final(self).pressed() == final(keyboard).pressed(),
    {
        &mut self.keyboard_input_handler
    }

    /// Whether the key is held.
    pub fn is_key_pressed(&self, key: u32) -> (held: bool)
        ensures
            held == self.pressed().contains(key),
    {
        self.keyboard_input_handler.is_key_pressed(key)
    }

    /// Whether every one of the keys is held. True of no keys.
    pub fn are_all_keys_pressed(&self, keys: &Vec<u32>) -> (held: bool)
        ensures
            held == (forall|i: int|
                0 <= i < keys@.len() ==> self.pressed().contains(#[trigger] keys@[i])),
    {
        self.keyboard_input_handler.are_all_keys_pressed(keys)
    }
}

/// Merging the same event a second time changes nothing.
pub proof fn lemma_merge_key_event_idempotent(pressed: Set<u32>, input: KeyboardInput)
    ensures
        merge_key_event(merge_key_event(pressed, input), input) == merge_key_event(pressed, input),
{
    let once = merge_key_event(pressed, input);
    assert(merge_key_event(once, input) =~= once);
}

} // verus!

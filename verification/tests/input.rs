use frame_engine::input::{
    ElementState, InputHandler, KeyboardInput, KeyboardInputHandler, KEY_ESCAPE, KEY_F4,
    KEY_LEFT_ALT,
};

fn key(code: u32, state: ElementState) -> KeyboardInput {
    KeyboardInput { scancode: 0, state, virtual_keycode: Some(code) }
}

#[test]
fn no_key_is_held_at_first() {
    let handler = KeyboardInputHandler::new();
    assert!(!handler.is_key_pressed(KEY_ESCAPE));
    assert!(!handler.is_key_pressed(0));
}

#[test]
fn press_and_release() {
    let mut handler = KeyboardInputHandler::new();
    handler.handle_keyboard_input(key(17, ElementState::Pressed));
    assert!(handler.is_key_pressed(17));
    assert!(!handler.is_key_pressed(18));
    handler.handle_keyboard_input(key(17, ElementState::Released));
    assert!(!handler.is_key_pressed(17));
}

#[test]
fn repeated_press_is_harmless() {
    let mut handler = KeyboardInputHandler::new();
    handler.handle_keyboard_input(key(17, ElementState::Pressed));
    handler.handle_keyboard_input(key(17, ElementState::Pressed));
    assert!(handler.is_key_pressed(17));
    handler.handle_keyboard_input(key(17, ElementState::Released));
    assert!(!handler.is_key_pressed(17));
}

#[test]
fn release_of_a_key_that_is_not_held_is_harmless() {
    let mut handler = KeyboardInputHandler::new();
    handler.handle_keyboard_input(key(5, ElementState::Pressed));
    handler.handle_keyboard_input(key(6, ElementState::Released));
    assert!(handler.is_key_pressed(5));
    assert!(!handler.is_key_pressed(6));
}

#[test]
fn event_without_key_code_changes_nothing() {
    let mut handler = KeyboardInputHandler::new();
    handler.handle_keyboard_input(key(5, ElementState::Pressed));
    handler.handle_keyboard_input(KeyboardInput {
        scancode: 99,
        state: ElementState::Released,
        virtual_keycode: None,
    });
    assert!(handler.is_key_pressed(5));
}

#[test]
fn all_keys_pressed() {
    let mut handler = KeyboardInputHandler::new();
    handler.handle_keyboard_input(key(KEY_LEFT_ALT, ElementState::Pressed));
    assert!(!handler.are_all_keys_pressed(&vec![KEY_LEFT_ALT, KEY_F4]));
    handler.handle_keyboard_input(key(KEY_F4, ElementState::Pressed));
    assert!(handler.are_all_keys_pressed(&vec![KEY_LEFT_ALT, KEY_F4]));
    assert!(handler.are_all_keys_pressed(&vec![KEY_F4]));
    assert!(!handler.are_all_keys_pressed(&vec![KEY_F4, KEY_ESCAPE]));
}

#[test]
fn all_of_no_keys_are_pressed() {
    let handler = KeyboardInputHandler::new();
    assert!(handler.are_all_keys_pressed(&vec![]));
}

#[test]
fn input_handler_reads_what_its_keyboard_was_fed() {
    let mut input = InputHandler::new();
    assert!(!input.is_key_pressed(KEY_ESCAPE));
    input.get_keyboard_input_handler().handle_keyboard_input(key(KEY_ESCAPE, ElementState::Pressed));
    assert!(input.is_key_pressed(KEY_ESCAPE));
    assert!(input.are_all_keys_pressed(&vec![KEY_ESCAPE]));
    assert!(!input.are_all_keys_pressed(&vec![KEY_ESCAPE, KEY_F4]));
}

#[test]
fn key_codes_of_the_exit_keys() {
    assert_eq!(KEY_ESCAPE, winit::event::VirtualKeyCode::Escape as u32);
    assert_eq!(KEY_F4, winit::event::VirtualKeyCode::F4 as u32);
    assert_eq!(KEY_LEFT_ALT, winit::event::VirtualKeyCode::LAlt as u32);
}

//! Which keys and mouse buttons are down, and which went down or up since
//! the last frame. Keys are named by integer codes; positions and deltas of
//! the mouse are bit patterns of doubles, the wheel's of a single.

use std::collections::HashMap;
use vstd::prelude::*;

verus! {

/// A button of the mouse.
#[derive(Clone, Copy, Debug, PartialEq, Eq, Structural)]
pub enum MouseButton {
    Left,
    Right,
    Middle,
    Back,
    Forward,
    Other(u16),
}

impl MouseButton {
    /// The code under which the button is kept: the five named buttons come
    /// first, the others after them by their number.
    pub open spec fn spec_code(self) -> u32 {
        match self {
            MouseButton::Left => 0,
            MouseButton::Right => 1,
            MouseButton::Middle => 2,
            MouseButton::Back => 3,
            MouseButton::Forward => 4,
            MouseButton::Other(n) => (5 + n) as u32,
        }
    }

    /// The code under which the button is kept.
    pub fn code(&self) -> (code: u32)
        ensures
            code == self.spec_code(),
    {
        match self {
            MouseButton::Left => 0,
            MouseButton::Right => 1,
            MouseButton::Middle => 2,
            MouseButton::Back => 3,
            MouseButton::Forward => 4,
            MouseButton::Other(n) => 5 + *n as u32,
        }
    }
}

/// Two buttons have one code only where they are one button.
pub proof fn lemma_button_codes_differ(a: MouseButton, b: MouseButton)
    ensures
        a.spec_code() == b.spec_code() <==> a == b,
{
}

/// A key going down or up. The key is `None` where the platform could not
/// tell which it was.
#[derive(Clone, Copy, Debug, PartialEq, Eq)]
pub struct KeyEvent {
    pub key: Option<u32>,
    pub pressed: bool,
    pub repeat: bool,
}

/// Whether a map of flags holds `true` for a code.
pub open spec fn is_set(flags: Map<u32, bool>, code: u32) -> bool {
    flags.contains_key(code) && flags[code]
}

/// The state of keyboard and mouse.
pub struct InputManager {
    keys: HashMap<u32, bool>,
    just_pressed: HashMap<u32, bool>,
    just_released: HashMap<u32, bool>,
    mouse_position: (u64, u64),
    mouse_delta: (u64, u64),
    mouse_wheel_delta: u32,
    mouse_buttons: HashMap<u32, bool>,
    just_pressed_mouse_buttons: HashMap<u32, bool>,
    just_released_mouse_buttons: HashMap<u32, bool>,
}

/// The state of keyboard and mouse as plain values.
pub struct InputState {
    /// For each key seen so far, whether it is down.
    pub keys: Map<u32, bool>,
    /// The keys that went down since the last frame.
    pub just_pressed: Map<u32, bool>,
    /// The keys that went up since the last frame.
    pub just_released: Map<u32, bool>,
    /// Where the pointer is.
    pub mouse_position: (u64, u64),
    /// How far the mouse moved since the last frame.
    pub mouse_delta: (u64, u64),
    /// How far the wheel turned since the last frame.
    pub mouse_wheel_delta: u32,
    /// For each button seen so far, whether it is down.
    pub mouse_buttons: Map<u32, bool>,
    /// The buttons that went down since the last frame.
    pub just_pressed_mouse_buttons: Map<u32, bool>,
    /// The buttons that went up since the last frame.
    pub just_released_mouse_buttons: Map<u32, bool>,
}

impl InputState {
    /// The state in which nothing has happened yet.
    pub open spec fn initial() -> InputState {
        InputState {
            keys: Map::empty(),
            just_pressed: Map::empty(),
            just_released: Map::empty(),
            mouse_position: (0, 0),
            mouse_delta: (0, 0),
            mouse_wheel_delta: 0,
            mouse_buttons: Map::empty(),
            just_pressed_mouse_buttons: Map::empty(),
            just_released_mouse_buttons: Map::empty(),
        }
    }

    /// The state at the start of the next frame: what is down stays down,
    /// what happened since the last frame is forgotten.
    pub open spec fn next_frame(self) -> InputState {
        InputState {
            just_pressed: Map::empty(),
            just_released: Map::empty(),
            mouse_delta: (0, 0),
            mouse_wheel_delta: 0,
            just_pressed_mouse_buttons: Map::empty(),
            just_released_mouse_buttons: Map::empty(),
            ..self
        }
    }

    /// The state after a key event. A repeated key and a key that could
    /// not be told change nothing.
    pub open spec fn with_key_event(self, event: KeyEvent) -> InputState {
        match event.key {
            Some(key) if !event.repeat => if event.pressed {
                InputState {
                    keys: self.keys.insert(key, true),
                    just_pressed: self.just_pressed.insert(key, true),
                    ..self
                }
            } else {
                InputState {
                    keys: self.keys.insert(key, false),
                    just_released: self.just_released.insert(key, true),
                    ..self
                }
            },
            _ => self,
        }
    }

    /// The state after a button went down or up.
    pub open spec fn with_mouse_button(self, button: MouseButton, pressed: bool) -> InputState {
        if pressed {
            InputState {
                mouse_buttons: self.mouse_buttons.insert(button.spec_code(), true),
                just_pressed_mouse_buttons: self.just_pressed_mouse_buttons.insert(
                    button.spec_code(),
                    true,
                ),
                ..self
            }
        } else {
            InputState {
                mouse_buttons: self.mouse_buttons.insert(button.spec_code(), false),
                just_released_mouse_buttons: self.just_released_mouse_buttons.insert(
                    button.spec_code(),
                    true,
                ),
                ..self
            }
        }
    }
}

impl View for InputManager {
    type V = InputState;

    closed spec fn view(&self) -> InputState {
        InputState {
            keys: self.keys@,
            just_pressed: self.just_pressed@,
            just_released: self.just_released@,
            mouse_position: self.mouse_position,
            mouse_delta: self.mouse_delta,
            mouse_wheel_delta: self.mouse_wheel_delta,
            mouse_buttons: self.mouse_buttons@,
            just_pressed_mouse_buttons: self.just_pressed_mouse_buttons@,
            just_released_mouse_buttons: self.just_released_mouse_buttons@,
        }
    }
}

fn flag(flags: &HashMap<u32, bool>, code: u32) -> (set: bool)
    ensures
        set == is_set(flags@, code),
{
    broadcast use vstd::std_specs::hash::group_hash_axioms;

    match flags.get(&code) {
        Some(set) => *set,
        None => false,
    }
}

impl InputManager {
    pub fn new() -> (input: InputManager)
        ensures
            input@ == InputState::initial(),
    {
        InputManager {
            keys: HashMap::new(),
            just_pressed: HashMap::new(),
            just_released: HashMap::new(),
            mouse_position: (0, 0),
            mouse_delta: (0, 0),
            mouse_wheel_delta: 0,
            mouse_buttons: HashMap::new(),
            just_pressed_mouse_buttons: HashMap::new(),
            just_released_mouse_buttons: HashMap::new(),
        }
    }

    /// Starts the next frame.
    pub fn update(&mut self)
        ensures
            final(self)@ == old(self)@.next_frame(),
    {
        self.just_pressed.clear();
        self.just_released.clear();
        self.mouse_delta = (0, 0);
        self.mouse_wheel_delta = 0;
        self.just_pressed_mouse_buttons.clear();
        self.just_released_mouse_buttons.clear();
    }

    pub fn process_key_event(&mut self, event: &KeyEvent)
        ensures
            final(self)@ == old(self)@.with_key_event(*event),
    {
        broadcast use vstd::std_specs::hash::group_hash_axioms;

        if event.repeat {
            return ;
        }
        let key = match event.key {
            Some(key) => key,
            None => {
                return ;
            },
        };
        if event.pressed {
            self.keys.insert(key, true);
            self.just_pressed.insert(key, true);
        } else {
            self.keys.insert(key, false);
            self.just_released.insert(key, true);
        }
    }

    pub fn process_mouse_position(&mut self, x: u64, y: u64)
        ensures
            final(self)@ == (InputState { mouse_position: (x, y), ..old(self)@ }),
    {
        self.mouse_position = (x, y);
    }

    pub fn process_mouse_delta(&mut self, dx: u64, dy: u64)
        ensures
            final(self)@ == (InputState { mouse_delta: (dx, dy), ..old(self)@ }),
    {
        self.mouse_delta = (dx, dy);
    }

    /// Notes how far the wheel has turned since the last frame, all
    /// scrolling of the frame taken together.
    pub fn process_mouse_wheel_scroll(&mut self, total: u32)
        ensures
            final(self)@ == (InputState { mouse_wheel_delta: total, ..old(self)@ }),
    {
        self.mouse_wheel_delta = total;
    }

    pub fn process_mouse_button(&mut self, button: MouseButton, pressed: bool)
        ensures
            final(self)@ == old(self)@.with_mouse_button(button, pressed),
    {
        broadcast use vstd::std_specs::hash::group_hash_axioms;

        let code = button.code();
        if pressed {
            self.mouse_buttons.insert(code, true);
            self.just_pressed_mouse_buttons.insert(code, true);
        } else {
            self.mouse_buttons.insert(code, false);
            self.just_released_mouse_buttons.insert(code, true);
        }
    }

    pub fn is_key_pressed(&self, key: u32) -> (pressed: bool)
        ensures
            pressed == is_set(self@.keys, key),
    {
        flag(&self.keys, key)
    }

    pub fn is_key_just_pressed(&self, key: u32) -> (pressed: bool)
        ensures
            pressed == is_set(self@.just_pressed, key),
    {
        flag(&self.just_pressed, key)
    }

    pub fn is_key_just_released(&self, key: u32) -> (released: bool)
        ensures
            released == is_set(self@.just_released, key),
    {
        flag(&self.just_released, key)
    }

    pub fn is_mouse_button_pressed(&self, button: MouseButton) -> (pressed: bool)
        ensures
            pressed == is_set(self@.mouse_buttons, button.spec_code()),
    {
        flag(&self.mouse_buttons, button.code())
    }

    pub fn is_mouse_button_just_pressed(&self, button: MouseButton) -> (pressed: bool)
        ensures
            pressed == is_set(self@.just_pressed_mouse_buttons, button.spec_code()),
    {
        flag(&self.just_pressed_mouse_buttons, button.code())
    }

    pub fn is_mouse_button_just_released(&self, button: MouseButton) -> (released: bool)
        ensures
            released == is_set(self@.just_released_mouse_buttons, button.spec_code()),
    {
        flag(&self.just_released_mouse_buttons, button.code())
    }

    pub fn mouse_position(&self) -> (position: (u64, u64))
        ensures
            position == self@.mouse_position,
    {
        self.mouse_position
    }

    pub fn mouse_delta(&self) -> (delta: (u64, u64))
        ensures
            delta == self@.mouse_delta,
    {
        self.mouse_delta
    }

    pub fn mouse_wheel_delta(&self) -> (delta: u32)
        ensures
            delta == self@.mouse_wheel_delta,
    {
        self.mouse_wheel_delta
    }
}

impl Default for InputManager {
    fn default() -> (input: InputManager)
        ensures
            input@ == InputState::initial(),
    {
        InputManager::new()
    }
}

} // verus!

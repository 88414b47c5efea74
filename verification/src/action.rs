//! What a terminal event asks the application to do.

use vstd::prelude::*;

verus! {

/// A key of the keyboard, as far as the application tells keys apart.
#[derive(Debug, Clone, Copy, PartialEq, Eq, Structural)]
pub enum Key {
    Char(char),
    Up,
    Down,
    Left,
    Right,
    Backspace,
    Enter,
    Esc,
    Other,
}

/// An event of the terminal, as far as the application tells events apart.
#[derive(Debug, Clone, Copy, PartialEq, Eq, Structural)]
pub enum Event {
    Quit,
    Tick,
    Render,
    Key(Key),
    Other,
}

/// What the application does next.
#[derive(Debug, Clone, Copy, PartialEq, Eq, Hash, Structural)]
pub enum Action {
    NavigateUp,
    NavigateDown,
    NavigateIn,
    NavigateOut,
    ExtractToggle,
    RecursiveModeToggle,
    Tick,
    Render,
    Quit,
    /// Nothing is asked for.
    Idle,
}

/// The action that a key asks for.
pub open spec fn action_of_key(key: Key) -> Action {
    match key {
        Key::Down => Action::NavigateDown,
        Key::Up => Action::NavigateUp,
        Key::Left | Key::Backspace => Action::NavigateOut,
        Key::Right | Key::Enter => Action::NavigateIn,
        Key::Esc => Action::Quit,
        Key::Char(c) => if c == 'j' {
            Action::NavigateDown
        } else if c == 'k' {
            Action::NavigateUp
        } else if c == 'h' {
            Action::NavigateOut
        } else if c == 'l' {
            Action::NavigateIn
        } else if c == ' ' {
            Action::ExtractToggle
        } else if c == 'r' || c == 'R' {
            Action::RecursiveModeToggle
        } else if c == 'q' || c == 'Q' {
            Action::Quit
        } else {
            Action::Idle
        },
        Key::Other => Action::Idle,
    }
}

/// The action that an event asks for.
pub open spec fn action_of(event: Event) -> Action {
    match event {
        Event::Quit => Action::Quit,
        Event::Tick => Action::Tick,
        Event::Render => Action::Render,
        Event::Key(key) => action_of_key(key),
        Event::Other => Action::Idle,
    }
}

impl Action {
    /// The action that `event` asks for.
    pub fn from_event(event: &Event) -> (action: Action)
        ensures
            action == action_of(*event),
    {
        match event {
            Event::Quit => Action::Quit,
            Event::Tick => Action::Tick,
            Event::Render => Action::Render,
            Event::Key(key) => match key {
                Key::Down => Action::NavigateDown,
                Key::Up => Action::NavigateUp,
                Key::Left | Key::Backspace => Action::NavigateOut,
                Key::Right | Key::Enter => Action::NavigateIn,
                Key::Esc => Action::Quit,
                Key::Char(c) => {
                    let c = *c;
                    if c == 'j' {
                        Action::NavigateDown
                    } else if c == 'k' {
                        Action::NavigateUp
                    } else if c == 'h' {
                        Action::NavigateOut
                    } else if c == 'l' {
                        Action::NavigateIn
                    } else if c == ' ' {
                        Action::ExtractToggle
                    } else if c == 'r' || c == 'R' {
                        Action::RecursiveModeToggle
                    } else if c == 'q' || c == 'Q' {
                        Action::Quit
                    } else {
                        Action::Idle
                    }
                },
                Key::Other => Action::Idle,
            },
            Event::Other => Action::Idle,
        }
    }
}

impl From<&Event> for Action {
    fn from(event: &Event) -> (action: Action) {
        Action::from_event(event)
    }
}

impl vstd::std_specs::convert::FromSpecImpl<&Event> for Action {
    open spec fn obeys_from_spec() -> bool {
        true
    }

    open spec fn from_spec(event: &Event) -> Action {
        action_of(*event)
    }
}

/// What a key means to the explorer and to the extract button.
#[derive(Debug, Clone, Copy, PartialEq, Eq, Hash, Structural)]
pub enum KeyInput {
    Up,
    Down,
    Left,
    Right,
    Space,
    Quit,
    /// Nothing is asked for.
    Idle,
}

/// The input that an event stands for. Only keys stand for one.
pub open spec fn key_input_of(event: Event) -> KeyInput {
    match action_of(event) {
        Action::NavigateDown => KeyInput::Down,
        Action::NavigateUp => KeyInput::Up,
        Action::NavigateOut => KeyInput::Left,
        Action::NavigateIn => KeyInput::Right,
        Action::ExtractToggle => KeyInput::Space,
        Action::Quit => if event is Key {
            KeyInput::Quit
        } else {
            KeyInput::Idle
        },
        _ => KeyInput::Idle,
    }
}

impl KeyInput {
    /// The input that `event` stands for.
    pub fn from_event(event: &Event) -> (input: KeyInput)
        ensures
            input == key_input_of(*event),
    {
        match event {
            Event::Key(_) => match Action::from_event(event) {
                Action::NavigateDown => KeyInput::Down,
                Action::NavigateUp => KeyInput::Up,
                Action::NavigateOut => KeyInput::Left,
                Action::NavigateIn => KeyInput::Right,
                Action::ExtractToggle => KeyInput::Space,
                Action::Quit => KeyInput::Quit,
                _ => KeyInput::Idle,
            },
            _ => KeyInput::Idle,
        }
    }
}

impl From<&Event> for KeyInput {
    fn from(event: &Event) -> (input: KeyInput) {
        KeyInput::from_event(event)
    }
}

impl vstd::std_specs::convert::FromSpecImpl<&Event> for KeyInput {
    open spec fn obeys_from_spec() -> bool {
        true
    }

    open spec fn from_spec(event: &Event) -> KeyInput {
        key_input_of(*event)
    }
}

} // verus!

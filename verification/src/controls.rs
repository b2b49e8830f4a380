//! The keyboard: Space starts the game and throws, Z walks right, A walks left.
use vstd::prelude::*;
use crate::game::{Game, GameView, spec_throw, HOME, PLAY, RIGHT, LEFT, STILL};

verus! {

/// The keys the game reacts to.
#[derive(Clone, Copy, Debug, PartialEq, Eq)]
pub enum Key {
    Space,
    Z,
    A,
    /// Any other key.
    Other,
}

/// A button that was pressed or released.
#[derive(Clone, Copy, Debug, PartialEq, Eq)]
pub enum Button {
    Keyboard(Key),
    /// A mouse button, a controller button or a hat switch.
    Other,
}

/// The state after a button is pressed (`pressed`) or released, and whether a
/// taco was thrown.
pub open spec fn spec_input(g: GameView, button: Button, pressed: bool) -> (GameView, bool) {
    if g.screen == HOME {
        if pressed && button == Button::Keyboard(Key::Space) {
            (GameView { screen: PLAY, ..g }, false)
        } else {
            (g, false)
        }
    } else if g.screen == PLAY {
        if pressed {
            match button {
                Button::Keyboard(Key::Z) => (GameView { player_dir: RIGHT, ..g }, false),
                Button::Keyboard(Key::A) => (GameView { player_dir: LEFT, ..g }, false),
                Button::Keyboard(Key::Space) => spec_throw(g),
                _ => (g, false),
            }
        } else {
            match button {
                Button::Keyboard(Key::Z) => (GameView { player_dir: STILL, ..g }, false),
                Button::Keyboard(Key::A) => (GameView { player_dir: STILL, ..g }, false),
                _ => (g, false),
            }
        }
    } else {
        (g, false)
    }
}

impl Game {
    /// Reacts to a button pressed (`pressed`) or released. Returns whether a
    /// taco was thrown, for the drawing code to launch it.
    pub fn input(&mut self, button: &Button, pressed: bool) -> (thrown: bool)
        requires
            old(self)@.wf(),
        ensures
            (final(self)@, thrown) == spec_input(old(self)@, *button, pressed),
            final(self)@.wf(),
    {
        if self.screen == HOME {
            if pressed {
                if let Button::Keyboard(Key::Space) = *button {
                    self.screen = PLAY;
                }
            }
            false
        } else if self.screen == PLAY {
            let mut thrown = false;
            if pressed {
                if let Button::Keyboard(key) = *button {
                    match key {
                        Key::Z => self.player_dir = RIGHT,
                        Key::A => self.player_dir = LEFT,
                        Key::Space => thrown = self.throw(),
                        Key::Other => {},
                    }
                }
            }
            if !pressed {
                if let Button::Keyboard(key) = *button {
                    match key {
                        Key::Z => self.player_dir = STILL,
                        Key::A => self.player_dir = STILL,
                        _ => {},
                    }
                }
            }
            thrown
        } else {
            false
        }
    }
}

} // verus!

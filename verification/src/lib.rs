//! The rules of a small game: the player walks along the top of the screen
//! and throws tacos to the sad passers-by below; each taco that reaches one
//! makes that passer-by happy and scores a point.
pub mod counting;
pub mod game;
pub mod controls;
pub mod happiness;
pub mod laws;
pub mod chance;

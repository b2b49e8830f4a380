# tacos

The rules of "Tacos Powaaa !", a small piston game: the player walks along the
top of the window and throws tacos at the sad passers-by below.

- `src/` is the verified library (Verus): the screens, the tacos in hand and in
  the air, the passers-by, the score, the keyboard, and the random draws
  (through `rand`). Every public function has a contract, and `src/laws.rs`
  proves what holds of the game as a whole.
- `app/main.rs` is the window: drawing, and the motion of everything on screen,
  which is real-number arithmetic. It asks the library what the rules say.
- `tests/` runs the library on concrete games.

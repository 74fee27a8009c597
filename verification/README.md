# shooter_game

The rules of a small arcade game, verified with Verus: an enemy falls from the
top of the field, the player slides along the ground steered by a joystick on a
serial line, and fires bullets upwards; each blast takes a hit point, a
destroyed enemy scores ten points, and an enemy that reaches the player ends
the game.

Lengths are integers in thousandths of a screen unit; time is in milliseconds
of game time, supplied by the caller.

- `src/entities.rs` – bullets, enemies, the leading enemy; random spawn column.
- `src/command.rs` – splitting and reading the joystick line.
- `src/rules.rs` – the frame stated over plain values (`step`) and the state invariant.
- `src/game.rs` – `GameState`, whose `advance`/`update` implement `step` and report how
  the frame ends (`Play`, `Caught` when an enemy reached the player, `Halt` on a
  malformed joystick line).
- `src/scene.rs` – what a frame draws and plays, and the counter captions.
- `src/proofs.rs`, `src/laws.rs` – supporting lemmas and the game's laws.
- `app/main.rs` – the window, the serial port, sound, and the clock.

# trawnik

The rules of a small top-down game: walk over a campus lawn and trample every
patch of fresh grass while jaguars roam, collect coins to get past the bouncer
of club D17, and win the quiz battle against the dean inside.

- `src/` is the verified library (Verus): movement and sprite-sheet animation,
  the wallet and the bouncer, collisions with coins, collectables and jaguars,
  the map layout and its ring of buildings, the boss quiz battle, the game's
  state flow and the game-over screen. Random draws come from `rand` through
  the trusted items in `src/rng.rs`.
- `app/` is the Bevy program around it: windowing, rendering, input, audio,
  timers, and the geometry on `f32` positions.
- `tests/` exercises the library on concrete values.

# tetris

A terminal falling-block game whose rules are a Verus-verified library.

- `src/tetro.rs`: pieces, their moves and quarter turns, and laws about
  turning and moving.
- `src/board.rs`: the playing field as a grid of cells; placement checks,
  locking pieces, finding and clearing full lines.
- `src/game.rs`: the game state (bag of pieces, falling and held piece,
  score, experience, level) and its invariant, kept by every operation.
- `src/controls.rs`: the key map.
- `src/shuffle.rs`: the one call into `rand`, which orders a fresh bag.
- `app/main.rs`: the terminal front end (termion), the clock and drawing.

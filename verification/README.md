# insiculous_snake

The rules of Insiculous Snake as a Verus-verified library: grid Snake on a
26x16 board, chaos modes, a two-player versus mode, and achievements.

- `src/grid.rs`: cells, headings, playfield geometry in pixels, the wall frame.
- `src/rules.rs`: turn buffering, one-snake steps, versus resolution and
  results, spawn layout, food placement.
- `src/chaos.rs`: chaos modes and their pace, pellet count and wrapping walls.
- `src/achievements.rs`: the achievement catalog, the achievements page
  layout, and the unlock rules.
- `src/game.rs`: the match model (`Board`, `Snake`), its invariant, and the
  single-player and versus ticks.
- `app/`: the engine front end (sprites, input, particles, drawing, web entry);
  it drives `Board` and mirrors each `TickReport` onto the entities.

Times are kept in whole milliseconds and positions in whole pixels, so the
library holds no floating point; the front end converts.

# food_pyramid

The rules of The Food Pyramid, a breakout game on Tong's kitchen counter, as a Verus
library: the discrete decisions of a match — the tongs' jaw control, the clips a tong
moves between, the poses its frames draw, brick hits, the balls in flight, chomps,
score, lives and serves, the brick names and tags a level is read from, the candies'
effects, the menus' rows and the HUD's words — with contracts and the laws that hold
across them, proved.

- `src/` — the verified library.
- `tests/` — executable tests of the library.
- `app/` — the engine glue on insiculous_2d: entities, physics, input, drawing, and the
  floating-point geometry of the court, calling the library for the decisions it holds.
  The level rosters and scene loading, the chaos-mode colour themes and the achievement
  registry are not part of this crate.

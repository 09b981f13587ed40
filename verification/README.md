# wheely_fast

The game logic of a small arcade racer: a car dodges barriers on a three-lane
road that scrolls ever faster.

- `src/` is the verified library: the lanes and the random choice of the next
  barrier's lane (`lanes`), the car and its movement (`car`), the game state
  with its per-frame and per-key rules and their laws (`game`), the
  scrolling-road demonstration (`scroll`), and the trusted boundaries to the
  `rand` generator (`rng`) and the `queues` FIFO queue (`lane_queue`).
- `app/` opens the window with `ggez`, reads the clocks and the keyboard,
  computes the floating-point acceleration of the scroll, and draws.
- `tests/` runs the library on concrete games.

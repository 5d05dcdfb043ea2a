# late_ssh — the Dark Room door, verified

A terminal take on the minimalist incremental *A Dark Room*, played over SSH,
with the rules of the game written as a Verus library and proved against
their contracts.

## Layout

- `src/` — the verified library.
  - `collections` — maps and sets over the game's closed enums, with a view
    as a `Map`/`Set`.
  - `data`, `world_data` — the balance tables, prose and constants, each
    table entry stated as a spec function.
  - `model` — the persistent `Game` and the rules acting on it: the fire,
    the builder, building, crafting, trading, workers, traps.
  - `pace` — credit accrual, the daily cap, the daily floor and the slowdown,
    with the laws of the allowance as proof functions.
  - `sim` — the settle-forward village clock: each credited second is a
    step of a spec state machine; income, thieves, arrivals, the trap haul.
  - `world` — map generation, walking, supplies, roads, going home or not.
  - `event` — conditions, costs, weapons and every effect a scene can
    have, and the clock between event rolls. The story scenes of the
    village events and the setpieces (their buttons, branches and story
    loot) are not here, so those are not run.
  - `encounter` — the wandering fights of the wasteland, by distance and
    terrain, and the draw that picks one.
  - `fight` — the fight: the enemy's swing and its tricks, statuses,
    cooldowns and bleeds on a clock in hundredths of a second, the fight
    panel's rows, a dying automaton's blast, and the spoils: the loot roll
    and taking a row or everything that fits.
  - `state`, `screen`, `ui` — the panels' rows and costs, the keyboard
    rules, and the layout arithmetic (scrolling, word wrap).
  - `dcss`, `door`, `space` — the crawl door's input filter and launcher,
    the hub's door ids, the ascent's names.
  - `chance` — the one random source: a seeded generator read a 64-bit word
    at a time, every probability compared in whole numbers.
- `tests/` — scenarios on concrete values.
- `app/` — plumbing around the library: the save format, the ascent's
  floating-point flight, the crawl door's key derivation, the dopewars
  pseudo-terminal bridge, and a session that carries key presses out.

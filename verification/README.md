# bigbox

The rules of a box-shooter with loot, as a Verus library, and the programs around it.

Every item of the library in `src/` is verified: what a function returns or changes is stated
in its contract, and what holds of the library as a whole stands in proof functions whose
names begin with `law_`.

- `rng`: seeded random numbers. Each draw is named after the generator's seed and the draws
  before it, so that the contracts of everything random are exact.
- `scalar`, `center`: single-precision numbers as bit patterns: comparing them, and the
  middles of tiles.
- `text`: decimals, columns and lists.
- `procgen`: dungeon maps, flow fields and spawn points.
- `rules`: stats, affixes, items, rolls, upgrades, progression and combat.
- `game`: the state of a running game, and every step of a tick.
- `sim`: rolling many drops and tabulating them.
- `ui`: input, heads-up display, inventory, debug overlay, and what the scene looks like.

Arithmetic on floating-point numbers is not verified. Where a rule needs it, the caller works
the numbers out and the library decides with them. That arithmetic is in `app/`, together
with windows, files and gamepads: `bigbox sim` prints drops as rows or tables, `bigbox viz`
prints maps, and `bigbox game` is the game.

The library trusts a handful of declarations about the `rand` crate, all of them in `rng`,
and one about `String::push`, in `text`.

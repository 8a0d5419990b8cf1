# imperium

A hex battle in a window: two armies of 1512 units each, a river with fords, a central
objective, and a map drawn in relief.

- `src/` is the layout library, verified with Verus: where tiles, river, objective and
  units lie, what colour they have, what the keys order, and what the status line says.
  Coordinates are exact numbers `a + b√3`, colours exact ten-thousandths.
- `app/` is the Bevy program round it. It runs the battle simulation of the `sim_core`
  crate, turns exact numbers into floating point, and draws. `bevy_remote` is named
  beside `bevy`, whose feature of that name would also turn on serialisation throughout
  the engine.
- `tests/` runs the library on concrete battlefields.

# scalar

The logic of a small factory-building game, verified with Verus.

- `src/` is the library: inventories (`inventory`), buildings and their
  production steps (`buildings`), research upgrades (`unlocks`), menu
  decisions and purchases (`menus`), key bindings (`controls`), mining and
  building placement (`player`), the tile map (`map`), resource nodes
  (`world`), terrain seeds and indexing (`worldgen`) and the chunk index
  (`chunks`).
- `tests/` runs the library on concrete values.
- `app/` is the Bevy game around the library: rendering, physics, input,
  user interface, and the floating-point parts (noise, energy, progress).

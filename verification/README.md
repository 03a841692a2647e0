# voxel_quest

A deterministic voxel world for a Bevy game, with its integer core verified by
Verus.

## Layout

- `src/` — the verified library:
  - `blocks` — block kinds and their wire ids;
  - `geometry`, `chunk_id` — integer vectors, chunk ids, chunk blocks, and the
    split of world positions into chunk and local block;
  - `chunk` — chunk storage, texture bytes, level-of-detail hints;
  - `mesh` — the baked slab meshes chunks are drawn with;
  - `biomes` — ranking of biomes and the filling of terrain columns;
  - `queue` — the chunk generation queue (an `indexmap::IndexSet`);
  - `lookup` — which entity stands for each chunk and chunk block (in bevy's
    `HashMap`);
  - `world` — the map's extent, level of detail by distance, generator steps;
  - `player` — world shifting, ground contact, render distance;
  - `raycast` — the integer side of a voxel ray walk;
  - `menu` — menu ids and escape navigation.
- `tests/` — tests of the library.
- `app/` — the Bevy game around it: rendering, input, noise sampling, UI.

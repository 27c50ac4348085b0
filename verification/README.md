# Stargazers

A space-exploration simulation: planets that generate and combine resources,
explorers that travel between them, and an orchestrator that runs the galaxy
and feeds a viewer. The decisions are a Verus library whose functions carry
their contracts and are proved against them.

## Layout

- `src/` — the verified library:
  - `galaxy`, `route`: the galaxy graph (a ring with seeded shortcuts) and
    breadth-first routing over it;
  - `resources`, `bag`, `explorer`: resource kinds, an explorer's bag, and an
    explorer's reaction to the orchestrator's messages;
  - `eleanor`, `amon`, `behaviour`: the explorers' strategies;
  - `planet_ai`: the Stargazers planet's answers;
  - `orchestrator`, `idmap`, `visualizer`, `command`, `report`: the
    orchestrator's bookkeeping, the effects it asks for, and what it shows;
  - `planet`, `layout`, `sync`, `viewer`, `hud`: the viewer's data, scene,
    controls and text.
- `app/` — the program around it: threads, channels, the planets of the
  `common_game` crate, and a headless viewer that logs what a window would show.
- `tests/` — tests of the library.

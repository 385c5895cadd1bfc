# achi

A rules engine for Achi, the three-in-a-row game on a nine-position grid
where each player owns four tokens, written in Verus with its behaviour
stated as contracts and proved.

Layout:

- `src/board.rs`: sides, phases, validated positions, tokens, the eight
  victory alignments and the adjacency they induce.
- `src/player.rs`: players, the identity source that gives each defined
  player a fresh identity, and the `definePlayer` behaviour with label
  validation.
- `src/grid.rs`: the grid aggregate and the `startGame`, `placeToken`,
  `moveToken`, `victoryAchieved` and `changeGridPhase` behaviours, each
  specified over an abstract model of the grid (`GridModel`). Every grid is
  `shaped` (a type invariant: the nine positions, the eight alignments, the
  adjacency they induce, four tokens per player, distinct players); a game
  begun by newly defined players stays `well_formed` (turns alternate with
  the history, no two tokens share a position, the history explains the
  board).
- `src/error.rs`: the rule failures and their stable string codes.
- `src/laws.rs`: properties that span operations (preservation of
  well-formedness, turn alternation, the history explaining the board,
  fresh identities, phase order, adjacency, victory coherence).
- `app/`: the WebAssembly bindings (`wasm-bindgen`), and the process-wide
  identity source behind a lock.
- `tests/`: scenarios of the behaviours and checks of the laws on concrete
  games.

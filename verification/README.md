# lumina

Core logic of the Lumina game engine and its editor, written in Verus.
Functions under `src/` carry contracts that Verus proves, except a few
trusted wrappers marked `#[verifier::external_body]` whose contracts are
believed: the calls into `uuid`, `serde_json`, `smallvec`, `str::trim`,
`str::to_lowercase` and the standard hasher, each with a doc comment that
says what it claims.

## Layout

- `src/utils.rs`: identifiers, string hashing, power-of-two and alignment
  arithmetic, the growable bit set.
- `src/memory.rs`, `src/text.rs`: allocation counters, object pools, byte
  labels and the decimal text they are built from.
- `src/entity.rs`, `src/component.rs`, `src/query.rs`: entity handles and
  their allocation with reuse; per-type component storage; component
  queries.
- `src/button.rs`, `src/input_state.rs`, `src/events.rs`, `src/web_input.rs`:
  input state of buttons, keys and mouse buttons; key names.
- `src/components_2d.rs`, `src/lines.rs`: 2D components, tile maps read
  from text, trimming and line splitting.
- `src/layout.rs`, `src/layout_tree.rs`, `src/tab_bar.rs`, `src/docking.rs`:
  the editor's docking layout tree, tab bars and docking manager.
- `src/toolbar.rs`, `src/assets.rs`, `src/asset_db.rs`, `src/panels.rs`,
  `src/scene_objects.rs`: editor tools, asset kinds, the asset database and
  browser.
- `src/scene_description.rs`, `src/ai_types.rs`, `src/engine.rs`,
  `src/web_game.rs`: scene description checks and plain data types.
- `src/dataset.rs`, `src/live_preview.rs`, `src/game_generator.rs`: checks
  of training datasets, of scenes before a preview and after generation,
  and the choice of assets to generate for a scene.
- `app/`: floating-point screen geometry, frame timing and JSON
  persistence around the library.
- `tests/`: executable tests of the library.

Each stateful type has a mathematical model (a view or a set of spec
functions); the laws that relate its operations are public proof functions
named `law_*` beside the type.

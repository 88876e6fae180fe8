# photo_engine

The document model and the editing logic of a layer-based photo editor,
with contracts proved by Verus.

- `src/` — the verified library: the layer forest and its edits
  (`document*`, `forest`, `search`, `layer_edits`, `copying`,
  `occurrences`), attribute commands and their inverses (`command`), the
  editing worker with its undo/redo history and batch folding
  (`worker`), what the interface derives from the engine (`interface`)
  and how the window routes its actions and takes the engine's answers
  (`shell`), the decisions of the appearance cache (`appearance_cache`)
  and the coverage of masks (`coverage`). Pixels are held as
  `image::DynamicImage` values behind reference counting (`raster`);
  identifiers are random version-4 UUIDs (`ids`). Opacities are
  thousandths of a percent and placements fixed-point pixels.
- `tests/` — tests of the library.
- `app/` — a command-line shell: decodes images, runs the worker on its
  own thread (handing it the outside work of each batch), converts
  floating-point sizes and amounts, prints the layer stack as JSON.

# PathForge

PathForge draws endless paths — a dungeon corridor, a forest track, a night road — and exports
them as GIF animations that loop without a seam.

The core of the program is a Verus library: executable Rust whose behaviour is stated in
`requires` and `ensures` clauses and proved.

## Layout

* `src/` is the verified library.
  * `settings`, `kinds`, `defaults`, `presets`, `lighting`: what a scene is made of. Numbers with
    decimals are generic; presets give them in thousandths.
  * `rounding`, `rng`, `tiles`, `patterns`, `cobble`, `wear`, `tile_gen`: the textures of floors and
    walls. Arithmetic in single precision is done on integers, bit for bit.
  * `instances`, `layers`, `raster`, `sparkle`, `bloom`, `sprites`, `renderer`: the parts of the
    software renderer that work on whole numbers.
  * `frames`, `gif_stream`, `gif_export`, `project_export`: mixing samples into frames, encoding
    them, and exporting a project file by file.
  * `gpu`, `studio`, `node_lab`, `names`, `listing`, `text`: what the GPU is handed, the steps of the
    render thread and of the interface, names of files and the order they are listed in.
* `tests/` runs the library on concrete values. Where the library computes in single precision, the
  tests compare it with the machine's own.
* `app/` is the program around the library: windows, files, threads, the GPU, and drawing with
  fractional coordinates.
* `extras/` holds the two compute shaders. The program reads them from the directory that
  `PATH_FORGE_SHADERS` names, or else from `extras` where it was built or in the current directory;
  without them it says so and draws on the CPU.

## What is trusted

Proofs rest on the contracts of a few items that Verus does not look into, each with a comment that
says what it claims: the GIF encoder (`gif_stream`), the image decoder (`sprites`), the row alignment
of `wgpu` (`gpu`), `str::to_lowercase` (`listing`) and `String::push` (`text`).

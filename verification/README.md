# aeroduct

The decisions, data structures and bit-level codecs of an interactive duct-flow
simulator: a lattice-Boltzmann solver under a live user interface. The simulation is
always running, edits apply to it live, and every measured number carries its
uncertainty.

`src/` is a Verus library. Every function in it states what it does and is proved to do
it.

| module | what it holds |
|---|---|
| `grid`, `lattice`, `boundary`, `links`, `flags` | padded grids, velocity sets, Esoteric Pull addressing, link masks, wall distances |
| `reference` | the streaming solver: loads, stores, bounce-back, what is measured at a cell |
| `conservation` | what a step keeps: the total of the field, and uniform flow |
| `kernel`, `collision` | what one step makes of one cell's populations, and in which order |
| `precision`, `minifloat`, `binary32`, `float_order` | the 16-bit population codec, sums and products of bit patterns, their order and range |
| `shaders`, `solver`, `config`, `volume` | generated shader text, uniforms, submits, sizes |
| `view`, `toast`, `layers`, `overlays`, `params`, `compare`, `autotune`, `clock`, `format`, `legend`, `pose`, `camera_input` | the models behind the user interface |
| `state`, `panels`, `hud`, `gizmo`, `dock`, `keys`, `platform`, `text` | the interface's state and what each control does to it |

Numbers are carried as bit patterns. Comparing, clamping, negating, rounding to a
storage format and the sums and products of `binary32` are proved here; where a rule
needs other arithmetic, the caller hands in functions that compute it, and the contract
says what is done with whatever they return.

`app/` is ordinary Rust around the library: floating-point arithmetic, the GPU, the
window and the widgets. `tests/` runs the library.

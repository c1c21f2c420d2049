# lizi_engine2d

The integer and combinatorial core of a 2D electrostatic particle-in-cell (PIC)
engine, verified with Verus.

- `src/connections.rs` — springs and ropes between particles: adding, removing,
  finding the links of a particle, and renumbering the links after a particle is
  deleted.
- `src/grid.rs` — periodic index arithmetic used by charge scattering, field
  gathering and the FFT Poisson solver, and a NumPy-style `roll` of a 2D array.
- `src/interaction.rs` — the canvas tools, the layout of spawned particles, and the
  drag state machine.
- `src/solver_kind.rs` — the Poisson solver and boundary kinds.
- `src/colors.rs` — packing of RGB colours for frame buffers.

`app/` holds the floating-point numerics (particle state, scatter/gather, the
FFT, Jacobi and SOR Poisson solvers, the field gradient, the integrators, spring
forces, the heat-map colour ramp) and the JSON spawn lists, built on the library.

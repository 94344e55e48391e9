# rrush

A real-time visualisation of the hydrogen atom: a Monte-Carlo point cloud of
the electron around the nucleus, for single orbitals (static, coloured by the
sign of ψ) and superpositions of orbitals from different shells (animated,
sized by |Ψ(r,t)|² and coloured by its phase).

Layout:

- `src/` — the verified library (Verus): orbitals with their shells, exact
  energies and extents (`orbital`), the on-screen state with its normalisation,
  largest Bohr frequency and default animation speed (`state`), the key map and
  the keyboard decisions of a frame (`keys`), the sampling budget and phase-palette index (`cloud`), and the
  screenshot schedule and file names (`shot`).
- `app/` — the Bevy program: wave-function evaluation in floating point,
  random sampling, rendering, input and screenshots.
- `tests/` — tests of the library.

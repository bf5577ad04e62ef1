# rasterm

A software 3D rasterizer that draws into the terminal, as ASCII art or in
24-bit color, with a verified core.

- `src/` is the library, checked by Verus. It holds what decides: pixel and
  depth storage with their read/write laws, the near-plane clipping decision,
  mesh validation and triangle decimation, keyframe ordering and lookup, the
  Wavefront OBJ grammar (proved to parse exactly the model its specification
  describes, with the format's 1-based indices and relative ones where `-1`
  is the latest entry), the terminal frame text, and the viewer's keyboard
  decisions.
- `app/` is the program around it: terminal I/O, the frame loop, and the
  floating-point work (projection, shading, interpolation, camera paths),
  which Verus does not reason about.
- `tests/` runs the library on concrete inputs.

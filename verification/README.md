# compose_solid

Verified composition of solid strokes into path commands.

- `src/` — the verified library, generic over the point type:
  - `curves`: lines, quadratic and cubic Bézier curves, and their reversal;
  - `path`: path commands, the composition of curves, chains of quadratic
    curves and closed variable-width outlines;
  - `subdivision`: the piecewise plan for offsetting a curve split at its
    critical points;
  - `paint`: the CSS paint of a stroke or fill.
- `app/` — the `f64` geometry (normals, offsets, splitting) and the SVG output.
- `tests/` — tests of the library on concrete values.

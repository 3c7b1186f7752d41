# wgpu_bezier

A renderer for vector shapes that draws quadratic Bézier curves directly on the GPU
with the Loop-Blinn technique, without tessellating them.

- `src/` is the verified library. It plans what is drawn: the geometry of fills and
  strokes, gradients, the order and state of draw calls, masks, blends, transforms,
  filters, cached bitmaps, and what is kept between frames.
  Its numbers are exact: coordinates are integers in units of 1/8192 twip, factors are
  quotients.
- `tests/` runs the library on concrete values.
- `app/` is the GPU side. It performs what the library plans with `wgpu`, rounds exact
  numbers to what shaders read, measures what only floating point can tell (the angle
  of a join), and implements Ruffle's `RenderBackend`. The WGSL sources of the shaders
  are handed in by name.

Among the laws that are proved:

- The triangles of a fill cover exactly what its path encloses by the even-odd rule,
  curves included (`coverage::fill_is_exact`).
- Joins lie on the outer side of a turn, and caps reach outward
  (`stroke::joins_lie_on_the_outer_side`, `vertex::round_caps_bulge_outward`,
  `vertex::square_caps_extend_outward`).
- Masked content shows exactly where its masks cover it, and clearing a mask leaves
  the stencil as it was (`pipelines::masks_show_what_they_cover`).
- Every command finds the transform that was collected for it
  (`transforms::commands_find_their_transforms`).
- A frame that is broken up by complex blends is still cleared once, and its passes use
  up exactly the transforms collected for it (`frame::frame_is_cleared_once`,
  `frame::passes_use_all_transforms`).

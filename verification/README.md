# hephaestus

What a plot draws, decided in verified Rust.

The library takes geoms (columns of data under channel names), a projection, and
what the scales made of the data, and says what is to be drawn: which shapes,
labels, markers and layers, in which order, under which conditions, hit-testing
as what. It does not touch a pixel. Positions and sizes are formulas
(`expr::Expr`, `expr::Cond`) over a few quantities that only a painter can
measure: the panel's edges, the resolution, the size of a label once it is set,
the length of a curve. Numbers are held as their IEEE 754 bit patterns
(`num::Num`), whose meaning as reals is what the contracts speak of.

- `src/num`, `src/names`, `src/value`, `src/channel`: numbers, names, columns.
- `src/diff`, `src/marks`, `src/order`: rows from frame to frame, and how they
  make up marks.
- `src/expr`, `src/scene`, `src/theme`, `src/resolve`, `src/projection`:
  formulas, what can be drawn, defaults, channels through scales, projections.
- `src/geom`: segments, wedges, labels at points, in rectangles and along curves,
  bands between splines.
- `src/plot`: plots, what they ask of the layout, what they draw around and in
  their panels.
- `src/pick`, `src/kind`, `src/slot`, `src/ids`, `src/image_registry`: hits,
  regions, handles, images.
- `app`: a painter that computes the formulas in floating point and walks the
  plans over a canvas and a typesetter of the caller's.
- `tests`: the library at work, with a small painter and a face of equally wide
  letters.

Every function states exactly what it returns. What holds of the library as a
whole is stated by its public proof functions: that a handle finds its geom
until it is removed, that a label turned round keeps its place, that each clip is
popped, that a widened scale stays within its bounds, and more.

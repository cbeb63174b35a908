# circle

Draws a regular polygon with one circle per vertex as an SVG image: each
circle moves from the centre toward its vertex until it touches exactly two
edges, and the circles' radius is a chosen percentage of the largest radius
at which no two circles overlap.

- `src/` is the verified library (Verus):
  - `decimal`: decimal text of unsigned integers;
  - `polygon`: the side-count check and its message, the polygon's name and
    image path, its edges, the pairs of circles to test for overlap, and the
    "touches exactly two edges" decision;
  - `drawing`: the SVG document (canvas, outline, discs), built with the
    `svg` crate from the text of each coordinate.
- `app/main.rs` is the command line (`clap`), the floating-point geometry
  (vertices, distances, the two bisections) and the file output.
- `tests/` exercises the library.

Usage: `circle --sides <SIDES> --percentage <PERCENTAGE>`, with at least 3
sides and a percentage from 0.01 to 100.00; the image goes to
`output/<name>.svg`.

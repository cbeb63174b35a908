//! Combinatorial and textual core of a generator of regular polygons with
//! one circle per vertex, drawn as an SVG image.

pub mod decimal;
pub mod polygon;
pub mod drawing;

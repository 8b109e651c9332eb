//! Layout engine for static charts: axis steps, bar and scatter geometry,
//! grids, labels and legends, emitted as a list of drawing primitives.
//!
//! Lengths, coordinates and data values are fixed-point integers, a
//! thousand steps to the unit (`geom::UNIT`). A chart (`charts::Charts`)
//! is laid out into a rectangle; texts are measured through a
//! `draw::Measure` that the drawing backend provides, and the primitives
//! can be written out as SVG (`svg`).

pub mod bar;
pub mod chart;
pub mod charts;
pub mod draw;
pub mod format;
pub mod geom;
pub mod grid;
pub mod legend;
pub mod round;
pub mod scatter;
pub mod steps;
pub mod svg;
pub mod text;

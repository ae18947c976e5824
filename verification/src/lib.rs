//! A declarative-language interpreter and computational-geometry kernel for
//! spline curves and swept surfaces.
//!
//! An input text describes circles, Bézier and B-spline curves, surfaces of
//! revolution and generalized cylinders.  `parse::parse` turns the text into
//! a table of curve descriptions and a list of surface specifications; the
//! `curve` and `surface` modules turn those into evaluation plans and
//! triangle-mesh index lists with exact contracts.  Floating-point sampling
//! of the plans is left to the embedding program.

pub mod camera;
pub mod curve;
pub mod num;
pub mod parse;
pub mod surface;
pub mod tokens;

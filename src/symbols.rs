//! Glyph tables: the fill ramp used by bars and the line sets used by borders.
pub mod bar;
pub mod line;

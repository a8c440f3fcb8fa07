//! Terminal chart widgets: bordered blocks, bar charts and sparklines drawn
//! onto a grid of character cells, with sub-cell resolution in eighths.
pub mod buffer;
pub mod layout;
pub mod style;
pub mod symbols;
pub mod text_width;
pub mod widgets;

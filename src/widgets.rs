//! The widgets, and the border flags they share.
pub mod barchart;
pub mod bars;
pub mod block;
pub mod borders;
pub mod sparkline;

pub use barchart::BarChart;
pub use block::{Block, BorderType};
pub use borders::Borders;
pub use sparkline::Sparkline;

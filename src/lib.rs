pub mod axes;
pub mod clip;
pub mod controls;
pub mod edges;
pub mod grid;

//! Text that the screens show, decided apart from how it is drawn.

pub mod data_grid;

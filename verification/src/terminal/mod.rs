pub mod cell;
pub mod grid;
pub mod model;
pub mod ansi_handler;
pub mod selection;
pub mod properties;
pub mod effects;

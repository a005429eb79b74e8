//! Filiz: the state, input and parsing logic of a terminal system monitor.

pub mod actions;
pub mod app;
pub mod collectors;
pub mod history;
pub mod input;
pub mod model;
pub mod state;
pub mod text;
pub mod ui;

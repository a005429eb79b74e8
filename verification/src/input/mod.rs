pub mod action;
pub mod keymap;
pub mod list;

//! The verified core of APR, an interactive remover of pacman packages.
//!
//! The library holds what the program decides and computes: which packages are
//! listed and in which order, what each key and each message of the worker does
//! to the state, the steps of a dry run and of a removal, and what every screen
//! shows. Reading the package database, running threads and drawing on the
//! terminal are left to the program around it.

pub mod app;
pub mod bars;
pub mod details;
pub mod dialogs;
pub mod laws;
pub mod layout;
pub mod listing;
pub mod mode;
pub mod model;
pub mod order;
pub mod package;
pub mod rounding;
pub mod runs;
pub mod safety;
pub mod screen;
pub mod style;
pub mod table;
pub mod text;
pub mod transaction;
pub mod typesetting;
pub mod widget;

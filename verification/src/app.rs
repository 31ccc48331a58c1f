//! The screens of the program, apart from the drawing.

pub mod args;
pub mod form;
pub mod launch;
pub mod local;
pub mod os;
pub mod probe;
pub mod session;
pub mod start;
pub mod tailscale;
pub mod ui;

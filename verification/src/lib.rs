//! The logic of a desktop window around an assistant's command-line program.
//!
//! Each tab of the window runs one long-lived program and talks to it line by line. `tab::Tab` takes
//! what happens, in the window or in the program, and answers with the actions that are to be
//! performed; the other modules are what it is made of, and `laws` is what holds of all of it.

pub mod commands;
pub mod errlog;
pub mod json;
pub mod launch;
pub mod laws;
pub mod names;
pub mod paths;
pub mod render;
pub mod session;
pub mod tab;
pub mod text;
pub mod wire;

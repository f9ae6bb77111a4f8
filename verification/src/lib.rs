//! The core of `fw`, a manager for workspaces of many git repositories.
//!
//! The library decides; it does not act. It works out what a project's
//! hooks, workspace and path are, which steps bring a project in line with
//! its configuration, what is printed for a line that a command wrote, and
//! which worker gets which project. Reading and writing files, talking to
//! remotes and starting processes is left to the program around it, which
//! does what the library names and reports back what came of it.

pub mod errors;
pub mod text;
pub mod numbers;
pub mod names;
pub mod name_map;
pub mod util;
pub mod config;
pub mod git;
pub mod spawn;
pub mod sync;
pub mod project;
pub mod tag;
pub mod export;
pub mod workon;
pub mod setup;
pub mod shell;
pub mod projectile;
pub mod intellij;
pub mod ws;
pub mod nconfig;
pub mod cli;

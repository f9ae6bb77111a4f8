//! Services on the web that know of repositories.

pub mod github;

//! Decisions of a build step that builds a SvelteKit frontend beside a Rust
//! service: which files are watched, what goes into the change hash, and when
//! the npm steps run.
pub mod bytes;
pub mod path;
pub mod layout;
pub mod tree;
pub mod io;
pub mod lines;
pub mod digest;
pub mod frontend;
pub mod steps;
pub mod run;
pub mod cwd;
pub mod laws;
pub mod cli;

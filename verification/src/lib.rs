//! A terminal quiz trainer for mental arithmetic and calendar skills.
//!
//! The heart of the crate is a small command-line argument engine: typed
//! option declarations, a tokenizer/validator for raw argument vectors,
//! duplicate and conflict detection, typed accessors with declared defaults,
//! and a column-aligned help renderer. The remaining modules build the
//! individual practice skills and the session statistics on top of it.

pub mod application;
pub mod args;
pub mod config;
pub mod question;
mod random;
pub mod skill;
pub mod stats;
mod text;

pub use application::Application;
pub use args::ArgValue;
pub use args::ArgValuePair;
pub use config::Config;

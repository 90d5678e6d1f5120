//! The verified core of a terminal plugin manager for the Omarchy shell.
pub mod text;
pub mod settings;
pub mod models;
pub mod omarchy;
pub mod git;
pub mod discovery;
pub mod profile;
pub mod app;
pub mod input;
pub mod style;

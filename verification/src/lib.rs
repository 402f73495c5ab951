//! Reconciles the settings a repository should have with the settings it has.

pub mod commands;
pub mod description;
pub mod differ;
pub mod flatten;
pub mod github;
pub mod permutation;
pub mod retrieve;
pub mod settings;
pub mod text;

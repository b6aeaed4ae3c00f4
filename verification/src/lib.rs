//! Persistent engineering memory for AI coding agents: the verified core.

pub mod text;
pub mod seqs;
pub mod tokens;
pub mod time;
pub mod model;
pub mod experience;
pub mod recall;
pub mod engine;
pub mod render;
pub mod report;
pub mod protocol;
pub mod cli;
pub mod laws;

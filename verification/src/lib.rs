pub mod text;
pub mod error;
pub mod security;
pub mod packs;
pub mod inference;
pub mod engine;
pub mod output;
pub mod config;
pub mod cli;
pub mod named;

pub mod context;
pub mod input;
pub mod pipeline;

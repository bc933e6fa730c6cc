pub mod builtin;
pub mod discovery;
pub mod loader;
pub mod manifest;
pub mod scaffold;
pub mod validation;

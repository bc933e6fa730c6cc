pub mod mock;
pub mod select;
pub mod types;
pub mod typesafe;

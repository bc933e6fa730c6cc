pub mod limits;
pub mod validation;

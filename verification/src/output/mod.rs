pub mod human;
pub mod listing;
pub mod report;

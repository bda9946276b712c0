pub mod resolve;
pub mod types;

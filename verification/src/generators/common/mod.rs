pub mod env;
pub mod errors;
pub mod headers;
pub mod types;
pub mod validation;

pub mod errors;
pub mod types;
pub mod model;
mod text;
pub mod laws;

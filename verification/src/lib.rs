pub mod laws;
pub mod store;

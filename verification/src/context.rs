pub mod context;
pub mod datacache;
pub mod merkle;

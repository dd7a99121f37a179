pub mod api;
pub mod stats;

pub mod emit;
pub mod ignores;
pub mod laws;
pub mod listing;
pub mod naming;
pub mod pipeline;
pub mod text;

pub use pipeline::{build, compile};

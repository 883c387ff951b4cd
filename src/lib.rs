pub mod book;
pub mod laws;
pub mod program;
pub mod scoring;
pub mod state;

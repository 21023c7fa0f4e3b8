pub mod game;
pub mod input;
pub mod laws;
pub mod text;

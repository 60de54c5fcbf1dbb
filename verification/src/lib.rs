pub mod codec;
pub mod game;
pub mod search;
pub mod strategy;

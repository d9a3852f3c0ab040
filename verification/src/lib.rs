pub mod achievements;
pub mod chaos;
pub mod game;
pub mod grid;
pub mod rules;

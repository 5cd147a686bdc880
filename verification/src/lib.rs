pub mod board;
pub mod engine;
pub mod game;
pub mod game_cli;
pub mod uci;
pub mod worker;

pub mod game;
pub mod http;
pub mod server;
pub mod setup;
pub mod text;

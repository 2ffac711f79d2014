pub mod arena;
pub mod codec;
pub mod connection;
pub mod data;
pub mod manager;
pub mod server;

pub mod text;
pub mod serde;
pub mod crypto;
pub mod table;
pub mod config;
pub mod commands;
pub mod home;
pub mod arguments;
pub mod utils;
pub mod lpm_client;
pub mod lpm_server;
pub mod channel;

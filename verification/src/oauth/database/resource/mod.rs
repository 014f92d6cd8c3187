pub mod client;
pub mod user;

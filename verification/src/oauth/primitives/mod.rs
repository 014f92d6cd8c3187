pub mod generator;
pub mod registrar;
pub mod scope;
pub mod secret;
pub mod table;
pub mod text;

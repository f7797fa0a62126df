pub mod schema;
pub mod classify;
pub mod layout;
pub mod api;
pub mod generate;
pub mod runtime;
pub mod laws;
pub mod command;

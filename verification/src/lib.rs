pub mod access;
pub mod chat;
pub mod error;
pub mod executor;
pub mod handlers;
pub mod ids;
pub mod json;
pub mod models;
pub mod parser;
pub mod position;
pub mod prompts;
pub mod resolver;
pub mod services;
pub mod store;
pub mod text;

pub mod text;

pub mod engine;
pub mod cli;
pub mod app;
pub mod keys;
pub mod components;
pub mod commands;
pub mod layout;
pub mod session;

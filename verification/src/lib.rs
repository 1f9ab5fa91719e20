pub mod terminal;
pub mod text;
pub mod screen;
pub mod status;
pub mod input;
pub mod web;
pub mod manager;
pub mod mcp;

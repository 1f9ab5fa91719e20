pub mod reader;
pub mod formatter;

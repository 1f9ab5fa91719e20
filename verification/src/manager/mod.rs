pub mod registry;
pub mod instance;

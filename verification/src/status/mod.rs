pub mod query;
pub mod events;

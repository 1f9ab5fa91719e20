pub mod messages;
pub mod interaction;

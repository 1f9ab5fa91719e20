pub mod requests;

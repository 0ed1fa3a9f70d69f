pub mod reply;
pub mod store;

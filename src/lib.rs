pub mod api;
pub mod decode;
pub mod pass;
pub mod time;

pub mod backend;
pub mod exchange;
pub mod formats;
pub mod response;
pub mod unicode;

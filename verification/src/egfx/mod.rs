pub mod backend;
pub mod bits;
pub mod colour;
pub mod decode;
pub mod device;
pub mod driver;
pub mod h264;
pub mod headers;
pub mod messages;
pub mod nv12;
pub mod policy;
pub mod rate_control;
pub mod reference;
pub mod stream;
pub mod syntax;
pub mod vaapi;

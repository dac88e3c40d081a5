pub mod frame;
pub mod mapper;
pub mod shared;
